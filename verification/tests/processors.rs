use daily_briefing::anthropic::client::{
    api_url, api_version, AnthropicClient, ContentBlock, Error as AnthropicClientError, ResponseBody,
};
use daily_briefing::anthropic::{AnthropicConfig, AnthropicProcessor, Error as AnthropicError};
use daily_briefing::briefing::{combine_inputs, InputData, Processor};
use daily_briefing::openai::client::{
    ApiError, Choice, ChoiceMessage, Error as OpenAiClientError, OpenAiClient, ResponseBody as OpenAiResponse,
};
use daily_briefing::openai::{Error as OpenAiError, OpenAiConfig, OpenAiProcessor};

fn data(source: &str, content: &str) -> InputData {
    InputData { source: source.to_string(), content: content.to_string() }
}

#[test]
fn test_request_body_serialization() {
    let client = AnthropicClient::new("key");
    let body = client.request("opus-4-6", 1024, "Hello,", "world!");
    assert_eq!(body.model, "opus-4-6");
    assert_eq!(body.max_tokens, 1024);
    assert_eq!(body.messages[0].role, "user");
    assert_eq!(body.messages[0].content, "Hello,\n\nworld!");
}

#[test]
fn test_response_parsing_success() {
    let resp = ResponseBody {
        content: vec![ContentBlock { block_type: "text".into(), text: Some("This is the summary.".into()) }],
        error: None,
    };
    let text = AnthropicClient::reply_text("200 OK", resp).ok();
    assert_eq!(text, Some("This is the summary.".to_string()));
}

#[test]
fn test_response_parsing_empty_content() {
    let resp = ResponseBody { content: vec![], error: None };
    let text = AnthropicClient::reply_text("200 OK", resp).ok();
    assert!(text.is_none());
}

#[test]
fn test_message_content_combines_prompt_and_input() {
    let prompt = "Summarize the following:";
    let content = "Article 1\nArticle 2";
    let request = AnthropicClient::new("key").request("m", 1, prompt, content);
    let combined = &request.messages[0].content;
    assert!(combined.starts_with("Summarize the following:"));
    assert!(combined.contains("Article 1"));
    assert!(combined.contains("Article 2"));
}

#[test]
fn anthropic_reply_errors() {
    let resp = ResponseBody {
        content: vec![],
        error: Some(daily_briefing::anthropic::client::ApiError { message: "overloaded".into() }),
    };
    match AnthropicClient::reply_text("529", resp) {
        Err(AnthropicClientError::Api(m)) => assert_eq!(m, "HTTP 529: overloaded"),
        _ => panic!("expected an API error"),
    }
    let resp = ResponseBody {
        content: vec![
            ContentBlock { block_type: "tool_use".into(), text: Some("no".into()) },
            ContentBlock { block_type: "text".into(), text: None },
            ContentBlock { block_type: "text".into(), text: Some("late".into()) },
        ],
        error: None,
    };
    assert!(matches!(AnthropicClient::reply_text("200 OK", resp), Err(AnthropicClientError::EmptyResponse)));
    assert_eq!(AnthropicClientError::EmptyResponse.message(), "Empty response from Anthropic API");
    assert_eq!(
        AnthropicError::Client(AnthropicClientError::Http("x".into())).message(),
        "Anthropic client error: HTTP request failed: x"
    );
    assert_eq!(api_url(), "https://api.anthropic.com/v1/messages");
    assert_eq!(api_version(), "2023-06-01");
}

#[test]
fn inputs_are_combined_under_headers() {
    assert_eq!(combine_inputs(&[data("a", "x"), data("b", "y")]), "=== a ===\nx\n\n=== b ===\ny");
    assert_eq!(combine_inputs(&[]), "");
    let p = AnthropicProcessor::new(AnthropicConfig {
        api_key: "k".into(),
        model: "m".into(),
        max_tokens: 9,
        prompt: "P".into(),
    });
    assert_eq!(p.client().api_key(), "k");
    let r = p.request(&[data("a", "x")]);
    assert_eq!(r.messages[0].content, "P\n\n=== a ===\nx");
    assert_eq!(r.max_tokens, 9);
}

#[test]
fn tests_test_request_body_serialization() {
    let client = OpenAiClient::new(None, None);
    let body = client.request("gpt-4o", 1024, "You are a helpful assistant.", "Hello, world!");
    assert_eq!(body.model, "gpt-4o");
    assert_eq!(body.max_tokens, 1024);
    assert_eq!(body.messages[0].role, "system");
    assert_eq!(body.messages[1].role, "user");
    assert_eq!(body.messages[1].content, "Hello, world!");
}

#[test]
fn tests_test_response_parsing_success() {
    let resp = OpenAiResponse {
        choices: vec![Choice { message: ChoiceMessage { content: Some("This is the summary.".into()) } }],
        error: None,
    };
    let text = OpenAiClient::reply_text("200 OK", resp).ok();
    assert_eq!(text, Some("This is the summary.".to_string()));
}

#[test]
fn test_response_parsing_api_error() {
    let resp = OpenAiResponse { choices: vec![], error: Some(ApiError { message: "Invalid API key".into() }) };
    match OpenAiClient::reply_text("401 Unauthorized", resp) {
        Err(OpenAiClientError::Api(m)) => assert_eq!(m, "HTTP 401 Unauthorized: Invalid API key"),
        _ => panic!("expected an API error"),
    }
}

#[test]
fn test_response_parsing_empty_choices() {
    let resp = OpenAiResponse { choices: vec![], error: None };
    let text = OpenAiClient::reply_text("200 OK", resp).ok();
    assert!(text.is_none());
}

#[test]
fn test_client_default_base_url() {
    let client = OpenAiClient::new(None, None);
    assert_eq!(client.base_url(), "https://api.openai.com/v1");
}

#[test]
fn test_client_custom_base_url_strips_trailing_slash() {
    let client = OpenAiClient::new(Some("http://192.168.10.3:8080/v1/"), None);
    assert_eq!(client.base_url(), "http://192.168.10.3:8080/v1");
}

#[test]
fn openai_processor_builds_its_request() {
    let p = OpenAiProcessor::new(OpenAiConfig {
        base_url: Some("http://local//".into()),
        api_key: Some("k".into()),
        model: "m".into(),
        max_tokens: 5,
        prompt: "Sys".into(),
    });
    assert_eq!(p.client().base_url(), "http://local");
    assert_eq!(p.client().api_key(), Some("k"));
    assert_eq!(p.client().completions_url(), "http://local/chat/completions");
    let r = p.request(&[data("s", "c")]);
    assert_eq!(r.messages[0].content, "Sys");
    assert_eq!(r.messages[1].content, "=== s ===\nc");
    assert_eq!(
        OpenAiError::Client(OpenAiClientError::EmptyResponse).message(),
        "OpenAI client error: Empty response from OpenAI API"
    );
    let resp = OpenAiResponse { choices: vec![Choice { message: ChoiceMessage { content: None } }], error: None };
    assert!(matches!(OpenAiClient::reply_text("200 OK", resp), Err(OpenAiClientError::EmptyResponse)));
}
