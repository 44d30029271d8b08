//! A daily briefing: inputs are collected, a language model writes the briefing,
//! and outputs publish it. This library holds the requests, replies, texts and
//! decisions of every component, each with its contract.
pub mod anthropic;
pub mod briefing;
pub mod clock;
pub mod config;
pub mod fever;
pub mod ha_metrics;
pub mod ha_output;
pub mod openai;
pub mod runner;
pub mod speech;
pub mod text;
pub mod webpage;
pub mod webserver;
