# daily_briefing

A daily briefing pipeline: inputs (a Fever RSS aggregator, Home Assistant sensor
history) are collected, a language model writes the briefing, and outputs publish it
(a Home Assistant notification, a web page, a spoken version served as audio).

The crate is written in Verus. `src/` is the verified library: every request the
components send, every reply they read, the text they produce and the decisions of
the pipeline, each with a contract. `app/` is the `daily-briefing` command around it:
the configuration file, HTTP, the web server's sockets, running Piper, the clock-driven
loop, and the floating-point sums of sensor readings.

## Layout of `src/`

| Module | What it holds |
|---|---|
| `briefing` | `InputData`, the `Input`/`Output`/`Processor` traits, how inputs are combined |
| `config` | the configuration's shape and `Config::validate` |
| `runner` | the outcome of a run from its inputs' and outputs' results, the schedule, the wait until the next run, component settings |
| `fever` | Fever requests, the API key, page-by-page collection, `strip_html` |
| `ha_metrics` | history requests, the split of a history into two windows, the comparison report |
| `ha_output` | the notification request and status check |
| `anthropic`, `openai` | chat requests and reading replies |
| `webserver` | the content store (`WebServer`), basic authentication, answering requests |
| `webpage` | the rendered page, the stand-alone page server's answers |
| `speech` | the Piper arguments, the audio and player page registration |
| `clock`, `text` | time rendering through `chrono`, string helpers |

Laws proved about the library include: what a read of the web server gives back after
a write (`webserver::read_after_update`, `update_replaces`), that `strip_html` output
contains no tags, has trimmed lines with never two blank lines in a row, and is a
fixed point (`fever::client::stripped_text_is_plain`, `stripped_lines_are_tidy`,
`plain_text_is_stable`), that the Fever input keeps only unread items in its window
(`FeverPager::accept`, `FeverInput::start`), that an id list parses back to its ids
(`fever::client::id_list_round_trip`), that splitting a history keeps every change on
the right side of the boundary (`ha_metrics::client::split_keeps_every_change`,
`split_respects_boundary`), and that the speech output's audio and player never
overwrite each other (`speech::write_serves_audio_and_player`).
The run loop's law (`runner::run_loop_law`): without a schedule the pipeline runs
once; with one, runs repeat while they succeed, and the first failing run ends the
loop with its error.
A schedule keeps the expression it was read from (`runner::CronSchedule`), and
`next_sleep` waits until that schedule's next time after the present
(`runner::cron_next`).
