//! A bounded-concurrency fetch engine with automatic retry, live progress
//! feedback, and restoration of request order in the returned results.
//!
//! The engine itself is a verified state machine: a batch of requests is
//! installed in a task queue, workers draw tasks one at a time, and every
//! outcome is routed either to the result slots (success, or retries
//! exhausted) or back to the queue with a decremented retry budget. Retried
//! requests wait behind all still-pending fresh requests, which gives
//! transient failures breathing room without any timer.

pub mod codec;
pub mod config;
pub mod crawler;
pub mod error;
pub mod gallery;
pub mod numeral;
pub mod outcome;
pub mod progress;
pub mod queue;

pub use config::run;
pub use config::Arguments;
pub use config::Config;
pub use crawler::Crawler;
pub use crawler::FetchClient;
pub use error::DisplayableError;
pub use error::FetchError;
pub use gallery::Gallery;
pub use numeral::usize_to_string;
