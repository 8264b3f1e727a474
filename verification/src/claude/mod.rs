//! The assistant CLI: turn arguments, prompt assembly and the shared request types.
pub mod argv;
pub mod attachments;
pub mod ndjson;
pub mod session;
pub mod stream_json;
pub mod turn;
pub mod types;
