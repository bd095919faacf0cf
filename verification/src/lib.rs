//! A small proxy for AI chat APIs: routing by path prefix, endpoint
//! configuration merging, status-code retry rules and the retry loop's
//! decisions, all stated and proved with Verus.
pub mod text;
pub mod protocol;
pub mod model_map;
pub mod config;
pub mod json;
pub mod upstream;
pub mod retry;
pub mod cleaning;
pub mod server;
