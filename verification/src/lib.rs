//! In-process capture of structured log events: a bounded ring of recent
//! events with filtered, paginated queries, a live feed for subscribers, and
//! the decisions behind the HTTP and WebSocket endpoints that expose both.

pub mod api;
pub mod event;
pub mod fields;
pub mod filter;
pub mod frontend;
pub mod json;
pub mod layer;
pub mod storage;
pub mod subscriber;
pub mod text;
pub mod wire;


pub use crate::event::LogEvent;
pub use crate::layer::TracingLayerBuilder;
pub use crate::storage::LogStorage;
