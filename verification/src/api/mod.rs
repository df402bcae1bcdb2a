//! The decisions behind the HTTP and WebSocket endpoints.

pub mod logs;
pub mod stream;
