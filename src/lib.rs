//! A minimal language-server endpoint: length-prefixed JSON-RPC framing,
//! request/notification discrimination, a fixed dispatch table and the
//! per-frame session step.

pub mod frame;
pub mod json;
pub mod message;
pub mod dispatch;
pub mod session;
