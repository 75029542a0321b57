//! What the server answers, and the wire format of events.

pub mod http;
pub mod laws;
pub mod sse;
pub mod wire;
