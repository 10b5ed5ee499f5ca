//! Client-side logic for a real-time chat-gateway protocol: a frame codec
//! that turns raw JSON text frames into a closed set of typed events, a
//! session state machine driving the Identify/Resume handshake and sequence
//! tracking, and a rate-limit-aware retry discipline for REST actions.
//!
//! All I/O (the websocket transport and the HTTP client) lives outside this
//! crate; everything here is pure logic over plain values.

pub mod codec;
pub mod discordmessage;
pub mod json;
pub mod payload;
pub mod rest;
pub mod session;
pub mod wire;
