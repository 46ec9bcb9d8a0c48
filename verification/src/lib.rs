//! Core of a chat-style real-time communication server: snowflake
//! identifiers, message-content mention codec, gateway wire protocol,
//! session registry, and the per-channel actor that persists, indexes
//! and republishes channel messages.

pub mod channel;
pub mod clock;
pub mod decimal;
pub mod gateway;
pub mod http;
pub mod message;
pub mod proto;
pub mod role;
pub mod server;
pub mod snowflake;
pub mod storage;
pub mod user;
pub mod wire;
