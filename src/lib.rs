//! A small real-time chat broker: the wire codec, frame transport, participant
//! registry, router and per-connection session logic, with their contracts.

pub mod be;
pub mod calendar;
pub mod chat;
pub mod client;
mod clock;
pub mod codec;
pub mod color;
pub mod frame;
pub mod handshake;
pub mod message;
pub mod registry;
pub mod router;
pub mod session;
pub mod text;
