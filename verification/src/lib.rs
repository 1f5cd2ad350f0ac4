//! An in-process topic broadcast hub for a small chat client: message
//! envelopes, a per-consumer duplicate filter, a ticket codec for sharing
//! topics, a per-client topic directory, the hub that fans envelopes out to
//! live subscribers, and the screens of the chat window.

pub mod client;
pub mod dedup;
pub mod directory;
pub mod error;
pub mod hub;
pub mod inbox;
pub mod message;
pub mod platform;
pub mod screen;
pub mod subscription;
pub mod text;
pub mod ticket;
