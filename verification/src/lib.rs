//! Proximity-voice bridge library: the message schema and line codec spoken
//! with the game server, the spatial volume attenuation rule, the two-queue
//! mailbox that links the voice-session driver to the server-link driver, and
//! the decision logic of both drivers.

pub mod position;
pub mod volume;
pub mod message;
pub mod bridge;
pub mod json;
pub mod digits;
pub mod codec;
pub mod session;
pub mod link;
