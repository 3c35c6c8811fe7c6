//! Client-side engine for the ICB chat protocol: the packet codec with its
//! registry, the session as a state machine, and what a terminal client
//! keeps of its chats and of the line that is typed.

pub mod client;
pub mod codec_laws;
pub mod input;
pub mod message;
pub mod packets;
pub mod queues;
pub mod session;
pub mod session_laws;
pub mod tab;
pub mod tailview;
pub mod text;

pub use session::{init, Command, Config, Event, Server};
