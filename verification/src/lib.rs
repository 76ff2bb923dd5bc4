//! A room-scoped chat relay: rooms, presence, history and the per-connection
//! protocol, with every state change stated as a contract.
//!
//! The relay keeps no sockets. Each protocol step takes the current state and
//! an event, updates the state, and returns the frames to send together with
//! the connections they are addressed to; the caller owns the transport.

pub mod command;
pub mod handler;
pub mod laws;
pub mod message;
pub mod pages;
pub mod protocol;
pub mod registry;
pub mod room;
pub mod session;
mod stamp;
pub mod system;
pub mod text;
pub mod wire;

pub use command::Command;
pub use handler::{ChatSocketHandler, Phase};
pub use message::{ChatMessage, MessageType, User};
pub use registry::ChatState;
pub use room::{Delivery, RoomState};
pub use session::UserSession;
