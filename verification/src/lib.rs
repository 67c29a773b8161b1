//! A room-based two-player game server library.
//!
//! The library is the verified core of a tic-tac-toe server: the game state
//! machine, the room registry with atomic capacity enforcement, and the
//! broadcast engine with failure-driven pruning of dead connections.
//! Transport, JSON encoding and process setup live outside the library.

pub mod broadcast;
pub mod channel;
pub mod errors;
pub mod game;
pub mod handler;
pub mod registry;
pub mod requests;
pub mod responses;
pub mod room;

pub use errors::ErrorCode;
pub use game::PlayerMark;
pub use room::{Connection, ConnectionId, Room};
