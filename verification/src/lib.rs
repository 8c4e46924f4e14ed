//! A verified navigation core for a team of maze-exploring agents.
//!
//! The crate decodes the compact radar snapshot an agent receives each
//! turn, tracks exploration memory, shares leader/follower coordination
//! state, and turns all of that into a single movement decision.
//! Network transport, JSON framing and thread plumbing live outside the
//! library; the functions here work on plain values and carry contracts
//! for everything they compute.

pub mod challenge;
pub mod codec;
pub mod coordination;
pub mod direction;
pub mod memory;
pub mod message;
pub mod navigation;
pub mod policy;
pub mod tracker;
pub mod turn;

pub use direction::Position;
pub use direction::RelativeDirection;
pub use message::ActionData;
