//! The history of a community: actions, the blocks that carry them, and the
//! engine that applies blocks to passports and channels.

pub mod action;
pub mod block;
pub mod engine;

pub use action::{Action, ActionView, AsJsonError};
pub use block::{Block, BlockView};
pub use engine::{ApplyOutcome, Evidence, Message, Rejection};
