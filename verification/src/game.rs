//! The game core: board model, player controllers and the move search.

pub mod artificial_intelligence;
pub mod board;
pub mod players;
