//! A verified turn-based two-player grid game engine: a 3x3 board with
//! win/draw detection, an exhaustive game-tree search that picks optimal
//! moves, player controllers (human, random computer, optimal computer),
//! and a stack-based application state machine for the menu and play flow.

pub mod game;
pub mod input;
pub mod menus;
pub mod rendering;
pub mod states;
pub mod text;

pub use game::artificial_intelligence;
pub use game::board;
pub use game::players;
