//! A minimal game loop driver: it measures the wall-clock time between
//! iterations and hands it to a game's `update` until the game asks to stop.

pub mod clock;
pub mod game_loop;
pub mod traces;

pub use clock::{Duration, Timestamp};
pub use game_loop::{Game, GameLoop, LoopView, Phase};
