//! Verified core of a terminal birthday card with a hidden music player:
//! text layout, banner glyphs, date and time formatting, the shuffled
//! play queue and the player's state machine.

pub mod banner;
pub mod card;
pub mod catalog;
pub mod format;
pub mod grid;
pub mod layout;
pub mod player;
pub mod queue;
pub mod rng;
pub mod screen;
pub mod text;
pub mod wrap;
