//! The slash commands, and what a running session says and does.

pub mod jam;
pub mod laws;
pub mod links;
pub mod now_playing;
pub mod rank;
pub mod rivals;
pub mod showing;
pub mod start_spotify;
pub mod steps;
pub mod stop_spotify;
pub mod watchdog;
