//! The verified core of a Discord bot that plays Spotify in a voice channel and
//! ranks the members of a server by the time they spend in voice.

pub mod bot;
pub mod spotify;
pub mod store;
pub mod text;
