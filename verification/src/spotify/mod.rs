//! The audio path from Spotify to the voice channel.

pub mod channel;
pub mod laws;
pub mod sink;
