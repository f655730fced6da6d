# voicebot

A Discord bot that plays Spotify in a voice channel and ranks the members of a
server by the time they spend in voice.

- `src/` is the library. It decides what the bot does, and everything in it is
  verified with Verus: voice time and the leaderboard (`store`), the gateway events
  and slash commands (`bot`), and the audio path from the player to the voice
  connection (`spotify`).
- `app/` connects the library to Discord, Spotify, the voice gateway and the rank
  file. The Spotify services are handed in through the traits in `app/spotify.rs`.
  The voice gateway in `app/voice.rs` needs the `songbird` crate, which is to be added
  to `Cargo.toml` to build the bot.
- `tests/` runs the library on concrete values.

What the library takes from other crates stands in `src/store/maps.rs`,
`src/store/clock.rs`, `src/spotify/channel.rs` and `src/bot/commands/links.rs`,
each call with what is assumed of it.

Signals between tasks are known to the library by number. The application keeps the
sending ends and drops or uses them as the library says.
