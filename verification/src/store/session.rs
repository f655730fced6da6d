//! What the store remembers of running sessions and of authorizations.

use vstd::prelude::*;

verus! {

/// Tokens received after OAuth is complete.
#[derive(Debug, Clone)]
pub struct SpotifyTokens {
    pub access_token: String,
    pub refresh_token: Option<String>,
}

/// A running Spotify Connect session for one guild.
#[derive(Debug, Clone, Copy, PartialEq, Eq, Structural)]
pub struct ActiveSession {
    /// Channel where the /start-spotify command was run (for announcements).
    pub text_channel_id: u64,
    /// Voice channel the bot joined.
    pub voice_channel_id: u64,
    /// Number of the signal by which /stop-spotify requests a clean shutdown.
    pub shutdown_tx: u64,
}

/// Per-user voice join timestamp (ms since UNIX epoch).
#[derive(Debug, Clone)]
pub struct VoiceSession {
    pub joined_at_ms: u128,
    pub display_name: String,
}

/// What a voice session says.
#[verifier::ext_equal]
pub struct VoiceSessionView {
    pub joined_at_ms: u128,
    pub display_name: Seq<char>,
}

impl View for VoiceSession {
    type V = VoiceSessionView;

    open spec fn view(&self) -> VoiceSessionView {
        VoiceSessionView { joined_at_ms: self.joined_at_ms, display_name: self.display_name@ }
    }
}

} // verus!
