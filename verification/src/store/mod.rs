//! Shared application state: authorizations in progress, running sessions, and
//! the time that users spend in voice.

pub mod clock;
pub mod laws;
pub mod leaderboard;
pub mod maps;
pub mod session;

pub use crate::store::clock::unix_now_ms;
pub use crate::store::leaderboard::RankEntry;
pub use crate::store::session::{ActiveSession, SpotifyTokens, VoiceSession};

use crate::store::leaderboard::{RankView, VoiceRank};
use crate::store::maps::{
    contains_active, get_active, insert_active, insert_pending, insert_voice, new_active, new_pending,
    new_voice, remove_active, remove_pending, remove_voice,
};
use crate::store::session::VoiceSessionView;
use crate::text::decimal_string;
use dashmap::DashMap;
use vstd::prelude::*;

verus! {

/// Shared application state.
pub struct Store {
    /// Pending OAuth flows: decimal user id to the number of the signal that
    /// waits for the tokens.
    pending: DashMap<String, u64>,
    /// The bot's Discord username, set once the gateway Ready event fires.
    bot_name: String,
    /// One active Spotify Connect session per guild.
    active_sessions: DashMap<u64, ActiveSession>,
    /// In-progress voice sessions: user id to join timestamp.
    voice_sessions: DashMap<u64, VoiceSession>,
    /// Accumulated voice time, to be persisted on every update.
    voice_rank: VoiceRank,
    /// Path to the JSON rank file.
    rank_file: String,
}

/// What a store holds.
#[verifier::ext_equal]
pub struct StoreView {
    pub pending: Map<Seq<char>, u64>,
    pub bot_name: Seq<char>,
    pub active_sessions: Map<u64, ActiveSession>,
    pub voice_sessions: Map<u64, VoiceSessionView>,
    pub voice_rank: Map<Seq<char>, RankView>,
    pub rank_file: Seq<char>,
}

impl View for Store {
    type V = StoreView;

    closed spec fn view(&self) -> StoreView {
        StoreView {
            pending: crate::store::maps::pending_entries(self.pending),
            bot_name: self.bot_name@,
            active_sessions: crate::store::maps::active_entries(self.active_sessions),
            voice_sessions: crate::store::maps::voice_entries(self.voice_sessions),
            voice_rank: self.voice_rank@,
            rank_file: self.rank_file@,
        }
    }
}

/// What became of a user leaving voice.
#[derive(Debug, Clone, Copy, PartialEq, Eq, Structural)]
pub enum LeaveOutcome {
    /// The user had no voice session; nothing changed.
    NotInVoice,
    /// The session is over and its time was added to the rank.
    Recorded,
    /// The session is over, but it began after the present time, so that no time
    /// could be added.
    ClockWentBack,
    /// The session is over, but the user's total with its time does not fit, so
    /// that no time was added.
    TotalOverflow,
}

/// The key under which a user is ranked.
pub open spec fn user_key(user_id: u64) -> Seq<char> {
    crate::text::decimal(user_id as nat)
}

/// The milliseconds from `joined_at_ms` to `now_ms`, modulo 2^64.
pub open spec fn elapsed_ms(joined_at_ms: u128, now_ms: u128) -> u64 {
    ((now_ms - joined_at_ms) % 0x1_0000_0000_0000_0000) as u64
}

/// The voice time recorded for `key`.
pub open spec fn total_ms(rank: Map<Seq<char>, RankView>, key: Seq<char>) -> u64 {
    if rank.contains_key(key) {
        rank[key].total_ms
    } else {
        0
    }
}

/// The store after a user joined voice at `now_ms`.
pub open spec fn entered(
    s: StoreView,
    user_id: u64,
    display_name: Seq<char>,
    now_ms: u128,
) -> StoreView {
    StoreView {
        voice_sessions: s.voice_sessions.insert(
            user_id,
            VoiceSessionView { joined_at_ms: now_ms, display_name },
        ),
        ..s
    }
}

/// What becomes of a user leaving voice at `now_ms`.
pub open spec fn leave_outcome(s: StoreView, user_id: u64, now_ms: u128) -> LeaveOutcome {
    if !s.voice_sessions.contains_key(user_id) {
        LeaveOutcome::NotInVoice
    } else if now_ms < s.voice_sessions[user_id].joined_at_ms {
        LeaveOutcome::ClockWentBack
    } else if total_ms(s.voice_rank, user_key(user_id)) + elapsed_ms(
        s.voice_sessions[user_id].joined_at_ms,
        now_ms,
    ) > u64::MAX {
        LeaveOutcome::TotalOverflow
    } else {
        LeaveOutcome::Recorded
    }
}

/// The store after a user left voice at `now_ms`.
pub open spec fn left(s: StoreView, user_id: u64, now_ms: u128) -> StoreView {
    let session = s.voice_sessions[user_id];
    let gone = StoreView { voice_sessions: s.voice_sessions.remove(user_id), ..s };
    match leave_outcome(s, user_id, now_ms) {
        LeaveOutcome::NotInVoice => s,
        LeaveOutcome::Recorded => StoreView {
            voice_rank: s.voice_rank.insert(
                user_key(user_id),
                RankView {
                    display_name: session.display_name,
                    total_ms: (total_ms(s.voice_rank, user_key(user_id)) + elapsed_ms(
                        session.joined_at_ms,
                        now_ms,
                    )) as u64,
                },
            ),
            ..gone
        },
        _ => gone,
    }
}

impl LeaveOutcome {
    /// Whether the rank changed and is to be persisted.
    pub fn rank_changed(&self) -> (changed: bool)
        ensures
            changed == (*self == LeaveOutcome::Recorded),
    {
        *self == LeaveOutcome::Recorded
    }
}

/// The milliseconds from `joined_at_ms` to `now_ms`, modulo 2^64.
fn elapsed_since(joined_at_ms: u128, now_ms: u128) -> (ms: u64)
    requires
        joined_at_ms <= now_ms,
    ensures
        ms == elapsed_ms(joined_at_ms, now_ms),
{
    let whole: u128 = now_ms - joined_at_ms;
    assert(whole as u64 == whole % 0x1_0000_0000_0000_0000) by (bit_vector);
    #[verifier::truncate]
    let ms: u64 = whole as u64;
    ms
}

/// Where the rank is saved.
pub fn rank_path() -> (path: String)
    ensures
        path@ == "data/voice_rank.json"@,
{
    "data/voice_rank.json".to_owned()
}

/// The rank that was saved, or an empty one where none could be read.
pub fn load_rank(saved: Option<Vec<(String, RankEntry)>>) -> (rank: VoiceRank)
    ensures
        rank.wf(),
        rank@ == match saved {
            Some(entries) => crate::store::leaderboard::collected(entries@),
            None => Map::empty(),
        },
{
    match saved {
        Some(entries) => VoiceRank::from_entries(entries),
        None => VoiceRank::new(),
    }
}

impl Store {
    /// Every user key has one rank entry.
    pub closed spec fn wf(self) -> bool {
        self.voice_rank.wf()
    }

    /// The rank entries in the order in which their users were first seen.
    pub closed spec fn listed(self) -> Seq<(String, RankEntry)> {
        self.voice_rank.listed()
    }

    /// A store that continues with the rank that was saved, if one could be read.
    pub fn new(saved: Option<Vec<(String, RankEntry)>>) -> (store: Self)
        ensures
            store.wf(),
            store@ == (StoreView {
                pending: Map::empty(),
                bot_name: "Discord Bot"@,
                active_sessions: Map::empty(),
                voice_sessions: Map::empty(),
                voice_rank: match saved {
                    Some(entries) => crate::store::leaderboard::collected(entries@),
                    None => Map::empty(),
                },
                rank_file: "data/voice_rank.json"@,
            }),
    {
        Store {
            pending: new_pending(),
            bot_name: "Discord Bot".to_owned(),
            active_sessions: new_active(),
            voice_sessions: new_voice(),
            voice_rank: load_rank(saved),
            rank_file: rank_path(),
        }
    }

    /// Record a user joining a voice channel at `now_ms`.
    pub fn voice_join_at(&mut self, user_id: u64, display_name: String, now_ms: u128)
        requires
            old(self).wf(),
        ensures
            final(self).wf(),
            final(self)@ == entered(old(self)@, user_id, display_name@, now_ms),
    {
        insert_voice(
            &mut self.voice_sessions,
            user_id,
            VoiceSession { joined_at_ms: now_ms, display_name },
        );
    }

    /// Record a user joining a voice channel, at the time that the clock shows.
    pub fn voice_join(&mut self, user_id: u64, display_name: String)
        requires
            old(self).wf(),
        ensures
            final(self).wf(),
            exists|now_ms: u128|
                crate::store::clock::clock_shows(now_ms) && now_ms
                    <= crate::store::clock::LATEST_MS && final(self)@ == #[trigger] entered(
                    old(self)@,
                    user_id,
                    display_name@,
                    now_ms,
                ),
    {
        let ms = unix_now_ms();
        self.voice_join_at(user_id, display_name, ms);
    }

    /// Record a user leaving a voice channel at `now_ms`; accumulate elapsed time.
    pub fn voice_leave_at(&mut self, user_id: u64, now_ms: u128) -> (outcome: LeaveOutcome)
        requires
            old(self).wf(),
        ensures
            final(self).wf(),
            outcome == leave_outcome(old(self)@, user_id, now_ms),
            final(self)@ == left(old(self)@, user_id, now_ms),
    {
        match remove_voice(&mut self.voice_sessions, user_id) {
            Some(session) => {
                if now_ms < session.joined_at_ms {
                    return LeaveOutcome::ClockWentBack;
                }
                let elapsed = elapsed_since(session.joined_at_ms, now_ms);
                let key = decimal_string(user_id);
                let before = match self.voice_rank.get(key.as_str()) {
                    Some(entry) => entry.total_ms,
                    None => 0,
                };
                if before > u64::MAX - elapsed {
                    return LeaveOutcome::TotalOverflow;
                }
                self.voice_rank.put(
                    key,
                    RankEntry { display_name: session.display_name, total_ms: before + elapsed },
                );
                LeaveOutcome::Recorded
            },
            None => {
                assert(self@ =~= old(self)@);
                LeaveOutcome::NotInVoice
            },
        }
    }

    /// Record a user leaving a voice channel, at the time that the clock shows;
    /// accumulate elapsed time.
    pub fn voice_leave(&mut self, user_id: u64) -> (outcome: LeaveOutcome)
        requires
            old(self).wf(),
        ensures
            final(self).wf(),
            exists|now_ms: u128|
                crate::store::clock::clock_shows(now_ms) && now_ms
                    <= crate::store::clock::LATEST_MS && outcome == leave_outcome(
                    old(self)@,
                    user_id,
                    now_ms,
                ) && final(self)@ == #[trigger] left(old(self)@, user_id, now_ms),
    {
        let ms = unix_now_ms();
        self.voice_leave_at(user_id, ms)
    }

    /// Return top N users sorted by total voice time.
    pub fn top_voice(&self, limit: usize) -> (top: Vec<(String, RankEntry)>)
        requires
            self.wf(),
        ensures
            top@ == crate::store::leaderboard::ranked(self.listed(), limit as nat),
            crate::store::leaderboard::is_leaderboard(self@.voice_rank, limit as nat, top@),
    {
        self.voice_rank.top(limit)
    }

    /// All rank entries, to be saved.
    pub fn rank_entries(&self) -> (all: Vec<(String, RankEntry)>)
        requires
            self.wf(),
        ensures
            all@ == self.listed(),
            crate::store::leaderboard::distinct_keys(all@),
            crate::store::leaderboard::collected(all@) == self@.voice_rank,
    {
        self.voice_rank.entries()
    }

    /// Where the rank is saved.
    pub fn rank_file(&self) -> (path: &str)
        ensures
            path@ == self@.rank_file,
    {
        self.rank_file.as_str()
    }

    /// The bot's username.
    pub fn bot_name(&self) -> (name: &str)
        ensures
            name@ == self@.bot_name,
    {
        self.bot_name.as_str()
    }

    /// Wait for the tokens of a user under the signal `tx`. Returns the number of
    /// the signal that waited for that user before; nothing can reach it any more.
    pub fn expect_tokens(&mut self, user: String, tx: u64) -> (replaced: Option<u64>)
        ensures
            final(self)@ == (StoreView {
                pending: old(self)@.pending.insert(user@, tx),
                ..old(self)@
            }),
            old(self).wf() ==> final(self).wf(),
            replaced == old(self)@.pending.get(user@),
    {
        insert_pending(&mut self.pending, user, tx)
    }

    /// Stop waiting for the tokens of a user. Returns the number of the signal
    /// that waited.
    pub fn take_pending(&mut self, user: &str) -> (removed: Option<u64>)
        ensures
            final(self)@ == (StoreView { pending: old(self)@.pending.remove(user@), ..old(self)@ }),
            old(self).wf() ==> final(self).wf(),
            removed == old(self)@.pending.get(user@),
    {
        remove_pending(&mut self.pending, user)
    }

    /// Whether a session is active in a guild.
    pub fn has_session(&self, guild_id: u64) -> (active: bool)
        ensures
            active == self@.active_sessions.contains_key(guild_id),
    {
        contains_active(&self.active_sessions, guild_id)
    }

    /// The session that is active in a guild, if there is one.
    pub fn session(&self, guild_id: u64) -> (session: Option<ActiveSession>)
        ensures
            session == self@.active_sessions.get(guild_id),
    {
        get_active(&self.active_sessions, guild_id)
    }

    /// Register the session of a guild. Returns the one that it replaces.
    pub fn start_session(&mut self, guild_id: u64, session: ActiveSession) -> (replaced: Option<
        ActiveSession,
    >)
        ensures
            final(self)@ == (StoreView {
                active_sessions: old(self)@.active_sessions.insert(guild_id, session),
                ..old(self)@
            }),
            old(self).wf() ==> final(self).wf(),
            replaced == old(self)@.active_sessions.get(guild_id),
    {
        insert_active(&mut self.active_sessions, guild_id, session)
    }

    /// Forget the session of a guild. Returns it.
    pub fn end_session(&mut self, guild_id: u64) -> (ended: Option<ActiveSession>)
        ensures
            final(self)@ == (StoreView {
                active_sessions: old(self)@.active_sessions.remove(guild_id),
                ..old(self)@
            }),
            old(self).wf() ==> final(self).wf(),
            ended == old(self)@.active_sessions.get(guild_id),
    {
        remove_active(&mut self.active_sessions, guild_id)
    }

    /// Take over the bot's username.
    pub fn set_bot_name(&mut self, name: String)
        ensures
            final(self)@ == (StoreView { bot_name: name@, ..old(self)@ }),
            old(self).wf() ==> final(self).wf(),
    {
        self.bot_name = name;
    }
}

} // verus!
