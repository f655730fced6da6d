//! `/stop-spotify`: stop the session of a server.

use crate::store::{Store, StoreView};
use vstd::prelude::*;

verus! {

/// What stopping a session calls for.
#[derive(Debug, PartialEq, Eq)]
pub struct StopStep {
    /// The number of the signal that asks the session to shut down.
    pub signal: Option<u64>,
    /// The server whose voice channel is to be left.
    pub leave: Option<u64>,
    /// The answer; only the user sees it.
    pub reply: String,
}

/// What stopping a session calls for.
#[verifier::ext_equal]
pub struct StopView {
    pub signal: Option<u64>,
    pub leave: Option<u64>,
    pub reply: Seq<char>,
}

impl View for StopStep {
    type V = StopView;

    open spec fn view(&self) -> StopView {
        StopView { signal: self.signal, leave: self.leave, reply: self.reply@ }
    }
}

/// What `/stop-spotify` calls for.
pub open spec fn stop_step(s: StoreView, guild_id: Option<u64>) -> StopView {
    match guild_id {
        None => StopView {
            signal: None,
            leave: None,
            reply: "This command must be used inside a server."@,
        },
        Some(id) => if s.active_sessions.contains_key(id) {
            StopView {
                signal: Some(s.active_sessions[id].shutdown_tx),
                leave: Some(id),
                reply: "✅ Spotify session stopped."@,
            }
        } else {
            StopView {
                signal: None,
                leave: None,
                reply: "There is no active Spotify session in this server."@,
            }
        },
    }
}

/// The store after `/stop-spotify`.
pub open spec fn stopped(s: StoreView, guild_id: Option<u64>) -> StoreView {
    match guild_id {
        None => s,
        Some(id) => StoreView { active_sessions: s.active_sessions.remove(id), ..s },
    }
}

/// Stops the session of a server, if there is one: it is forgotten, it is asked to
/// shut down, and the voice channel is left.
pub fn run(store: &mut Store, guild_id: Option<u64>) -> (step: StopStep)
    ensures
        old(store).wf() ==> final(store).wf(),
        step@ == stop_step(old(store)@, guild_id),
        final(store)@ == stopped(old(store)@, guild_id),
{
    let id = match guild_id {
        Some(id) => id,
        None => {
            return StopStep {
                signal: None,
                leave: None,
                reply: "This command must be used inside a server.".to_owned(),
            };
        },
    };
    match store.end_session(id) {
        Some(session) => StopStep {
            signal: Some(session.shutdown_tx),
            leave: Some(id),
            reply: "✅ Spotify session stopped.".to_owned(),
        },
        None => StopStep {
            signal: None,
            leave: None,
            reply: "There is no active Spotify session in this server.".to_owned(),
        },
    }
}

} // verus!
