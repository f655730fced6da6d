//! The watchdog of a running session: it ends when it is stopped or when nobody
//! listens any more.

use crate::store::session::ActiveSession;
use crate::store::{Store, StoreView};
use vstd::prelude::*;

verus! {

/// How often the watchdog looks for listeners.
pub const POLL_SECS: u64 = 5;

/// Where a user is in voice.
#[derive(Debug, Clone, Copy, PartialEq, Eq, Structural)]
pub struct Presence {
    pub user_id: u64,
    pub channel_id: Option<u64>,
}

/// The presences in a list that may be missing.
pub open spec fn places(presences: Option<Vec<Presence>>) -> Option<Seq<Presence>> {
    match presences {
        Some(seen) => Some(seen@),
        None => None,
    }
}

/// Whether somebody other than the bot is in `channel_id`. Nobody is in a server
/// that is not known.
pub open spec fn has_listener(
    presences: Option<Seq<Presence>>,
    channel_id: u64,
    bot_id: u64,
) -> bool {
    match presences {
        Some(seen) => exists|i: int|
            0 <= i < seen.len() && (#[trigger] seen[i]).channel_id == Some(channel_id)
                && seen[i].user_id != bot_id,
        None => false,
    }
}

/// Whether somebody other than the bot is in `channel_id`.
pub fn still_connected(presences: &Option<Vec<Presence>>, channel_id: u64, bot_id: u64) -> (found:
    bool)
    ensures
        found == has_listener(places(*presences), channel_id, bot_id),
{
    match presences {
        Some(seen) => {
            let mut i: usize = 0;
            while i < seen.len()
                invariant
                    places(*presences) == Some(seen@),
                    i <= seen@.len(),
                    forall|j: int|
                        0 <= j < i ==> !((#[trigger] seen@[j]).channel_id == Some(channel_id)
                            && seen@[j].user_id != bot_id),
                decreases seen@.len() - i,
            {
                let here = match seen[i].channel_id {
                    Some(id) => id == channel_id,
                    None => false,
                };
                if here && seen[i].user_id != bot_id {
                    assert(seen@[i as int].channel_id == Some(channel_id));
                    return true;
                }
                i += 1;
            }
            false
        },
        None => false,
    }
}

/// What a watchdog wakes up for.
#[derive(Debug)]
pub enum Wake {
    /// The session is to be shut down, or its signal was dropped.
    StopRequested,
    /// Time to look for listeners: where the users of the server are, if it is
    /// known, and the bot's own user id.
    Poll { presences: Option<Vec<Presence>>, bot_id: u64 },
    /// The voice channel was left.
    LeftVoice,
}

/// What a wake says.
#[verifier::ext_equal]
pub enum WakeView {
    StopRequested,
    Poll { presences: Option<Seq<Presence>>, bot_id: u64 },
    LeftVoice,
}

impl View for Wake {
    type V = WakeView;

    open spec fn view(&self) -> WakeView {
        match self {
            Wake::StopRequested => WakeView::StopRequested,
            Wake::Poll { presences, bot_id } => WakeView::Poll {
                presences: places(*presences),
                bot_id: *bot_id,
            },
            Wake::LeftVoice => WakeView::LeftVoice,
        }
    }
}

/// Whether `wake` ends the session in `channel_id`: it is to be shut down, or nobody
/// listens any more.
pub open spec fn ends(wake: WakeView, channel_id: u64) -> bool {
    match wake {
        WakeView::StopRequested => true,
        WakeView::Poll { presences, bot_id } => !has_listener(presences, channel_id, bot_id),
        WakeView::LeftVoice => false,
    }
}

/// Whether `wake` ends the session in `channel_id`.
fn is_over(wake: &Wake, channel_id: u64) -> (over: bool)
    ensures
        over == ends(wake@, channel_id),
{
    match wake {
        Wake::StopRequested => true,
        Wake::Poll { presences, bot_id } => !still_connected(presences, channel_id, *bot_id),
        Wake::LeftVoice => false,
    }
}

/// How far a watchdog has come.
#[derive(Debug, Clone, Copy, PartialEq, Eq, Structural)]
pub enum Watch {
    /// The session runs.
    Watching,
    /// The session is over; the voice channel is being left.
    Leaving,
    /// Nothing is left to do.
    Done,
}

/// What is to be done outside.
#[derive(Debug, Clone, Copy, PartialEq, Eq, Structural)]
pub enum SessionAction {
    /// Shut the device of the session down.
    ShutDownDevice,
    /// Leave the voice channel of this server, and report it with `LeftVoice`.
    LeaveVoice(u64),
    /// Drop the sending end of the signal of this number.
    DropSignal(u64),
}

/// The watchdog of one session.
#[derive(Debug, Clone, Copy, PartialEq, Eq, Structural)]
pub struct Watchdog {
    pub guild_id: u64,
    pub channel_id: u64,
    /// The number of the signal that stops the session.
    pub signal: u64,
    pub watch: Watch,
}

/// The watchdog of a session that was just registered.
pub open spec fn watchdog_of(guild_id: u64, session: ActiveSession) -> Watchdog {
    Watchdog {
        guild_id,
        channel_id: session.voice_channel_id,
        signal: session.shutdown_tx,
        watch: Watch::Watching,
    }
}

/// One step of a watchdog.
#[verifier::ext_equal]
pub struct WatchStep {
    pub watchdog: Watchdog,
    pub store: StoreView,
    pub actions: Seq<SessionAction>,
}

/// A step that changes nothing and calls for nothing.
pub open spec fn idle(w: Watchdog, s: StoreView) -> WatchStep {
    WatchStep { watchdog: w, store: s, actions: Seq::empty() }
}

/// The session is over: the device is shut down and the voice channel is left.
pub open spec fn winding_up(w: Watchdog, s: StoreView) -> WatchStep {
    WatchStep {
        watchdog: Watchdog { watch: Watch::Leaving, ..w },
        store: s,
        actions: seq![SessionAction::ShutDownDevice, SessionAction::LeaveVoice(w.guild_id)],
    }
}

/// The session of the server is forgotten, and its signal dropped.
pub open spec fn forgetting(w: Watchdog, s: StoreView) -> WatchStep {
    WatchStep {
        watchdog: Watchdog { watch: Watch::Done, ..w },
        store: StoreView { active_sessions: s.active_sessions.remove(w.guild_id), ..s },
        actions: match s.active_sessions.get(w.guild_id) {
            Some(session) => seq![SessionAction::DropSignal(session.shutdown_tx)],
            None => Seq::empty(),
        },
    }
}

/// Whether a session other than that of the watchdog is registered in its server.
pub open spec fn superseded(w: Watchdog, s: StoreView) -> bool {
    s.active_sessions.contains_key(w.guild_id) && s.active_sessions[w.guild_id].shutdown_tx
        != w.signal
}

/// The session is over, and another one has taken its place in the server.
pub open spec fn giving_way(w: Watchdog, s: StoreView, actions: Seq<SessionAction>) -> WatchStep {
    WatchStep { watchdog: Watchdog { watch: Watch::Done, ..w }, store: s, actions }
}

/// What a wake does to a watchdog and the store, and what it calls for.
///
/// A session that is over has its device shut down and the voice channel left; once
/// that is done, it is forgotten. There is one session per server: where another one
/// is registered by now, that one keeps its entry and the voice channel.
pub open spec fn watched(w: Watchdog, s: StoreView, wake: WakeView) -> WatchStep {
    match w.watch {
        Watch::Watching => if !ends(wake, w.channel_id) {
            idle(w, s)
        } else if superseded(w, s) {
            giving_way(w, s, seq![SessionAction::ShutDownDevice])
        } else {
            winding_up(w, s)
        },
        Watch::Leaving => if !(wake is LeftVoice) {
            idle(w, s)
        } else if superseded(w, s) {
            giving_way(w, s, Seq::empty())
        } else {
            forgetting(w, s)
        },
        Watch::Done => idle(w, s),
    }
}

impl Watchdog {
    /// The watchdog of a session that was just registered.
    pub fn new(guild_id: u64, session: ActiveSession) -> (w: Self)
        ensures
            w == watchdog_of(guild_id, session),
    {
        Watchdog {
            guild_id,
            channel_id: session.voice_channel_id,
            signal: session.shutdown_tx,
            watch: Watch::Watching,
        }
    }

    /// Whether a session other than that of the watchdog is registered in its server.
    fn is_superseded(&self, store: &Store) -> (newer: bool)
        ensures
            newer == superseded(*self, store@),
    {
        match store.session(self.guild_id) {
            Some(session) => session.shutdown_tx != self.signal,
            None => false,
        }
    }

    /// Takes up a wake, and returns the actions that it calls for, in order.
    pub fn step(&mut self, store: &mut Store, wake: &Wake) -> (actions: Vec<SessionAction>)
        ensures
            old(store).wf() ==> final(store).wf(),
            (WatchStep { watchdog: *final(self), store: final(store)@, actions: actions@ })
                == watched(*old(self), old(store)@, wake@),
    {
        let mut actions: Vec<SessionAction> = Vec::new();
        match self.watch {
            Watch::Watching => {
                if is_over(wake, self.channel_id) {
                    actions.push(SessionAction::ShutDownDevice);
                    if self.is_superseded(store) {
                        self.watch = Watch::Done;
                    } else {
                        self.watch = Watch::Leaving;
                        actions.push(SessionAction::LeaveVoice(self.guild_id));
                    }
                }
            },
            Watch::Leaving => {
                if let Wake::LeftVoice = wake {
                    if !self.is_superseded(store) {
                        if let Some(session) = store.end_session(self.guild_id) {
                            actions.push(SessionAction::DropSignal(session.shutdown_tx));
                        }
                    }
                    self.watch = Watch::Done;
                }
            },
            Watch::Done => {},
        }
        assert(actions@ =~= watched(*old(self), old(store)@, wake@).actions);
        actions
    }
}

} // verus!
