//! What holds of all starts in one server, however they, their watchdogs and
//! `/stop-spotify` come between each other. Several starts can be let through before
//! the first of them has registered its session.

use crate::bot::commands::laws;
use crate::bot::commands::start_spotify;
use crate::bot::commands::start_spotify::{ActionView, EventView, FlowView, Invocation, Stage};
use crate::bot::commands::stop_spotify;
use crate::bot::commands::watchdog;
use crate::bot::commands::watchdog::{SessionAction, WakeView, Watch, Watchdog};
use crate::store::session::ActiveSession;
use crate::store::StoreView;
use vstd::prelude::*;

verus! {

/// One of the starts in a server.
#[verifier::ext_equal]
pub struct Side {
    pub flow: FlowView,
    /// The number of the signal that stops its session.
    pub signal: u64,
    /// The watchdog of its session, once there is one.
    pub watchdog: Option<Watchdog>,
    /// Whether its device runs.
    pub device: bool,
    /// Whether the signal was sent or dropped.
    pub told: bool,
}

/// The starts in a server, in the order in which they were accepted, and the store.
#[verifier::ext_equal]
pub struct Rivals {
    pub guild_id: u64,
    pub store: StoreView,
    pub sides: Seq<Side>,
}

/// What happens next.
pub enum Turn {
    /// A start is accepted; its session is to be stopped by the signal of this number.
    Enter(Invocation, u64),
    /// The flow of a side takes up an event.
    Flow(int, EventView),
    /// The watchdog of a side wakes up.
    Watchdog(int, WakeView),
    /// `/stop-spotify` is used in the server.
    Stop,
    /// The store changes for other reasons.
    Elsewhere(StoreView),
}

/// A server without a session, in which no start was accepted yet.
pub open spec fn quiet(guild_id: u64, s: StoreView) -> Rivals {
    Rivals { guild_id, store: s, sides: Seq::empty() }
}

/// A start that was just accepted.
pub open spec fn entrant(call: Invocation, signal: u64) -> Side {
    Side {
        flow: start_spotify::accepted(call),
        signal,
        watchdog: None,
        device: false,
        told: false,
    }
}

/// A side after its flow moved on to `flow` and called for `actions`.
pub open spec fn moved(side: Side, flow: FlowView, actions: Seq<ActionView>) -> Side {
    Side {
        flow,
        watchdog: if actions.len() > 0 && actions.last() is Attend {
            Some(actions.last()->Attend_0)
        } else {
            side.watchdog
        },
        device: (side.device || flow.stage == Stage::AwaitingVoice) && !actions.contains(
            ActionView::ShutDownDevice,
        ),
        ..side
    }
}

/// The sides after the signals that `hit` tells were sent or dropped.
pub open spec fn signalled(sides: Seq<Side>, hit: spec_fn(u64) -> bool) -> Seq<Side> {
    sides.map_values(|x: Side| Side { told: x.told || hit(x.signal), ..x })
}

/// The starts and the store after a turn.
pub open spec fn after_turn(r: Rivals, turn: Turn) -> Rivals {
    match turn {
        Turn::Enter(call, signal) => Rivals { sides: r.sides.push(entrant(call, signal)), ..r },
        Turn::Flow(i, event) => {
            let step = start_spotify::stepped(r.sides[i].flow, r.store, event);
            Rivals {
                store: step.store,
                sides: signalled(
                    r.sides.update(i, moved(r.sides[i], step.flow, step.actions)),
                    |n: u64| step.actions.contains(ActionView::DropSignal(n)),
                ),
                ..r
            }
        },
        Turn::Watchdog(i, wake) => match r.sides[i].watchdog {
            Some(w) => {
                let step = watchdog::watched(w, r.store, wake);
                let side = Side {
                    watchdog: Some(step.watchdog),
                    device: r.sides[i].device && !step.actions.contains(
                        SessionAction::ShutDownDevice,
                    ),
                    ..r.sides[i]
                };
                Rivals {
                    store: step.store,
                    sides: signalled(
                        r.sides.update(i, side),
                        |n: u64| step.actions.contains(SessionAction::DropSignal(n)),
                    ),
                    ..r
                }
            },
            None => r,
        },
        Turn::Stop => {
            let step = stop_spotify::stop_step(r.store, Some(r.guild_id));
            Rivals {
                store: stop_spotify::stopped(r.store, Some(r.guild_id)),
                sides: signalled(r.sides, |n: u64| step.signal == Some(n)),
                ..r
            }
        },
        Turn::Elsewhere(store) => Rivals { store, ..r },
    }
}

/// Whether `n` is the signal of a side.
pub open spec fn is_taken(sides: Seq<Side>, n: u64) -> bool {
    exists|i: int| 0 <= i < sides.len() && (#[trigger] sides[i]).signal == n
}

/// Whether nothing in `store` waits for tokens under the signal of a side.
pub open spec fn apart(sides: Seq<Side>, store: StoreView) -> bool {
    forall|user: Seq<char>| #[trigger]
        store.pending.contains_key(user) ==> !is_taken(sides, store.pending[user])
}

/// Whether a turn may come.
///
/// Any event may come, failures too. A start is accepted only where none is refused, a
/// session is stopped only by its signal, that the channel was left is reported only
/// after it was to be left, and a signal number is given once. Other commands and
/// events leave the session of the server alone.
pub open spec fn may_come(r: Rivals, turn: Turn) -> bool {
    match turn {
        Turn::Enter(call, signal) => {
            &&& call.guild_id == Some(r.guild_id)
            &&& start_spotify::refusal(r.store, call) is None
            &&& !is_taken(r.sides, signal)
            &&& forall|user: Seq<char>| #[trigger]
                r.store.pending.contains_key(user) ==> r.store.pending[user] != signal
        },
        Turn::Flow(i, event) => {
            &&& 0 <= i < r.sides.len()
            &&& match event {
                EventView::LinkSent(tx) => !is_taken(r.sides, tx),
                EventView::Announced(tx) => tx == r.sides[i].signal,
                _ => true,
            }
        },
        Turn::Watchdog(i, wake) => {
            &&& 0 <= i < r.sides.len()
            &&& match wake {
                WakeView::StopRequested => r.sides[i].told,
                WakeView::Poll { .. } => true,
                WakeView::LeftVoice => r.sides[i].watchdog matches Some(w) && w.watch
                    == Watch::Leaving,
            }
        },
        Turn::Stop => true,
        Turn::Elsewhere(store) => {
            &&& store.active_sessions.get(r.guild_id) == r.store.active_sessions.get(r.guild_id)
            &&& apart(r.sides, store)
        },
    }
}

/// Whether a turn ends no session by itself: `/stop-spotify` is not used, and somebody
/// listens at every poll.
pub open spec fn is_calm(r: Rivals, turn: Turn) -> bool {
    match turn {
        Turn::Watchdog(i, WakeView::Poll { presences, bot_id }) => watchdog::has_listener(
            presences,
            r.sides[i].flow.voice_channel_id,
            bot_id,
        ),
        Turn::Stop => false,
        _ => true,
    }
}

/// The starts and the store after `turns`.
pub open spec fn after_turns(r: Rivals, turns: Seq<Turn>) -> Rivals
    decreases turns.len(),
{
    if turns.len() == 0 {
        r
    } else {
        after_turn(after_turns(r, turns.drop_last()), turns.last())
    }
}

/// Whether `turns` may come one after the other.
pub open spec fn may_all_come(r: Rivals, turns: Seq<Turn>) -> bool
    decreases turns.len(),
{
    turns.len() > 0 ==> {
        &&& may_all_come(r, turns.drop_last())
        &&& may_come(after_turns(r, turns.drop_last()), turns.last())
    }
}

/// Whether none of `turns` ends a session by itself.
pub open spec fn are_calm(r: Rivals, turns: Seq<Turn>) -> bool
    decreases turns.len(),
{
    turns.len() > 0 ==> {
        &&& are_calm(r, turns.drop_last())
        &&& is_calm(after_turns(r, turns.drop_last()), turns.last())
    }
}

/// Whether a side is through with its start, and with its end where that has begun or
/// its signal was sent or dropped.
pub open spec fn at_rest(side: Side) -> bool {
    ||| side.flow.stage == Stage::Ended
    ||| {
        &&& side.flow.stage == Stage::Live
        &&& side.watchdog is Some
        &&& side.watchdog->0.watch != Watch::Leaving
        &&& side.told ==> side.watchdog->0.watch == Watch::Done
    }
}

/// Whether the session of a side runs: its device does, it is the one that is
/// registered, and it is watched.
pub open spec fn runs(side: Side, s: StoreView) -> bool {
    &&& side.device
    &&& s.active_sessions.get(side.flow.guild_id) == Some(
        start_spotify::session_of(side.flow, side.signal),
    )
    &&& side.watchdog == Some(
        watchdog::watchdog_of(
            side.flow.guild_id,
            start_spotify::session_of(side.flow, side.signal),
        ),
    )
}

/// Whether `entry` is that of the session of a side.
spec fn holds(side: Side, entry: Option<ActiveSession>) -> bool {
    entry is Some && entry->0.shutdown_tx == side.signal
}

spec fn sound(side: Side, guild_id: u64, entry: Option<ActiveSession>) -> bool {
    let session = start_spotify::session_of(side.flow, side.signal);
    &&& side.flow.guild_id == guild_id
    &&& side.flow.stage != Stage::Live ==> {
        &&& side.watchdog is None
        &&& !side.told
        &&& side.device == laws::has_device(side.flow.stage)
        &&& !holds(side, entry)
    }
    &&& side.flow.stage == Stage::Live ==> {
        &&& side.watchdog is Some
        &&& side.watchdog->0 == (Watchdog {
            watch: side.watchdog->0.watch,
            ..watchdog::watchdog_of(guild_id, session)
        })
        &&& side.device == (side.watchdog->0.watch == Watch::Watching)
        &&& side.told == !holds(side, entry)
        &&& holds(side, entry) ==> entry == Some(session) && side.watchdog->0.watch != Watch::Done
    }
}

spec fn inv(r: Rivals) -> bool {
    let entry = r.store.active_sessions.get(r.guild_id);
    &&& forall|i: int| 0 <= i < r.sides.len() ==> sound(#[trigger] r.sides[i], r.guild_id, entry)
    &&& forall|i: int, j: int|
        0 <= i < j < r.sides.len() ==> (#[trigger] r.sides[i]).signal != (
        #[trigger] r.sides[j]).signal
    &&& apart(r.sides, r.store)
    &&& entry is Some ==> is_taken(r.sides, entry->0.shutdown_tx)
}

/// While nothing ends a session by itself, there is one as soon as a start went live.
spec fn kept(r: Rivals) -> bool {
    forall|i: int|
        0 <= i < r.sides.len() && (#[trigger] r.sides[i]).flow.stage == Stage::Live ==> {
            &&& r.store.active_sessions.contains_key(r.guild_id)
            &&& r.sides[i].watchdog is Some
            &&& r.sides[i].watchdog->0.watch != Watch::Leaving
        }
}

proof fn lemma_signals_kept(r: Rivals, turn: Turn)
    requires
        may_come(r, turn),
        !(turn is Enter),
    ensures
        after_turn(r, turn).sides.len() == r.sides.len(),
        forall|i: int|
            0 <= i < r.sides.len() ==> (#[trigger] after_turn(r, turn).sides[i]).signal
                == r.sides[i].signal,
        forall|n: u64| is_taken(after_turn(r, turn).sides, n) == is_taken(r.sides, n),
{
    let after = after_turn(r, turn);
    assert forall|n: u64| is_taken(after.sides, n) == is_taken(r.sides, n) by {
        if is_taken(after.sides, n) {
            let i = choose|i: int| 0 <= i < after.sides.len() && (#[trigger] after.sides[i]).signal == n;
            assert(r.sides[i].signal == n);
        }
        if is_taken(r.sides, n) {
            let i = choose|i: int| 0 <= i < r.sides.len() && (#[trigger] r.sides[i]).signal == n;
            assert(after.sides[i].signal == n);
        }
    }
}

proof fn lemma_enter(r: Rivals, call: Invocation, signal: u64)
    requires
        inv(r),
        may_come(r, Turn::Enter(call, signal)),
    ensures
        inv(after_turn(r, Turn::Enter(call, signal))),
        kept(r) ==> kept(after_turn(r, Turn::Enter(call, signal))),
{
    let after = after_turn(r, Turn::Enter(call, signal));
    let n = r.sides.len() as int;
    assert(after.sides[n] == entrant(call, signal));
    assert forall|i: int| 0 <= i < n implies #[trigger] after.sides[i] == r.sides[i] by {}
    assert forall|i: int, j: int| 0 <= i < j < after.sides.len() implies (
    #[trigger] after.sides[i]).signal != (#[trigger] after.sides[j]).signal by {
        if j == n {
            assert(r.sides[i].signal != signal);
        }
    }
    assert forall|user: Seq<char>| #[trigger] after.store.pending.contains_key(user) implies !is_taken(
        after.sides,
        after.store.pending[user],
    ) by {
        let tx = r.store.pending[user];
        assert(r.store.pending.contains_key(user));
        if is_taken(after.sides, tx) {
            let i = choose|i: int| 0 <= i < after.sides.len() && (#[trigger] after.sides[i]).signal == tx;
            if i < n {
                assert(r.sides[i].signal == tx);
            }
        }
    }
}

proof fn lemma_flow(r: Rivals, i: int, event: EventView)
    requires
        inv(r),
        may_come(r, Turn::Flow(i, event)),
    ensures
        inv(after_turn(r, Turn::Flow(i, event))),
        kept(r) ==> kept(after_turn(r, Turn::Flow(i, event))),
{
    let turn = Turn::Flow(i, event);
    let side = r.sides[i];
    let step = start_spotify::stepped(side.flow, r.store, event);
    let after = after_turn(r, turn);
    let entry = r.store.active_sessions.get(r.guild_id);
    let entry2 = after.store.active_sessions.get(r.guild_id);
    lemma_signals_kept(r, turn);
    assert(sound(side, r.guild_id, entry));
    let user = side.flow.user;
    if r.store.pending.contains_key(user) {
        assert(!is_taken(r.sides, r.store.pending[user]));
    }
    if side.flow.stage == Stage::Streaming && event is Announced {
        let actions = step.actions;
        assert(actions.last() == ActionView::Attend(
            watchdog::watchdog_of(r.guild_id, start_spotify::session_of(side.flow, side.signal)),
        ));
        if entry is Some {
            assert(actions[0] == ActionView::DropSignal(entry->0.shutdown_tx));
        }
        assert(forall|n: u64|
            actions.contains(ActionView::DropSignal(n)) <==> entry is Some && entry->0.shutdown_tx
                == n);
        assert(r.sides[i].signal == side.signal);
    } else {
        assert forall|n: u64| is_taken(r.sides, n) implies !#[trigger] step.actions.contains(
            ActionView::DropSignal(n),
        ) by {}
        assert(entry2 == entry);
    }
    if step.flow.stage == Stage::Ended && side.flow.stage != Stage::Ended && laws::has_device(
        side.flow.stage,
    ) {
        assert(step.actions[1] == ActionView::ShutDownDevice);
    }
    assert forall|j: int| 0 <= j < after.sides.len() implies sound(
        #[trigger] after.sides[j],
        r.guild_id,
        entry2,
    ) by {
        assert(is_taken(r.sides, r.sides[j].signal));
        assert(sound(r.sides[j], r.guild_id, entry));
        if j != i {
            assert(r.sides[j].signal != side.signal);
        }
    }
    assert(entry2 is Some ==> is_taken(after.sides, entry2->0.shutdown_tx)) by {
        assert(is_taken(r.sides, r.sides[i].signal));
    }
    assert(apart(after.sides, after.store)) by {
        assert forall|u: Seq<char>| #[trigger] after.store.pending.contains_key(u) implies !is_taken(
            after.sides,
            after.store.pending[u],
        ) by {
            if r.store.pending.contains_key(u) {
                assert(!is_taken(r.sides, r.store.pending[u]));
            }
        }
    }
    if kept(r) {
        assert forall|j: int|
            0 <= j < after.sides.len() && (#[trigger] after.sides[j]).flow.stage
                == Stage::Live implies after.store.active_sessions.contains_key(r.guild_id)
            && after.sides[j].watchdog is Some && after.sides[j].watchdog->0.watch
            != Watch::Leaving by {
            let before = r.sides[j];
        }
    }
}

proof fn lemma_wake(r: Rivals, i: int, wake: WakeView)
    requires
        inv(r),
        may_come(r, Turn::Watchdog(i, wake)),
    ensures
        inv(after_turn(r, Turn::Watchdog(i, wake))),
        kept(r) && is_calm(r, Turn::Watchdog(i, wake)) ==> kept(
            after_turn(r, Turn::Watchdog(i, wake)),
        ),
{
    let turn = Turn::Watchdog(i, wake);
    let side = r.sides[i];
    let after = after_turn(r, turn);
    let entry = r.store.active_sessions.get(r.guild_id);
    let entry2 = after.store.active_sessions.get(r.guild_id);
    assert(sound(side, r.guild_id, entry));
    if side.watchdog is Some {
        let w = side.watchdog->0;
        let step = watchdog::watched(w, r.store, wake);
        lemma_signals_kept(r, turn);
        if step.actions.len() > 0 && w.watch == Watch::Watching {
            assert(step.actions[0] == SessionAction::ShutDownDevice);
        }
        if step.actions.len() > 0 && w.watch == Watch::Leaving {
            assert(step.actions[0] == SessionAction::DropSignal(entry->0.shutdown_tx));
        }
        assert forall|j: int| 0 <= j < after.sides.len() implies sound(
            #[trigger] after.sides[j],
            r.guild_id,
            entry2,
        ) by {
            assert(sound(r.sides[j], r.guild_id, entry));
            if j != i {
                assert(r.sides[j].signal != side.signal);
            }
        }
        assert(apart(after.sides, after.store)) by {
            assert forall|u: Seq<char>| #[trigger]
                after.store.pending.contains_key(u) implies !is_taken(
                after.sides,
                after.store.pending[u],
            ) by {
                assert(r.store.pending.contains_key(u));
            }
        }
        if kept(r) && is_calm(r, turn) {
            assert forall|j: int|
                0 <= j < after.sides.len() && (#[trigger] after.sides[j]).flow.stage
                    == Stage::Live implies after.store.active_sessions.contains_key(r.guild_id)
                && after.sides[j].watchdog is Some && after.sides[j].watchdog->0.watch
                != Watch::Leaving by {
                let before = r.sides[j];
            }
        }
    }
}

proof fn lemma_stop(r: Rivals)
    requires
        inv(r),
    ensures
        inv(after_turn(r, Turn::Stop)),
{
    let after = after_turn(r, Turn::Stop);
    let entry = r.store.active_sessions.get(r.guild_id);
    let entry2 = after.store.active_sessions.get(r.guild_id);
    lemma_signals_kept(r, Turn::Stop);
    assert forall|j: int| 0 <= j < after.sides.len() implies sound(
        #[trigger] after.sides[j],
        r.guild_id,
        entry2,
    ) by {
        assert(sound(r.sides[j], r.guild_id, entry));
    }
    assert(apart(after.sides, after.store)) by {
        assert forall|u: Seq<char>| #[trigger] after.store.pending.contains_key(u) implies !is_taken(
            after.sides,
            after.store.pending[u],
        ) by {
            assert(r.store.pending.contains_key(u));
        }
    }
}

proof fn lemma_turn(r: Rivals, turn: Turn)
    requires
        inv(r),
        may_come(r, turn),
    ensures
        inv(after_turn(r, turn)),
        kept(r) && is_calm(r, turn) ==> kept(after_turn(r, turn)),
{
    match turn {
        Turn::Enter(call, signal) => lemma_enter(r, call, signal),
        Turn::Flow(i, event) => lemma_flow(r, i, event),
        Turn::Watchdog(i, wake) => lemma_wake(r, i, wake),
        Turn::Stop => lemma_stop(r),
        Turn::Elsewhere(_) => {},
    }
}

proof fn lemma_turns(r: Rivals, turns: Seq<Turn>)
    requires
        inv(r),
        kept(r),
        may_all_come(r, turns),
    ensures
        inv(after_turns(r, turns)),
        after_turns(r, turns).guild_id == r.guild_id,
        are_calm(r, turns) ==> kept(after_turns(r, turns)),
    decreases turns.len(),
{
    if turns.len() > 0 {
        lemma_turns(r, turns.drop_last());
        lemma_turn(after_turns(r, turns.drop_last()), turns.last());
    }
}

/// One session per server: whatever starts are given in a server, and however their
/// events, failures, watchdogs and stops fall between each other, once all are at
/// rest, a device runs only for the session that is registered, and for that one it
/// does. So at most one session is left. Where none was stopped and somebody listened
/// throughout, one is left as soon as any start succeeded.
pub proof fn one_session_is_left(guild_id: u64, s: StoreView, turns: Seq<Turn>)
    requires
        !s.active_sessions.contains_key(guild_id),
        may_all_come(quiet(guild_id, s), turns),
        forall|i: int|
            0 <= i < after_turns(quiet(guild_id, s), turns).sides.len() ==> at_rest(
                #[trigger] after_turns(quiet(guild_id, s), turns).sides[i],
            ),
    ensures
        ({
            let end = after_turns(quiet(guild_id, s), turns);
            &&& forall|i: int|
                0 <= i < end.sides.len() ==> (#[trigger] end.sides[i]).device == runs(
                    end.sides[i],
                    end.store,
                )
            &&& forall|i: int, j: int|
                0 <= i < j < end.sides.len() ==> !((#[trigger] end.sides[i]).device && (
                #[trigger] end.sides[j]).device)
            &&& end.store.active_sessions.contains_key(guild_id) == exists|i: int|
                0 <= i < end.sides.len() && (#[trigger] end.sides[i]).device
            &&& are_calm(quiet(guild_id, s), turns) && (exists|i: int|
                0 <= i < end.sides.len() && (#[trigger] end.sides[i]).flow.stage == Stage::Live)
                ==> end.store.active_sessions.contains_key(guild_id)
        }),
{
    let start = quiet(guild_id, s);
    let end = after_turns(start, turns);
    let entry = end.store.active_sessions.get(guild_id);
    lemma_turns(start, turns);
    assert forall|i: int| 0 <= i < end.sides.len() implies (#[trigger] end.sides[i]).device == runs(
        end.sides[i],
        end.store,
    ) by {
        assert(sound(end.sides[i], guild_id, entry));
        assert(at_rest(end.sides[i]));
    }
    assert forall|i: int, j: int| 0 <= i < j < end.sides.len() implies !((
    #[trigger] end.sides[i]).device && (#[trigger] end.sides[j]).device) by {
        assert(sound(end.sides[i], guild_id, entry));
        assert(sound(end.sides[j], guild_id, entry));
    }
    if entry is Some {
        let i = choose|i: int|
            0 <= i < end.sides.len() && (#[trigger] end.sides[i]).signal == entry->0.shutdown_tx;
        assert(sound(end.sides[i], guild_id, entry));
        assert(at_rest(end.sides[i]));
        assert(end.sides[i].device);
    }
}

} // verus!
