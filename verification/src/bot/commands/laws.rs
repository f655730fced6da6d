//! What holds of sessions over several commands and events.

use crate::bot::commands::start_spotify;
use crate::bot::commands::start_spotify::{
    ActionView, EventView, FlowView, Invocation, Stage, StepView,
};
use crate::bot::commands::stop_spotify;
use crate::bot::commands::watchdog;
use crate::bot::commands::watchdog::{SessionAction, WakeView, Watch, WatchStep, Watchdog};
use crate::store::StoreView;
use vstd::prelude::*;

verus! {

/// A flow and the store after `events`, with all actions that they called for.
pub open spec fn after_events(f: FlowView, s: StoreView, events: Seq<EventView>) -> StepView
    decreases events.len(),
{
    if events.len() == 0 {
        StepView { flow: f, store: s, actions: Seq::empty() }
    } else {
        let before = after_events(f, s, events.drop_last());
        let step = start_spotify::stepped(before.flow, before.store, events.last());
        StepView { actions: before.actions + step.actions, ..step }
    }
}

/// The events of a start without failures.
pub open spec fn smooth_start(
    url: Seq<char>,
    waiting: u64,
    token: Seq<char>,
    name: Option<Seq<char>>,
    shutdown: u64,
) -> Seq<EventView> {
    seq![
        EventView::LinkBuilt(url),
        EventView::LinkSent(waiting),
        EventView::Tokens(token),
        EventView::UserNamed(name),
        EventView::Greeted,
        EventView::DeviceReady,
        EventView::VoiceJoined,
        EventView::Announced(shutdown),
    ]
}

/// How far a stage is.
pub open spec fn progress(stage: Stage) -> int {
    match stage {
        Stage::Accepted => 0,
        Stage::LinkOffered => 1,
        Stage::AwaitingTokens => 2,
        Stage::AwaitingName => 3,
        Stage::Greeting => 4,
        Stage::AwaitingDevice => 5,
        Stage::AwaitingVoice => 6,
        Stage::Streaming => 7,
        Stage::Live => 8,
        Stage::Ended => 8,
    }
}

/// Whether a device exists at a stage, and no session is registered for it yet.
pub open spec fn has_device(stage: Stage) -> bool {
    stage == Stage::AwaitingVoice || stage == Stage::Streaming
}

proof fn lemma_one_more(f: FlowView, s: StoreView, events: Seq<EventView>, n: int)
    requires
        0 <= n < events.len(),
    ensures
        ({
            let before = after_events(f, s, events.take(n));
            let step = start_spotify::stepped(before.flow, before.store, events[n]);
            after_events(f, s, events.take(n + 1)) == (StepView {
                actions: before.actions + step.actions,
                ..step
            })
        }),
{
    assert(events.take(n + 1).drop_last() =~= events.take(n));
    assert(events.take(n + 1).last() == events[n]);
}

/// A start without failures ends with a registered session: in the server and the
/// channels that the command was given with, and with the signal to stop it. It is
/// watched from then on.
pub proof fn a_smooth_start_goes_live(
    s: StoreView,
    call: Invocation,
    url: Seq<char>,
    waiting: u64,
    token: Seq<char>,
    name: Option<Seq<char>>,
    shutdown: u64,
)
    requires
        start_spotify::refusal(s, call) is None,
    ensures
        ({
            let end = after_events(
                start_spotify::accepted(call),
                s,
                smooth_start(url, waiting, token, name, shutdown),
            );
            &&& end.flow.stage == Stage::Live
            &&& end.store.active_sessions == s.active_sessions.insert(
                call.guild_id->0,
                start_spotify::session_of(start_spotify::accepted(call), shutdown),
            )
            &&& end.actions.contains(
                ActionView::JoinVoice {
                    guild_id: call.guild_id->0,
                    channel_id: call.voice_channel_id->0,
                },
            )
            &&& end.actions.last() == ActionView::Attend(
                watchdog::watchdog_of(
                    call.guild_id->0,
                    start_spotify::session_of(start_spotify::accepted(call), shutdown),
                ),
            )
            &&& !end.actions.contains(ActionView::ShutDownDevice)
        }),
{
    let f = start_spotify::accepted(call);
    let events = smooth_start(url, waiting, token, name, shutdown);
    assert(events.take(0) =~= Seq::<EventView>::empty());
    assert(events.take(8) =~= events);
    lemma_one_more(f, s, events, 0);
    lemma_one_more(f, s, events, 1);
    lemma_one_more(f, s, events, 2);
    lemma_one_more(f, s, events, 3);
    lemma_one_more(f, s, events, 4);
    lemma_one_more(f, s, events, 5);
    let joining = after_events(f, s, events.take(6)).actions;
    let join = ActionView::JoinVoice {
        guild_id: call.guild_id->0,
        channel_id: call.voice_channel_id->0,
    };
    assert(joining.last() == join);
    lemma_one_more(f, s, events, 6);
    lemma_one_more(f, s, events, 7);
    let end = after_events(f, s, events);
    assert(end.actions[joining.len() - 1] == join);
}

/// Every event that a flow takes up moves it forward, and one that it does not take
/// up changes nothing: a flow takes up at most eight events.
pub proof fn flows_move_forward(f: FlowView, s: StoreView, event: EventView)
    ensures
        ({
            let step = start_spotify::stepped(f, s, event);
            ||| progress(step.flow.stage) > progress(f.stage)
            ||| step == (StepView { flow: f, store: s, actions: Seq::empty() })
        }),
{
}

/// A flow that failed or went live takes up no more events.
pub proof fn finished_flows_rest(f: FlowView, s: StoreView, event: EventView)
    requires
        f.stage == Stage::Live || f.stage == Stage::Ended,
    ensures
        start_spotify::stepped(f, s, event) == (StepView {
            flow: f,
            store: s,
            actions: Seq::empty(),
        }),
{
}

/// A failed start leaves no device behind.
pub proof fn failed_starts_shut_the_device_down(f: FlowView, s: StoreView, event: EventView)
    requires
        has_device(f.stage),
        start_spotify::stepped(f, s, event).flow.stage == Stage::Ended,
    ensures
        start_spotify::stepped(f, s, event).actions.contains(ActionView::ShutDownDevice),
{
    let actions = start_spotify::stepped(f, s, event).actions;
    assert(actions[1] == ActionView::ShutDownDevice);
}

/// Once the authorization failed, nothing waits for the user's tokens, and the
/// signal that did is dropped.
pub proof fn failed_authorizations_stop_waiting(f: FlowView, s: StoreView, event: EventView)
    requires
        f.stage == Stage::AwaitingTokens,
        event is AuthCancelled || event is AuthTimedOut,
    ensures
        start_spotify::stepped(f, s, event).flow.stage == Stage::Ended,
        !start_spotify::stepped(f, s, event).store.pending.contains_key(f.user),
        s.pending.contains_key(f.user) ==> start_spotify::stepped(f, s, event).actions.contains(
            ActionView::DropSignal(s.pending[f.user]),
        ),
{
    let actions = start_spotify::stepped(f, s, event).actions;
    if s.pending.contains_key(f.user) {
        assert(actions[0] == ActionView::DropSignal(s.pending[f.user]));
    }
}

/// A flow registers a session only as it goes live, and only for its own server; it
/// never touches voice time or the bot's name.
pub proof fn flows_touch_only_their_own(f: FlowView, s: StoreView, event: EventView, guild: u64)
    ensures
        ({
            let step = start_spotify::stepped(f, s, event);
            &&& step.flow.stage != Stage::Live || f.stage == Stage::Live
                ==> step.store.active_sessions == s.active_sessions
            &&& guild != f.guild_id ==> step.store.active_sessions.get(guild)
                == s.active_sessions.get(guild)
            &&& step.store.voice_sessions == s.voice_sessions
            &&& step.store.voice_rank == s.voice_rank
            &&& step.store.bot_name == s.bot_name
            &&& step.store.rank_file == s.rank_file
        }),
{
}

/// One session per server: while one is live, starting another is refused.
pub proof fn a_live_session_refuses_another(
    f: FlowView,
    s: StoreView,
    shutdown: u64,
    call: Invocation,
)
    requires
        f.stage == Stage::Streaming,
        call.guild_id == Some(f.guild_id),
        call.voice_channel_id is Some,
    ensures
        start_spotify::refusal(
            start_spotify::stepped(f, s, EventView::Announced(shutdown)).store,
            call,
        ) == Some(
            "A Spotify session is already active in this server. Use `/stop-spotify` first."@,
        ),
{
}

/// Stopping undoes starting: it signals the session that was started, leaves the
/// voice channel, and a session can be started again.
pub proof fn stopping_undoes_starting(
    f: FlowView,
    s: StoreView,
    shutdown: u64,
    call: Invocation,
)
    requires
        f.stage == Stage::Streaming,
        call.guild_id == Some(f.guild_id),
        call.voice_channel_id is Some,
    ensures
        ({
            let live = start_spotify::stepped(f, s, EventView::Announced(shutdown)).store;
            let step = stop_spotify::stop_step(live, Some(f.guild_id));
            let after = stop_spotify::stopped(live, Some(f.guild_id));
            &&& step.signal == Some(shutdown)
            &&& step.leave == Some(f.guild_id)
            &&& start_spotify::refusal(after, call) is None
            &&& !s.active_sessions.contains_key(f.guild_id) ==> after == s
        }),
{
    let live = start_spotify::stepped(f, s, EventView::Announced(shutdown)).store;
    let after = stop_spotify::stopped(live, Some(f.guild_id));
    if !s.active_sessions.contains_key(f.guild_id) {
        assert(after.active_sessions =~= s.active_sessions);
    }
}

/// A session is stopped once: a second stop finds none and changes nothing.
pub proof fn stopping_twice_finds_nothing(s: StoreView, guild_id: u64)
    ensures
        ({
            let after = stop_spotify::stopped(s, Some(guild_id));
            &&& stop_spotify::stop_step(after, Some(guild_id)).signal is None
            &&& stop_spotify::stop_step(after, Some(guild_id)).leave is None
            &&& stop_spotify::stop_step(after, Some(guild_id)).reply
                == "There is no active Spotify session in this server."@
            &&& stop_spotify::stopped(after, Some(guild_id)) == after
        }),
{
    let after = stop_spotify::stopped(s, Some(guild_id));
    assert(after.active_sessions.remove(guild_id) =~= after.active_sessions);
}

/// A watchdog and the store after `wakes`, with all actions that they called for.
pub open spec fn after_wakes(w: Watchdog, s: StoreView, wakes: Seq<WakeView>) -> WatchStep
    decreases wakes.len(),
{
    if wakes.len() == 0 {
        watchdog::idle(w, s)
    } else {
        let before = after_wakes(w, s, wakes.drop_last());
        let step = watchdog::watched(before.watchdog, before.store, wakes.last());
        WatchStep { actions: before.actions + step.actions, ..step }
    }
}

/// Whether a session in `channel_id` outlasts `wakes`: no shutdown is requested, and
/// somebody listens at every poll.
pub open spec fn calm(wakes: Seq<WakeView>, channel_id: u64) -> bool {
    forall|i: int| 0 <= i < wakes.len() ==> !watchdog::ends(#[trigger] wakes[i], channel_id)
}

proof fn lemma_wakes(w: Watchdog, s: StoreView, wakes: Seq<WakeView>)
    requires
        w.watch == Watch::Watching,
        !watchdog::superseded(w, s),
        forall|i: int| 0 <= i < wakes.len() ==> !((#[trigger] wakes[i]) is LeftVoice),
    ensures
        after_wakes(w, s, wakes) == if calm(wakes, w.channel_id) {
            watchdog::idle(w, s)
        } else {
            watchdog::winding_up(w, s)
        },
    decreases wakes.len(),
{
    if wakes.len() > 0 {
        let front = wakes.drop_last();
        assert forall|i: int| 0 <= i < front.len() implies !((#[trigger] front[i]) is LeftVoice) by {
            assert(front[i] == wakes[i]);
        }
        lemma_wakes(w, s, front);
        let last = wakes[wakes.len() - 1];
        assert(!(last is LeftVoice));
        if calm(wakes, w.channel_id) {
            assert forall|i: int| 0 <= i < front.len() implies !watchdog::ends(
                #[trigger] front[i],
                w.channel_id,
            ) by {
                assert(front[i] == wakes[i]);
            }
        } else if calm(front, w.channel_id) {
            let i = choose|i: int|
                0 <= i < wakes.len() && watchdog::ends(#[trigger] wakes[i], w.channel_id);
            if i < front.len() {
                assert(front[i] == wakes[i]);
            }
        }
        let before = after_wakes(w, s, front);
        let step = watchdog::watched(before.watchdog, before.store, wakes.last());
        assert(before.actions + step.actions =~= after_wakes(w, s, wakes).actions);
        assert(after_wakes(w, s, wakes) =~= if calm(wakes, w.channel_id) {
            watchdog::idle(w, s)
        } else {
            watchdog::winding_up(w, s)
        });
    }
}

/// A session that was started stays registered, with its device and in its voice
/// channel, for as long as no shutdown is requested and somebody listens at every
/// poll.
pub proof fn watched_sessions_stay(
    f: FlowView,
    s: StoreView,
    shutdown: u64,
    wakes: Seq<WakeView>,
)
    requires
        f.stage == Stage::Streaming,
        calm(wakes, f.voice_channel_id),
        forall|i: int| 0 <= i < wakes.len() ==> !((#[trigger] wakes[i]) is LeftVoice),
    ensures
        ({
            let session = start_spotify::session_of(f, shutdown);
            let live = start_spotify::stepped(f, s, EventView::Announced(shutdown)).store;
            let seen = after_wakes(watchdog::watchdog_of(f.guild_id, session), live, wakes);
            &&& seen.store == live
            &&& seen.store.active_sessions.contains_key(f.guild_id)
            &&& seen.store.active_sessions[f.guild_id] == session
            &&& seen.watchdog.watch == Watch::Watching
            &&& seen.actions == Seq::<SessionAction>::empty()
        }),
{
    let session = start_spotify::session_of(f, shutdown);
    let live = start_spotify::stepped(f, s, EventView::Announced(shutdown)).store;
    lemma_wakes(watchdog::watchdog_of(f.guild_id, session), live, wakes);
}

/// A session that was started ends as soon as a shutdown is requested, its signal is
/// dropped or a poll finds nobody listening: the device is shut down and the voice
/// channel of the server is left, each once. When that is done, at `later`, the
/// session is no longer registered, and nothing else is touched: neither another part
/// of the store, nor a session that another start registered meanwhile.
pub proof fn watched_sessions_end(
    f: FlowView,
    s: StoreView,
    shutdown: u64,
    wakes: Seq<WakeView>,
    later: StoreView,
)
    requires
        f.stage == Stage::Streaming,
        !calm(wakes, f.voice_channel_id),
        forall|i: int| 0 <= i < wakes.len() ==> !((#[trigger] wakes[i]) is LeftVoice),
    ensures
        ({
            let w = watchdog::watchdog_of(f.guild_id, start_spotify::session_of(f, shutdown));
            let live = start_spotify::stepped(f, s, EventView::Announced(shutdown)).store;
            let seen = after_wakes(w, live, wakes);
            let end = watchdog::watched(seen.watchdog, later, WakeView::LeftVoice);
            &&& seen.store == live
            &&& seen.actions == seq![
                SessionAction::ShutDownDevice,
                SessionAction::LeaveVoice(f.guild_id),
            ]
            &&& end.watchdog.watch == Watch::Done
            &&& end.store == (StoreView {
                active_sessions: if watchdog::superseded(w, later) {
                    later.active_sessions
                } else {
                    later.active_sessions.remove(f.guild_id)
                },
                ..later
            })
            &&& end.store.active_sessions.contains_key(f.guild_id)
                ==> end.store.active_sessions[f.guild_id].shutdown_tx != shutdown
            &&& later.active_sessions.contains_key(f.guild_id)
                && later.active_sessions[f.guild_id].shutdown_tx == shutdown
                ==> end.actions.contains(SessionAction::DropSignal(shutdown))
        }),
{
    let w = watchdog::watchdog_of(f.guild_id, start_spotify::session_of(f, shutdown));
    let live = start_spotify::stepped(f, s, EventView::Announced(shutdown)).store;
    lemma_wakes(w, live, wakes);
    let end = watchdog::watched(
        after_wakes(w, live, wakes).watchdog,
        later,
        WakeView::LeftVoice,
    );
    if later.active_sessions.contains_key(f.guild_id)
        && later.active_sessions[f.guild_id].shutdown_tx == shutdown {
        assert(end.actions[0] == SessionAction::DropSignal(shutdown));
    }
}

/// A watchdog never ends the session of another start: it neither removes its entry,
/// in whatever server, nor leaves its voice channel.
pub proof fn watchdogs_spare_others(w: Watchdog, s: StoreView, wake: WakeView, guild: u64)
    requires
        guild != w.guild_id || watchdog::superseded(w, s),
    ensures
        watchdog::watched(w, s, wake).store.active_sessions.get(guild) == s.active_sessions.get(
            guild,
        ),
        !watchdog::watched(w, s, wake).actions.contains(SessionAction::LeaveVoice(guild)),
{
}

} // verus!
