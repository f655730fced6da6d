//! What every step of a start, a stop and a watchdog does, whoever is concerned.

use crate::bot::commands::start_spotify;
use crate::bot::commands::start_spotify::{Action, Event, Invocation, Stage, StartFlow};
use crate::bot::commands::stop_spotify;
use crate::bot::commands::stop_spotify::StopStep;
use crate::bot::commands::watchdog;
use crate::bot::commands::watchdog::{Presence, SessionAction, Wake, Watch, Watchdog};
use crate::store::session::ActiveSession;
use crate::store::{Store, StoreView};
use crate::text;
use vstd::prelude::*;

verus! {

/// Everybody in the channel listens but the bot itself, whether the id is smaller or
/// larger than the bot's. Nobody is in a server that is not known.
pub proof fn everybody_but_the_bot_listens(
    presences: Option<Vec<Presence>>,
    channel_id: u64,
    bot_id: u64,
    found: bool,
)
    requires
        call_ensures(watchdog::still_connected, (&presences, channel_id, bot_id), found),
    ensures
        presences is None ==> !found,
        presences matches Some(seen) ==> found == exists|i: int|
            0 <= i < seen@.len() && (#[trigger] seen@[i]).user_id != bot_id && seen@[i].channel_id
                == Some(channel_id),
{
}

/// A poll that finds a user other than the bot in the channel changes nothing.
pub proof fn listeners_keep_the_session(
    w: &mut Watchdog,
    s: &mut Store,
    seen: Vec<Presence>,
    bot_id: u64,
    i: int,
    actions: Vec<SessionAction>,
)
    requires
        old(w).watch is Watching,
        0 <= i < seen@.len(),
        seen@[i].channel_id == Some(old(w).channel_id),
        seen@[i].user_id != bot_id,
        call_ensures(
            Watchdog::step,
            (w, s, &(Wake::Poll { presences: Some(seen), bot_id })),
            actions,
        ),
    ensures
        actions@.len() == 0,
        *final(w) == *old(w),
        final(s)@ == old(s)@,
{
    let wake = Wake::Poll { presences: Some(seen), bot_id };
    assert(watchdog::has_listener(Some(seen@), old(w).channel_id, bot_id));
    assert(!watchdog::ends(wake@, old(w).channel_id));
}

/// Whether a wake is one on which a session in `channel_id` ends: it is to be shut down,
/// the server is not known, or nobody but the bot is in the channel.
pub open spec fn is_last(wake: Wake, channel_id: u64) -> bool {
    match wake {
        Wake::StopRequested => true,
        Wake::Poll { presences: None, .. } => true,
        Wake::Poll { presences: Some(seen), bot_id } => forall|i: int|
            0 <= i < seen@.len() && (#[trigger] seen@[i]).channel_id == Some(channel_id)
                ==> seen@[i].user_id == bot_id,
        Wake::LeftVoice => false,
    }
}

/// While a session runs, a wake ends it or changes nothing. At the end the device is
/// shut down, and the voice channel of the server is left unless another session is
/// registered there.
pub proof fn running_sessions_end(
    w: &mut Watchdog,
    s: &mut Store,
    wake: Wake,
    actions: Vec<SessionAction>,
)
    requires
        old(w).watch is Watching,
        call_ensures(Watchdog::step, (w, s, &wake), actions),
    ensures
        final(s)@ == old(s)@,
        final(w).guild_id == old(w).guild_id,
        final(w).channel_id == old(w).channel_id,
        final(w).signal == old(w).signal,
        !is_last(wake, old(w).channel_id) ==> actions@.len() == 0 && final(w).watch is Watching,
        is_last(wake, old(w).channel_id) ==> {
            let guild = old(w).guild_id;
            let other = old(s)@.active_sessions.contains_key(guild)
                && old(s)@.active_sessions[guild].shutdown_tx != old(w).signal;
            &&& actions@.len() > 0
            &&& actions@[0] == SessionAction::ShutDownDevice
            &&& other ==> actions@.len() == 1 && final(w).watch is Done
            &&& !other ==> {
                &&& actions@.len() == 2
                &&& actions@[1] == SessionAction::LeaveVoice(guild)
                &&& final(w).watch is Leaving
            }
        },
{
    match wake {
        Wake::Poll { presences: Some(seen), bot_id } => {
            if is_last(wake, old(w).channel_id) {
                assert(!watchdog::has_listener(Some(seen@), old(w).channel_id, bot_id));
            } else {
                let i = choose|i: int|
                    0 <= i < seen@.len() && (#[trigger] seen@[i]).channel_id == Some(
                        old(w).channel_id,
                    ) && seen@[i].user_id != bot_id;
                assert(watchdog::has_listener(Some(seen@), old(w).channel_id, bot_id)) by {
                    assert(seen@[i].channel_id == Some(old(w).channel_id));
                }
            }
        },
        _ => {},
    }
}

/// A session whose voice channel is being left waits for that. Then its entry, and no
/// other's, is removed and its signal dropped.
pub proof fn ended_sessions_are_forgotten(
    w: &mut Watchdog,
    s: &mut Store,
    wake: Wake,
    actions: Vec<SessionAction>,
)
    requires
        old(w).watch is Leaving,
        call_ensures(Watchdog::step, (w, s, &wake), actions),
    ensures
        final(w).guild_id == old(w).guild_id,
        final(w).signal == old(w).signal,
        !(wake is LeftVoice) ==> actions@.len() == 0 && *final(w) == *old(w) && final(s)@ == old(s)@,
        wake is LeftVoice ==> {
            let guild = old(w).guild_id;
            let sessions = old(s)@.active_sessions;
            let own = sessions.contains_key(guild) && sessions[guild].shutdown_tx == old(w).signal;
            &&& final(w).watch is Done
            &&& own ==> {
                &&& actions@.len() == 1
                &&& actions@[0] == SessionAction::DropSignal(old(w).signal)
                &&& !final(s)@.active_sessions.contains_key(guild)
            }
            &&& !own ==> actions@.len() == 0 && final(s)@.active_sessions.contains_key(guild)
                == sessions.contains_key(guild)
            &&& forall|g: u64|
                (g != guild || !own) && sessions.contains_key(g)
                    ==> #[trigger] final(s)@.active_sessions.contains_key(g)
                    && final(s)@.active_sessions[g] == sessions[g]
            &&& forall|g: u64| #[trigger]
                final(s)@.active_sessions.contains_key(g) ==> sessions.contains_key(g)
            &&& final(s)@ == (StoreView { active_sessions: final(s)@.active_sessions, ..old(s)@ })
        },
{
}

/// A watchdog that is done does nothing any more.
pub proof fn done_watchdogs_rest(
    w: &mut Watchdog,
    s: &mut Store,
    wake: Wake,
    actions: Vec<SessionAction>,
)
    requires
        old(w).watch is Done,
        call_ensures(Watchdog::step, (w, s, &wake), actions),
    ensures
        actions@.len() == 0,
        *final(w) == *old(w),
        final(s)@ == old(s)@,
{
}

/// A watchdog looks for listeners every five seconds, in the voice channel of its
/// session, and knows the session by its signal.
pub proof fn watchdogs_watch_their_session(guild_id: u64, session: ActiveSession, w: Watchdog)
    requires
        call_ensures(Watchdog::new, (guild_id, session), w),
    ensures
        w.guild_id == guild_id,
        w.channel_id == session.voice_channel_id,
        w.signal == session.shutdown_tx,
        w.watch is Watching,
        watchdog::POLL_SECS == 5,
{
}

/// `/stop-spotify` stops the session of the server that it is used in, and of no other:
/// it is signalled, its voice channel is left and its entry removed. Without a session,
/// or outside of a server, it only says so.
pub proof fn stops_end_the_session(s: &mut Store, guild_id: Option<u64>, step: StopStep)
    requires
        call_ensures(stop_spotify::run, (s, guild_id), step),
    ensures
        guild_id is None ==> {
            &&& final(s)@ == old(s)@
            &&& step.signal is None
            &&& step.leave is None
            &&& step.reply@ == "This command must be used inside a server."@
        },
        guild_id matches Some(guild) ==> {
            let sessions = old(s)@.active_sessions;
            &&& !final(s)@.active_sessions.contains_key(guild)
            &&& forall|g: u64|
                g != guild ==> #[trigger] final(s)@.active_sessions.contains_key(g)
                    == sessions.contains_key(g)
            &&& forall|g: u64|
                g != guild && sessions.contains_key(g)
                    ==> #[trigger] final(s)@.active_sessions[g] == sessions[g]
            &&& final(s)@ == (StoreView { active_sessions: final(s)@.active_sessions, ..old(s)@ })
            &&& sessions.contains_key(guild) ==> {
                &&& step.signal == Some(sessions[guild].shutdown_tx)
                &&& step.leave == Some(guild)
                &&& step.reply@ == "✅ Spotify session stopped."@
            }
            &&& !sessions.contains_key(guild) ==> {
                &&& step.signal is None
                &&& step.leave is None
                &&& step.reply@ == "There is no active Spotify session in this server."@
            }
        },
{
}

/// `/start-spotify` is refused outside of a server, to a user in no voice channel, and
/// where a session is active, in this order. Otherwise a start begins, for the server,
/// the channels and the user that the command was given with.
pub proof fn starts_are_accepted_or_refused(
    s: Store,
    call: Invocation,
    r: Result<StartFlow, String>,
)
    requires
        call_ensures(start_spotify::run, (&s, call), r),
    ensures
        call.guild_id is None ==> (r matches Err(message) && message@
            == "This command must be used inside a server."@),
        call.guild_id is Some && call.voice_channel_id is None ==> (r matches Err(message)
            && message@ == "You need to be in a voice channel first."@),
        call.guild_id is Some && call.voice_channel_id is Some ==> {
            &&& s@.active_sessions.contains_key(call.guild_id->0) ==> (r matches Err(message)
                && message@
                == "A Spotify session is already active in this server. Use `/stop-spotify` first."@)
            &&& !s@.active_sessions.contains_key(call.guild_id->0) ==> {
                &&& r is Ok
                &&& r->Ok_0.stage is Accepted
                &&& call.guild_id == Some(r->Ok_0.guild_id)
                &&& call.voice_channel_id == Some(r->Ok_0.voice_channel_id)
                &&& r->Ok_0.text_channel_id == call.text_channel_id
                &&& text::is_number(r->Ok_0.user@)
                &&& text::number_shown(r->Ok_0.user@) == call.user_id
            }
        },
{
    crate::store::laws::user_keys_show_the_id(call.user_id);
}

/// Whether two flows are of the same start.
pub open spec fn same_start(before: StartFlow, after: StartFlow) -> bool {
    &&& after.guild_id == before.guild_id
    &&& after.voice_channel_id == before.voice_channel_id
    &&& after.text_channel_id == before.text_channel_id
    &&& after.user@ == before.user@
}

/// No step changes what the start is for: the server, the channels and the user. Once
/// known, the access token, the Spotify name and the device name stay too, and voice
/// time and the bot's name are never touched.
pub proof fn starts_stay_what_they_are(
    f: &mut StartFlow,
    s: &mut Store,
    event: Event,
    actions: Vec<Action>,
)
    requires
        call_ensures(StartFlow::step, (f, s, event), actions),
    ensures
        same_start(*old(f), *final(f)),
        !(event is Tokens) || !(old(f).stage is AwaitingTokens) ==> final(f).access_token@ == old(
            f).access_token@,
        !(event is UserNamed) || !(old(f).stage is AwaitingName) ==> final(f).spotify_name@ == old(
            f).spotify_name@,
        !(event is Greeted) || !(old(f).stage is Greeting) ==> final(f).device_name@ == old(
            f).device_name@,
        final(s)@.voice_sessions == old(s)@.voice_sessions,
        final(s)@.voice_rank == old(s)@.voice_rank,
        final(s)@.bot_name == old(s)@.bot_name,
        final(s)@.rank_file == old(s)@.rank_file,
        !(event is LinkSent) && !(event is AuthCancelled) && !(event is AuthTimedOut)
            ==> final(s)@.pending == old(s)@.pending,
        !(event is Announced) ==> final(s)@.active_sessions == old(s)@.active_sessions,
{
    assert(final(f)@ == start_spotify::stepped(old(f)@, old(s)@, event@).flow);
}

proof fn lemma_actions(
    f: &mut StartFlow,
    s: &mut Store,
    event: Event,
    actions: Vec<Action>,
    i: int,
)
    requires
        call_ensures(StartFlow::step, (f, s, event), actions),
        0 <= i,
    ensures
        ({
            let expected = start_spotify::stepped(old(f)@, old(s)@, event@).actions;
            &&& actions@.len() == expected.len()
            &&& i < actions@.len() ==> actions@[i]@ == expected[i]
        }),
{
    let views = start_spotify::action_views(actions@);
    assert(views == start_spotify::stepped(old(f)@, old(s)@, event@).actions);
    if i < actions@.len() {
        assert(views[i] == actions@[i]@);
    }
}

/// The authorization link is sent to the user as it was built.
pub proof fn links_are_offered(f: &mut StartFlow, s: &mut Store, url: String, actions: Vec<Action>)
    requires
        old(f).stage is Accepted,
        call_ensures(StartFlow::step, (f, s, Event::LinkBuilt(url)), actions),
    ensures
        final(f).stage is LinkOffered,
        final(s)@ == old(s)@,
        actions@.len() == 1,
        actions@[0] matches Action::Reply(message) && message@
            == "**Connect your Spotify account:**\n[Click here to authorize]("@ + url@
            + ")\n\n_This link expires in 5 minutes._"@,
{
    lemma_actions(f, s, Event::LinkBuilt(url), actions, 0);
}

/// Once the link was sent, the tokens of the user are awaited for five minutes under the
/// new signal, in place of one that waited before, which is dropped.
pub proof fn tokens_are_awaited(f: &mut StartFlow, s: &mut Store, tx: u64, actions: Vec<Action>)
    requires
        old(f).stage is LinkOffered,
        call_ensures(StartFlow::step, (f, s, Event::LinkSent(tx)), actions),
    ensures
        final(f).stage is AwaitingTokens,
        final(s)@ == (StoreView { pending: old(s)@.pending.insert(old(f).user@, tx), ..old(s)@ }),
        actions@.len() > 0,
        actions@.last() == Action::AwaitTokens(300),
        old(s)@.pending.contains_key(old(f).user@) ==> actions@.len() == 2 && actions@[0]
            == Action::DropSignal(old(s)@.pending[old(f).user@]),
        !old(s)@.pending.contains_key(old(f).user@) ==> actions@.len() == 1,
{
    lemma_actions(f, s, Event::LinkSent(tx), actions, 0);
    lemma_actions(f, s, Event::LinkSent(tx), actions, 1);
}

/// The user is looked up with the access token that came, and with no other.
pub proof fn users_are_looked_up(
    f: &mut StartFlow,
    s: &mut Store,
    tokens: crate::store::session::SpotifyTokens,
    actions: Vec<Action>,
)
    requires
        old(f).stage is AwaitingTokens,
        call_ensures(StartFlow::step, (f, s, Event::Tokens(tokens)), actions),
    ensures
        final(f).stage is AwaitingName,
        final(f).access_token@ == tokens.access_token@,
        final(s)@ == old(s)@,
        actions@.len() == 1,
        actions@[0] matches Action::LookUpUser(token) && token@ == tokens.access_token@,
{
    lemma_actions(f, s, Event::Tokens(tokens), actions, 0);
}

/// An authorization that was cancelled or came too late ends the start: nothing waits
/// for the user's tokens any more, the signal that did is dropped, and the user is told
/// which of the two it was.
pub proof fn failed_authorizations_end_the_start(
    f: &mut StartFlow,
    s: &mut Store,
    event: Event,
    actions: Vec<Action>,
)
    requires
        old(f).stage is AwaitingTokens,
        event is AuthCancelled || event is AuthTimedOut,
        call_ensures(StartFlow::step, (f, s, event), actions),
    ensures
        final(f).stage is Ended,
        final(s)@ == (StoreView { pending: old(s)@.pending.remove(old(f).user@), ..old(s)@ }),
        actions@.len() > 0,
        event is AuthCancelled ==> (actions@.last() matches Action::FollowUp(message) && message@
            == "❌ Authorization was cancelled."@),
        event is AuthTimedOut ==> (actions@.last() matches Action::FollowUp(message) && message@
            == "❌ Authorization timed out. Please run the command again."@),
        old(s)@.pending.contains_key(old(f).user@) ==> actions@.len() == 2 && actions@[0]
            == Action::DropSignal(old(s)@.pending[old(f).user@]),
        !old(s)@.pending.contains_key(old(f).user@) ==> actions@.len() == 1,
{
    lemma_actions(f, s, event, actions, 0);
    lemma_actions(f, s, event, actions, 1);
}

/// The user is greeted by the Spotify name, or as unknown.
pub proof fn users_are_greeted(
    f: &mut StartFlow,
    s: &mut Store,
    found: Option<String>,
    actions: Vec<Action>,
)
    requires
        old(f).stage is AwaitingName,
        call_ensures(StartFlow::step, (f, s, Event::UserNamed(found)), actions),
    ensures
        final(f).stage is Greeting,
        final(f).spotify_name@ == match found {
            Some(name) => name@,
            None => "Unknown"@,
        },
        final(s)@ == old(s)@,
        actions@.len() == 1,
        actions@[0] matches Action::Greet(message) && message@ == "✅ Connected as **"@ + final(
            f).spotify_name@ + "**. Joining your voice channel…"@,
{
    lemma_actions(f, s, Event::UserNamed(found), actions, 0);
}

/// The device is called as the bot is by then, and created with the user's token.
pub proof fn devices_are_created(f: &mut StartFlow, s: &mut Store, actions: Vec<Action>)
    requires
        old(f).stage is Greeting,
        call_ensures(StartFlow::step, (f, s, Event::Greeted), actions),
    ensures
        final(f).stage is AwaitingDevice,
        final(f).device_name@ == old(s)@.bot_name,
        final(s)@ == old(s)@,
        actions@.len() == 1,
        actions@[0] matches Action::CreateDevice { name, access_token } && name@ == old(
            s)@.bot_name && access_token@ == old(f).access_token@,
{
    lemma_actions(f, s, Event::Greeted, actions, 0);
}

/// With a device, the voice channel that the user was in is joined. Without one, the
/// start ends, and the user is told why.
pub proof fn devices_join_the_voice_channel(
    f: &mut StartFlow,
    s: &mut Store,
    event: Event,
    actions: Vec<Action>,
)
    requires
        old(f).stage is AwaitingDevice,
        event is DeviceReady || event is DeviceFailed,
        call_ensures(StartFlow::step, (f, s, event), actions),
    ensures
        final(s)@ == old(s)@,
        actions@.len() == 1,
        event is DeviceReady ==> final(f).stage is AwaitingVoice && (actions@[0] matches
            Action::JoinVoice { guild_id, channel_id } && guild_id == old(f).guild_id && channel_id
            == old(f).voice_channel_id),
        event matches Event::DeviceFailed(reason) ==> final(f).stage is Ended && (actions@[0]
            matches Action::FollowUp(message) && message@ == "❌ Spotify Connect error: "@
            + reason@),
{
    lemma_actions(f, s, event, actions, 0);
}

/// In the voice channel, the audio is played as it comes, in stereo at 44.1 kHz, and the
/// user is told what to select. Where it was not joined, the user is told why, the
/// device is shut down and the start ends.
pub proof fn audio_plays_in_the_voice_channel(
    f: &mut StartFlow,
    s: &mut Store,
    event: Event,
    actions: Vec<Action>,
)
    requires
        old(f).stage is AwaitingVoice,
        event is VoiceJoined || event is VoiceMissing || event is VoiceFailed,
        call_ensures(StartFlow::step, (f, s, event), actions),
    ensures
        final(s)@ == old(s)@,
        actions@.len() == 2,
        event is VoiceJoined ==> {
            &&& final(f).stage is Streaming
            &&& actions@[0] == (Action::Play { sample_rate: 44_100, channels: 2 })
            &&& actions@[1] matches Action::Announce(message) && message@ == "✅ Connected as **"@
                + old(f).spotify_name@ + "**. Select **"@ + old(f).device_name@
                + "** in Spotify — I'll stream audio here!\nHit **Start a Jam** in Spotify and I'll post the invite link."@
        },
        !(event is VoiceJoined) ==> final(f).stage is Ended && actions@[1]
            == Action::ShutDownDevice,
        event is VoiceMissing ==> (actions@[0] matches Action::FollowUp(message) && message@
            == "❌ Internal error: voice system not ready."@),
        event matches Event::VoiceFailed(reason) ==> (actions@[0] matches Action::FollowUp(message)
            && message@ == "❌ Could not join voice channel: "@ + reason@),
{
    lemma_actions(f, s, event, actions, 0);
    lemma_actions(f, s, event, actions, 1);
}

/// The session is registered in the server of the start, with its channels and its
/// signal, in place of one that was, whose signal is dropped. It is watched from then
/// on.
pub proof fn sessions_are_registered(
    f: &mut StartFlow,
    s: &mut Store,
    tx: u64,
    actions: Vec<Action>,
)
    requires
        old(f).stage is Streaming,
        call_ensures(StartFlow::step, (f, s, Event::Announced(tx)), actions),
    ensures
        final(f).stage is Live,
        final(s)@ == (StoreView {
            active_sessions: old(s)@.active_sessions.insert(
                old(f).guild_id,
                ActiveSession {
                    text_channel_id: old(f).text_channel_id,
                    voice_channel_id: old(f).voice_channel_id,
                    shutdown_tx: tx,
                },
            ),
            ..old(s)@
        }),
        actions@.len() > 0,
        actions@.last() matches Action::Attend(w) && w.guild_id == old(f).guild_id && w.channel_id
            == old(f).voice_channel_id && w.signal == tx && w.watch is Watching,
        old(s)@.active_sessions.contains_key(old(f).guild_id) ==> actions@.len() == 2 && actions@[0]
            == Action::DropSignal(old(s)@.active_sessions[old(f).guild_id].shutdown_tx),
        !old(s)@.active_sessions.contains_key(old(f).guild_id) ==> actions@.len() == 1,
{
    lemma_actions(f, s, Event::Announced(tx), actions, 0);
    lemma_actions(f, s, Event::Announced(tx), actions, 1);
}

/// Whether a start at `stage` waits for `event`.
pub open spec fn is_awaited(stage: Stage, event: Event) -> bool {
    match event {
        Event::LinkBuilt(_) => stage is Accepted,
        Event::LinkSent(_) => stage is LinkOffered,
        Event::Tokens(_) | Event::AuthCancelled | Event::AuthTimedOut => stage is AwaitingTokens,
        Event::UserNamed(_) => stage is AwaitingName,
        Event::Greeted => stage is Greeting,
        Event::DeviceReady | Event::DeviceFailed(_) => stage is AwaitingDevice,
        Event::VoiceMissing | Event::VoiceJoined | Event::VoiceFailed(_) => stage is AwaitingVoice,
        Event::Announced(_) => stage is Streaming,
    }
}

/// An event that a start does not wait for changes nothing and calls for nothing.
pub proof fn other_events_do_nothing(
    f: &mut StartFlow,
    s: &mut Store,
    event: Event,
    actions: Vec<Action>,
)
    requires
        !is_awaited(old(f).stage, event),
        call_ensures(StartFlow::step, (f, s, event), actions),
    ensures
        actions@.len() == 0,
        final(f).stage == old(f).stage,
        final(f)@ == old(f)@,
        final(s)@ == old(s)@,
{
    lemma_actions(f, s, event, actions, 0);
    assert(final(f)@ == start_spotify::stepped(old(f)@, old(s)@, event@).flow);
}

/// The authorization is awaited for five minutes.
pub proof fn authorizations_have_five_minutes()
    ensures
        start_spotify::AUTH_TIMEOUT_SECS == 5 * 60,
        start_spotify::SAMPLE_RATE == 44_100,
        start_spotify::CHANNELS == 2,
{
}

} // verus!
