//! `/start-spotify`: from the command to a running session.
//!
//! Sending messages, waiting for the authorization and talking to Spotify and to
//! the voice gateway happen outside. Here it is decided what is done next: each
//! event that is reported back moves the flow one step on and calls for actions.

use crate::bot::commands::watchdog;
use crate::bot::commands::watchdog::Watchdog;
use crate::store;
use crate::store::session::{ActiveSession, SpotifyTokens};
use crate::store::{Store, StoreView};
use crate::text;
use vstd::prelude::*;

verus! {

/// How long the authorization link stays valid.
pub const AUTH_TIMEOUT_SECS: u64 = 300;

/// The sample rate of the audio that is played.
pub const SAMPLE_RATE: u32 = 44_100;

/// The number of interleaved audio channels.
pub const CHANNELS: u32 = 2;

/// What the command was given with.
#[derive(Debug, Clone, Copy, PartialEq, Eq, Structural)]
pub struct Invocation {
    /// The server, if the command was given in one.
    pub guild_id: Option<u64>,
    /// The voice channel that the user is in.
    pub voice_channel_id: Option<u64>,
    /// The channel that the command was given in.
    pub text_channel_id: u64,
    pub user_id: u64,
}

/// How far a flow has come.
#[derive(Debug, Clone, Copy, PartialEq, Eq, Structural)]
pub enum Stage {
    /// The authorization link is to be built.
    Accepted,
    /// The link is on its way to the user.
    LinkOffered,
    /// The user is to authorize.
    AwaitingTokens,
    /// The Spotify display name is looked up.
    AwaitingName,
    /// The user is being told that the account is connected.
    Greeting,
    /// The Spotify Connect device is created.
    AwaitingDevice,
    /// The voice channel is joined.
    AwaitingVoice,
    /// Audio plays; the user is being told.
    Streaming,
    /// The session is registered.
    Live,
    /// The flow failed.
    Ended,
}

/// The state of one `/start-spotify`.
#[derive(Debug)]
pub struct StartFlow {
    pub guild_id: u64,
    pub voice_channel_id: u64,
    pub text_channel_id: u64,
    /// The decimal id of the user.
    pub user: String,
    pub stage: Stage,
    pub access_token: String,
    pub spotify_name: String,
    pub device_name: String,
}

/// What a flow holds.
#[verifier::ext_equal]
pub struct FlowView {
    pub guild_id: u64,
    pub voice_channel_id: u64,
    pub text_channel_id: u64,
    pub user: Seq<char>,
    pub stage: Stage,
    pub access_token: Seq<char>,
    pub spotify_name: Seq<char>,
    pub device_name: Seq<char>,
}

impl View for StartFlow {
    type V = FlowView;

    open spec fn view(&self) -> FlowView {
        FlowView {
            guild_id: self.guild_id,
            voice_channel_id: self.voice_channel_id,
            text_channel_id: self.text_channel_id,
            user: self.user@,
            stage: self.stage,
            access_token: self.access_token@,
            spotify_name: self.spotify_name@,
            device_name: self.device_name@,
        }
    }
}

/// What happened outside.
#[derive(Debug)]
pub enum Event {
    /// The authorization link was built.
    LinkBuilt(String),
    /// The link was sent; tokens will come under the signal of this number.
    LinkSent(u64),
    /// The user authorized.
    Tokens(SpotifyTokens),
    /// The signal was dropped without tokens.
    AuthCancelled,
    /// No tokens came in time.
    AuthTimedOut,
    /// The Spotify display name, if it could be found out.
    UserNamed(Option<String>),
    /// The user was told that the account is connected.
    Greeted,
    DeviceReady,
    /// The device could not be created; with the reason.
    DeviceFailed(String),
    /// The voice system is not there.
    VoiceMissing,
    VoiceJoined,
    /// The voice channel could not be joined; with the reason.
    VoiceFailed(String),
    /// The user was told that audio plays; the session is stopped by the signal of
    /// this number.
    Announced(u64),
}

/// What an event says.
#[verifier::ext_equal]
pub enum EventView {
    LinkBuilt(Seq<char>),
    LinkSent(u64),
    Tokens(Seq<char>),
    AuthCancelled,
    AuthTimedOut,
    UserNamed(Option<Seq<char>>),
    Greeted,
    DeviceReady,
    DeviceFailed(Seq<char>),
    VoiceMissing,
    VoiceJoined,
    VoiceFailed(Seq<char>),
    Announced(u64),
}

impl View for Event {
    type V = EventView;

    open spec fn view(&self) -> EventView {
        match self {
            Event::LinkBuilt(url) => EventView::LinkBuilt(url@),
            Event::LinkSent(tx) => EventView::LinkSent(*tx),
            Event::Tokens(tokens) => EventView::Tokens(tokens.access_token@),
            Event::AuthCancelled => EventView::AuthCancelled,
            Event::AuthTimedOut => EventView::AuthTimedOut,
            Event::UserNamed(name) => EventView::UserNamed(text::text_of(*name)),
            Event::Greeted => EventView::Greeted,
            Event::DeviceReady => EventView::DeviceReady,
            Event::DeviceFailed(reason) => EventView::DeviceFailed(reason@),
            Event::VoiceMissing => EventView::VoiceMissing,
            Event::VoiceJoined => EventView::VoiceJoined,
            Event::VoiceFailed(reason) => EventView::VoiceFailed(reason@),
            Event::Announced(tx) => EventView::Announced(*tx),
        }
    }
}

/// What is to be done outside.
#[derive(Debug, PartialEq, Eq)]
pub enum Action {
    /// Answer the command; only the user sees it. Report it with `LinkSent`, under
    /// a new signal.
    Reply(String),
    /// Follow up on the answer; only the user sees it.
    FollowUp(String),
    /// Follow up likewise, and report it with `Greeted`.
    Greet(String),
    /// Follow up likewise, and report it with `Announced`, under a new signal.
    Announce(String),
    /// Drop the sending end of the signal of this number.
    DropSignal(u64),
    /// Wait for the tokens for this many seconds.
    AwaitTokens(u64),
    /// Look up the Spotify display name with this access token.
    LookUpUser(String),
    /// Create a Spotify Connect device.
    CreateDevice { name: String, access_token: String },
    /// Join a voice channel.
    JoinVoice { guild_id: u64, channel_id: u64 },
    /// Play the audio of the device.
    Play { sample_rate: u32, channels: u32 },
    /// Shut the device down.
    ShutDownDevice,
    /// Announce Jams and tracks, and watch the session.
    Attend(Watchdog),
}

/// What an action is.
#[verifier::ext_equal]
pub enum ActionView {
    Reply(Seq<char>),
    FollowUp(Seq<char>),
    Greet(Seq<char>),
    Announce(Seq<char>),
    DropSignal(u64),
    AwaitTokens(u64),
    LookUpUser(Seq<char>),
    CreateDevice { name: Seq<char>, access_token: Seq<char> },
    JoinVoice { guild_id: u64, channel_id: u64 },
    Play { sample_rate: u32, channels: u32 },
    ShutDownDevice,
    Attend(Watchdog),
}

impl View for Action {
    type V = ActionView;

    open spec fn view(&self) -> ActionView {
        match self {
            Action::Reply(message) => ActionView::Reply(message@),
            Action::FollowUp(message) => ActionView::FollowUp(message@),
            Action::Greet(message) => ActionView::Greet(message@),
            Action::Announce(message) => ActionView::Announce(message@),
            Action::DropSignal(tx) => ActionView::DropSignal(*tx),
            Action::AwaitTokens(secs) => ActionView::AwaitTokens(*secs),
            Action::LookUpUser(token) => ActionView::LookUpUser(token@),
            Action::CreateDevice { name, access_token } => ActionView::CreateDevice {
                name: name@,
                access_token: access_token@,
            },
            Action::JoinVoice { guild_id, channel_id } => ActionView::JoinVoice {
                guild_id: *guild_id,
                channel_id: *channel_id,
            },
            Action::Play { sample_rate, channels } => ActionView::Play {
                sample_rate: *sample_rate,
                channels: *channels,
            },
            Action::ShutDownDevice => ActionView::ShutDownDevice,
            Action::Attend(w) => ActionView::Attend(*w),
        }
    }
}

/// What actions are.
pub open spec fn action_views(actions: Seq<Action>) -> Seq<ActionView> {
    actions.map_values(|a: Action| a@)
}

/// The message with the authorization link.
pub open spec fn link_message(url: Seq<char>) -> Seq<char> {
    "**Connect your Spotify account:**\n[Click here to authorize]("@ + url
        + ")\n\n_This link expires in 5 minutes._"@
}

/// The message after the authorization.
pub open spec fn connected_message(spotify_name: Seq<char>) -> Seq<char> {
    "✅ Connected as **"@ + spotify_name + "**. Joining your voice channel…"@
}

/// The message once audio plays.
pub open spec fn streaming_message(spotify_name: Seq<char>, device_name: Seq<char>) -> Seq<char> {
    "✅ Connected as **"@ + spotify_name + "**. Select **"@ + device_name
        + "** in Spotify — I'll stream audio here!\nHit **Start a Jam** in Spotify and I'll post the invite link."@
}

/// Why the command is refused, if it is.
pub open spec fn refusal(s: StoreView, call: Invocation) -> Option<Seq<char>> {
    if call.guild_id is None {
        Some("This command must be used inside a server."@)
    } else if call.voice_channel_id is None {
        Some("You need to be in a voice channel first."@)
    } else if s.active_sessions.contains_key(call.guild_id->0) {
        Some(
            "A Spotify session is already active in this server. Use `/stop-spotify` first."@,
        )
    } else {
        None
    }
}

/// A flow that was just accepted.
pub open spec fn accepted(call: Invocation) -> FlowView {
    FlowView {
        guild_id: call.guild_id->0,
        voice_channel_id: call.voice_channel_id->0,
        text_channel_id: call.text_channel_id,
        user: store::user_key(call.user_id),
        stage: Stage::Accepted,
        access_token: Seq::empty(),
        spotify_name: Seq::empty(),
        device_name: Seq::empty(),
    }
}

/// The session that a flow registers.
pub open spec fn session_of(f: FlowView, tx: u64) -> ActiveSession {
    ActiveSession {
        text_channel_id: f.text_channel_id,
        voice_channel_id: f.voice_channel_id,
        shutdown_tx: tx,
    }
}

/// One step of a flow.
#[verifier::ext_equal]
pub struct StepView {
    pub flow: FlowView,
    pub store: StoreView,
    pub actions: Seq<ActionView>,
}

/// Dropping a signal, if there is one.
pub open spec fn drop_signal(tx: Option<u64>) -> Seq<ActionView> {
    match tx {
        Some(tx) => seq![ActionView::DropSignal(tx)],
        None => Seq::empty(),
    }
}

/// The number of the signal of a session, if there is one.
pub open spec fn signal_of(session: Option<ActiveSession>) -> Option<u64> {
    match session {
        Some(session) => Some(session.shutdown_tx),
        None => None,
    }
}

/// The flow ends because the authorization failed, with `message`.
pub open spec fn unauthorized(f: FlowView, s: StoreView, message: Seq<char>) -> StepView {
    StepView {
        flow: FlowView { stage: Stage::Ended, ..f },
        store: StoreView { pending: s.pending.remove(f.user), ..s },
        actions: drop_signal(s.pending.get(f.user)).push(ActionView::FollowUp(message)),
    }
}

/// The flow ends and the device is shut down, with `message`.
pub open spec fn given_up(f: FlowView, s: StoreView, message: Seq<char>) -> StepView {
    StepView {
        flow: FlowView { stage: Stage::Ended, ..f },
        store: s,
        actions: seq![ActionView::FollowUp(message), ActionView::ShutDownDevice],
    }
}

/// What an event does to a flow and the store, and what it calls for. An event
/// that the stage of the flow does not wait for does nothing.
pub open spec fn stepped(f: FlowView, s: StoreView, event: EventView) -> StepView {
    match (f.stage, event) {
        (Stage::Accepted, EventView::LinkBuilt(url)) => StepView {
            flow: FlowView { stage: Stage::LinkOffered, ..f },
            store: s,
            actions: seq![ActionView::Reply(link_message(url))],
        },
        (Stage::LinkOffered, EventView::LinkSent(tx)) => StepView {
            flow: FlowView { stage: Stage::AwaitingTokens, ..f },
            store: StoreView { pending: s.pending.insert(f.user, tx), ..s },
            actions: drop_signal(s.pending.get(f.user)).push(
                ActionView::AwaitTokens(AUTH_TIMEOUT_SECS),
            ),
        },
        (Stage::AwaitingTokens, EventView::Tokens(access_token)) => StepView {
            flow: FlowView { stage: Stage::AwaitingName, access_token, ..f },
            store: s,
            actions: seq![ActionView::LookUpUser(access_token)],
        },
        (Stage::AwaitingTokens, EventView::AuthCancelled) => unauthorized(
            f,
            s,
            "❌ Authorization was cancelled."@,
        ),
        (Stage::AwaitingTokens, EventView::AuthTimedOut) => unauthorized(
            f,
            s,
            "❌ Authorization timed out. Please run the command again."@,
        ),
        (Stage::AwaitingName, EventView::UserNamed(found)) => {
            let spotify_name = match found {
                Some(name) => name,
                None => "Unknown"@,
            };
            StepView {
                flow: FlowView { stage: Stage::Greeting, spotify_name, ..f },
                store: s,
                actions: seq![ActionView::Greet(connected_message(spotify_name))],
            }
        },
        (Stage::Greeting, EventView::Greeted) => StepView {
            flow: FlowView { stage: Stage::AwaitingDevice, device_name: s.bot_name, ..f },
            store: s,
            actions: seq![
                ActionView::CreateDevice { name: s.bot_name, access_token: f.access_token },
            ],
        },
        (Stage::AwaitingDevice, EventView::DeviceFailed(reason)) => StepView {
            flow: FlowView { stage: Stage::Ended, ..f },
            store: s,
            actions: seq![ActionView::FollowUp("❌ Spotify Connect error: "@ + reason)],
        },
        (Stage::AwaitingDevice, EventView::DeviceReady) => StepView {
            flow: FlowView { stage: Stage::AwaitingVoice, ..f },
            store: s,
            actions: seq![
                ActionView::JoinVoice { guild_id: f.guild_id, channel_id: f.voice_channel_id },
            ],
        },
        (Stage::AwaitingVoice, EventView::VoiceMissing) => given_up(
            f,
            s,
            "❌ Internal error: voice system not ready."@,
        ),
        (Stage::AwaitingVoice, EventView::VoiceFailed(reason)) => given_up(
            f,
            s,
            "❌ Could not join voice channel: "@ + reason,
        ),
        (Stage::AwaitingVoice, EventView::VoiceJoined) => StepView {
            flow: FlowView { stage: Stage::Streaming, ..f },
            store: s,
            actions: seq![
                ActionView::Play { sample_rate: SAMPLE_RATE, channels: CHANNELS },
                ActionView::Announce(streaming_message(f.spotify_name, f.device_name)),
            ],
        },
        (Stage::Streaming, EventView::Announced(tx)) => StepView {
            flow: FlowView { stage: Stage::Live, ..f },
            store: StoreView {
                active_sessions: s.active_sessions.insert(f.guild_id, session_of(f, tx)),
                ..s
            },
            actions: drop_signal(signal_of(s.active_sessions.get(f.guild_id))).push(
                ActionView::Attend(watchdog::watchdog_of(f.guild_id, session_of(f, tx))),
            ),
        },
        _ => StepView { flow: f, store: s, actions: Seq::empty() },
    }
}

/// Accepts the command, or says why not: it takes a server, a voice channel, and
/// no session that is already active.
pub fn run(store: &Store, call: Invocation) -> (r: Result<StartFlow, String>)
    ensures
        match r {
            Ok(flow) => refusal(store@, call) is None && flow@ == accepted(call),
            Err(message) => refusal(store@, call) == Some(message@),
        },
{
    let guild_id = match call.guild_id {
        Some(id) => id,
        None => {
            return Err("This command must be used inside a server.".to_owned());
        },
    };
    let voice_channel_id = match call.voice_channel_id {
        Some(id) => id,
        None => {
            return Err("You need to be in a voice channel first.".to_owned());
        },
    };
    // Only one session per guild.
    if store.has_session(guild_id) {
        return Err(
            "A Spotify session is already active in this server. Use `/stop-spotify` first.".to_owned(),
        );
    }
    Ok(
        StartFlow {
            guild_id,
            voice_channel_id,
            text_channel_id: call.text_channel_id,
            user: text::decimal_string(call.user_id),
            stage: Stage::Accepted,
            access_token: String::new(),
            spotify_name: String::new(),
            device_name: String::new(),
        },
    )
}

fn text_around(before: &str, middle: &str, after: &str) -> (s: String)
    ensures
        s@ == before@ + middle@ + after@,
{
    let mut s = before.to_owned();
    s.append(middle);
    s.append(after);
    s
}

fn push_drop(actions: &mut Vec<Action>, tx: Option<u64>)
    ensures
        action_views(final(actions)@) == action_views(old(actions)@) + drop_signal(tx),
{
    if let Some(tx) = tx {
        actions.push(Action::DropSignal(tx));
    }
    assert(action_views(actions@) =~= action_views(old(actions)@) + drop_signal(tx));
}

impl StartFlow {
    /// The authorization failed: stop waiting for the tokens and tell the user.
    fn fail_authorization(&mut self, store: &mut Store, message: &str) -> (actions: Vec<Action>)
        ensures
            old(store).wf() ==> final(store).wf(),
            (StepView {
                flow: final(self)@,
                store: final(store)@,
                actions: action_views(actions@),
            }) == unauthorized(old(self)@, old(store)@, message@),
    {
        let removed = store.take_pending(self.user.as_str());
        self.stage = Stage::Ended;
        let mut actions: Vec<Action> = Vec::new();
        push_drop(&mut actions, removed);
        actions.push(Action::FollowUp(message.to_owned()));
        assert(action_views(actions@) =~= drop_signal(removed).push(
            ActionView::FollowUp(message@),
        ));
        actions
    }

    /// The voice channel was not joined: tell the user and shut the device down.
    fn give_up(&mut self, message: String) -> (actions: Vec<Action>)
        ensures
            forall|s: StoreView|
                (StepView { flow: final(self)@, store: s, actions: action_views(actions@) })
                    == #[trigger] given_up(old(self)@, s, message@),
    {
        self.stage = Stage::Ended;
        let mut actions: Vec<Action> = Vec::new();
        actions.push(Action::FollowUp(message));
        actions.push(Action::ShutDownDevice);
        assert(action_views(actions@) =~= seq![
            ActionView::FollowUp(message@),
            ActionView::ShutDownDevice,
        ]);
        actions
    }

    /// Takes up an event, and returns the actions that it calls for, in order.
    pub fn step(&mut self, store: &mut Store, event: Event) -> (actions: Vec<Action>)
        ensures
            old(store).wf() ==> final(store).wf(),
            (StepView {
                flow: final(self)@,
                store: final(store)@,
                actions: action_views(actions@),
            }) == stepped(old(self)@, old(store)@, event@),
    {
        let mut actions: Vec<Action> = Vec::new();
        match event {
            Event::LinkBuilt(url) => {
                if self.stage == Stage::Accepted {
                    self.stage = Stage::LinkOffered;
                    actions.push(
                        Action::Reply(
                            text_around(
                                "**Connect your Spotify account:**\n[Click here to authorize](",
                                url.as_str(),
                                ")\n\n_This link expires in 5 minutes._",
                            ),
                        ),
                    );
                }
            },
            Event::LinkSent(tx) => {
                if self.stage == Stage::LinkOffered {
                    self.stage = Stage::AwaitingTokens;
                    let replaced = store.expect_tokens(self.user.clone(), tx);
                    push_drop(&mut actions, replaced);
                    actions.push(Action::AwaitTokens(AUTH_TIMEOUT_SECS));
                }
            },
            Event::Tokens(tokens) => {
                if self.stage == Stage::AwaitingTokens {
                    self.stage = Stage::AwaitingName;
                    self.access_token = tokens.access_token.clone();
                    actions.push(Action::LookUpUser(tokens.access_token));
                }
            },
            Event::AuthCancelled => {
                if self.stage == Stage::AwaitingTokens {
                    return self.fail_authorization(store, "❌ Authorization was cancelled.");
                }
            },
            Event::AuthTimedOut => {
                if self.stage == Stage::AwaitingTokens {
                    return self.fail_authorization(
                        store,
                        "❌ Authorization timed out. Please run the command again.",
                    );
                }
            },
            Event::UserNamed(found) => {
                if self.stage == Stage::AwaitingName {
                    self.stage = Stage::Greeting;
                    self.spotify_name = match found {
                        Some(name) => name,
                        None => "Unknown".to_owned(),
                    };
                    actions.push(
                        Action::Greet(
                            text_around(
                                "✅ Connected as **",
                                self.spotify_name.as_str(),
                                "**. Joining your voice channel…",
                            ),
                        ),
                    );
                }
            },
            Event::Greeted => {
                if self.stage == Stage::Greeting {
                    self.stage = Stage::AwaitingDevice;
                    self.device_name = store.bot_name().to_owned();
                    actions.push(
                        Action::CreateDevice {
                            name: self.device_name.clone(),
                            access_token: self.access_token.clone(),
                        },
                    );
                }
            },
            Event::DeviceReady => {
                if self.stage == Stage::AwaitingDevice {
                    self.stage = Stage::AwaitingVoice;
                    actions.push(
                        Action::JoinVoice {
                            guild_id: self.guild_id,
                            channel_id: self.voice_channel_id,
                        },
                    );
                }
            },
            Event::DeviceFailed(reason) => {
                if self.stage == Stage::AwaitingDevice {
                    self.stage = Stage::Ended;
                    let message = "❌ Spotify Connect error: ".to_owned().concat(reason.as_str());
                    actions.push(Action::FollowUp(message));
                }
            },
            Event::VoiceMissing => {
                if self.stage == Stage::AwaitingVoice {
                    return self.give_up("❌ Internal error: voice system not ready.".to_owned());
                }
            },
            Event::VoiceJoined => {
                if self.stage == Stage::AwaitingVoice {
                    self.stage = Stage::Streaming;
                    actions.push(Action::Play { sample_rate: SAMPLE_RATE, channels: CHANNELS });
                    let mut message = text_around(
                        "✅ Connected as **",
                        self.spotify_name.as_str(),
                        "**. Select **",
                    );
                    message.append(self.device_name.as_str());
                    message.append(
                        "** in Spotify — I'll stream audio here!\nHit **Start a Jam** in Spotify and I'll post the invite link.",
                    );
                    actions.push(Action::Announce(message));
                }
            },
            Event::VoiceFailed(reason) => {
                if self.stage == Stage::AwaitingVoice {
                    let message = "❌ Could not join voice channel: ".to_owned().concat(
                        reason.as_str(),
                    );
                    return self.give_up(message);
                }
            },
            Event::Announced(tx) => {
                if self.stage == Stage::Streaming {
                    self.stage = Stage::Live;
                    let session = ActiveSession {
                        text_channel_id: self.text_channel_id,
                        voice_channel_id: self.voice_channel_id,
                        shutdown_tx: tx,
                    };
                    let replaced = match store.start_session(self.guild_id, session) {
                        Some(session) => Some(session.shutdown_tx),
                        None => None,
                    };
                    push_drop(&mut actions, replaced);
                    actions.push(Action::Attend(Watchdog::new(self.guild_id, session)));
                }
            },
        }
        assert(action_views(actions@) =~= stepped(old(self)@, old(store)@, event@).actions);
        actions
    }
}

} // verus!
