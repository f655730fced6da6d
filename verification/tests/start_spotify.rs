use voicebot::bot::commands::start_spotify::{run, Action, Event, Invocation, Stage, StartFlow};
use voicebot::bot::commands::stop_spotify;
use voicebot::bot::commands::watchdog::{Presence, SessionAction, Wake, Watch, Watchdog};
use voicebot::store::session::{ActiveSession, SpotifyTokens};
use voicebot::store::Store;

fn call() -> Invocation {
    Invocation {
        guild_id: Some(1),
        voice_channel_id: Some(2),
        text_channel_id: 3,
        user_id: 4,
    }
}

fn tokens() -> SpotifyTokens {
    SpotifyTokens { access_token: "acc".to_string(), refresh_token: Some("ref".to_string()) }
}

fn watchdog(signal: u64) -> Watchdog {
    Watchdog { guild_id: 1, channel_id: 2, signal, watch: Watch::Watching }
}

fn follow_up(text: &str) -> Action {
    Action::FollowUp(text.to_string())
}

fn at_tokens(store: &mut Store) -> StartFlow {
    let mut flow = run(store, call()).unwrap();
    flow.step(store, Event::LinkBuilt("u".to_string()));
    flow.step(store, Event::LinkSent(100));
    flow
}

fn at_device(store: &mut Store) -> StartFlow {
    let mut flow = at_tokens(store);
    flow.step(store, Event::Tokens(tokens()));
    flow.step(store, Event::UserNamed(Some("Ann".to_string())));
    flow.step(store, Event::Greeted);
    flow
}

fn at_voice(store: &mut Store) -> StartFlow {
    let mut flow = at_device(store);
    flow.step(store, Event::DeviceReady);
    flow
}

#[test]
fn the_command_needs_a_server() {
    let store = Store::new(None);
    let mut outside = call();
    outside.guild_id = None;
    assert_eq!(
        run(&store, outside).unwrap_err(),
        "This command must be used inside a server."
    );
}

#[test]
fn the_command_needs_a_voice_channel() {
    let store = Store::new(None);
    let mut silent = call();
    silent.voice_channel_id = None;
    assert_eq!(run(&store, silent).unwrap_err(), "You need to be in a voice channel first.");
}

#[test]
fn an_active_session_refuses_the_command() {
    let mut store = Store::new(None);
    store.start_session(
        1,
        ActiveSession { text_channel_id: 0, voice_channel_id: 0, shutdown_tx: 0 },
    );
    assert_eq!(
        run(&store, call()).unwrap_err(),
        "A Spotify session is already active in this server. Use `/stop-spotify` first."
    );
    let mut elsewhere = call();
    elsewhere.guild_id = Some(9);
    assert!(run(&store, elsewhere).is_ok());
}

#[test]
fn a_smooth_start_goes_live() {
    let mut store = Store::new(None);
    store.set_bot_name("DJ".to_string());
    let mut flow = run(&store, call()).unwrap();
    assert_eq!(flow.stage, Stage::Accepted);
    assert_eq!(flow.user, "4");

    assert_eq!(
        flow.step(&mut store, Event::LinkBuilt("https://x/?a=b".to_string())),
        [Action::Reply(
            "**Connect your Spotify account:**\n[Click here to authorize](https://x/?a=b)\n\n_This link expires in 5 minutes._"
                .to_string()
        )]
    );
    assert_eq!(flow.step(&mut store, Event::LinkSent(100)), [Action::AwaitTokens(300)]);
    assert_eq!(
        flow.step(&mut store, Event::Tokens(tokens())),
        [Action::LookUpUser("acc".to_string())]
    );
    assert_eq!(
        flow.step(&mut store, Event::UserNamed(Some("Ann".to_string()))),
        [Action::Greet("✅ Connected as **Ann**. Joining your voice channel…".to_string())]
    );
    assert_eq!(flow.stage, Stage::Greeting);
    assert_eq!(
        flow.step(&mut store, Event::Greeted),
        [Action::CreateDevice { name: "DJ".to_string(), access_token: "acc".to_string() }]
    );
    assert_eq!(
        flow.step(&mut store, Event::DeviceReady),
        [Action::JoinVoice { guild_id: 1, channel_id: 2 }]
    );
    assert_eq!(
        flow.step(&mut store, Event::VoiceJoined),
        [
            Action::Play { sample_rate: 44_100, channels: 2 },
            Action::Announce(
                "✅ Connected as **Ann**. Select **DJ** in Spotify — I'll stream audio here!\nHit **Start a Jam** in Spotify and I'll post the invite link."
                    .to_string()
            ),
        ]
    );
    assert!(!store.has_session(1));
    assert_eq!(flow.step(&mut store, Event::Announced(200)), [Action::Attend(watchdog(200))]);
    assert_eq!(flow.stage, Stage::Live);
    assert_eq!(
        store.end_session(1),
        Some(ActiveSession { text_channel_id: 3, voice_channel_id: 2, shutdown_tx: 200 })
    );
    assert_eq!(store.take_pending("4"), Some(100));
}

#[test]
fn a_cancelled_authorization_ends_the_flow() {
    let mut store = Store::new(None);
    let mut flow = at_tokens(&mut store);
    assert_eq!(
        flow.step(&mut store, Event::AuthCancelled),
        [Action::DropSignal(100), follow_up("❌ Authorization was cancelled.")]
    );
    assert_eq!(flow.stage, Stage::Ended);
    assert_eq!(store.take_pending("4"), None);
}

#[test]
fn a_late_authorization_ends_the_flow() {
    let mut store = Store::new(None);
    let mut flow = at_tokens(&mut store);
    store.take_pending("4");
    assert_eq!(
        flow.step(&mut store, Event::AuthTimedOut),
        [follow_up("❌ Authorization timed out. Please run the command again.")]
    );
    assert_eq!(flow.stage, Stage::Ended);
}

#[test]
fn a_second_command_replaces_the_waiting_signal() {
    let mut store = Store::new(None);
    let _first = at_tokens(&mut store);
    let mut second = run(&store, call()).unwrap();
    second.step(&mut store, Event::LinkBuilt("u".to_string()));
    assert_eq!(
        second.step(&mut store, Event::LinkSent(101)),
        [Action::DropSignal(100), Action::AwaitTokens(300)]
    );
}

#[test]
fn a_cancelled_command_stops_whatever_waits_for_the_user() {
    let mut store = Store::new(None);
    let mut first = at_tokens(&mut store);
    let mut second = run(&store, call()).unwrap();
    second.step(&mut store, Event::LinkBuilt("u".to_string()));
    second.step(&mut store, Event::LinkSent(101));
    assert_eq!(
        first.step(&mut store, Event::AuthCancelled),
        [Action::DropSignal(101), follow_up("❌ Authorization was cancelled.")]
    );
    assert_eq!(store.take_pending("4"), None);
}

#[test]
fn an_unknown_user_is_called_unknown() {
    let mut store = Store::new(None);
    let mut flow = at_tokens(&mut store);
    flow.step(&mut store, Event::Tokens(tokens()));
    let actions = flow.step(&mut store, Event::UserNamed(None));
    assert_eq!(
        actions[0],
        Action::Greet("✅ Connected as **Unknown**. Joining your voice channel…".to_string())
    );
    assert_eq!(
        flow.step(&mut store, Event::Greeted),
        [Action::CreateDevice { name: "Discord Bot".to_string(), access_token: "acc".to_string() }]
    );
}

#[test]
fn the_device_is_named_after_the_greeting() {
    let mut store = Store::new(None);
    let mut flow = at_tokens(&mut store);
    flow.step(&mut store, Event::Tokens(tokens()));
    flow.step(&mut store, Event::UserNamed(Some("Ann".to_string())));
    store.set_bot_name("Late".to_string());
    assert_eq!(
        flow.step(&mut store, Event::Greeted),
        [Action::CreateDevice { name: "Late".to_string(), access_token: "acc".to_string() }]
    );
    assert_eq!(flow.device_name, "Late");
}

#[test]
fn a_failed_device_ends_the_flow() {
    let mut store = Store::new(None);
    let mut flow = at_device(&mut store);
    assert_eq!(
        flow.step(&mut store, Event::DeviceFailed("no route".to_string())),
        [follow_up("❌ Spotify Connect error: no route")]
    );
    assert_eq!(flow.stage, Stage::Ended);
}

#[test]
fn failures_after_the_device_shut_it_down() {
    let mut store = Store::new(None);
    let mut flow = at_voice(&mut store);
    assert_eq!(
        flow.step(&mut store, Event::VoiceMissing),
        [follow_up("❌ Internal error: voice system not ready."), Action::ShutDownDevice]
    );
    assert_eq!(flow.stage, Stage::Ended);

    let mut flow = at_voice(&mut store);
    assert_eq!(
        flow.step(&mut store, Event::VoiceFailed("gone".to_string())),
        [follow_up("❌ Could not join voice channel: gone"), Action::ShutDownDevice]
    );
    assert_eq!(flow.stage, Stage::Ended);
    assert!(!store.has_session(1));
}

#[test]
fn events_out_of_turn_do_nothing() {
    let mut store = Store::new(None);
    let mut flow = at_tokens(&mut store);
    assert!(flow.step(&mut store, Event::VoiceJoined).is_empty());
    assert!(flow.step(&mut store, Event::LinkSent(7)).is_empty());
    assert_eq!(flow.stage, Stage::AwaitingTokens);
    assert_eq!(
        flow.step(&mut store, Event::AuthCancelled)[0],
        Action::DropSignal(100)
    );
    assert!(flow.step(&mut store, Event::Tokens(tokens())).is_empty());
    assert_eq!(flow.stage, Stage::Ended);
}

#[test]
fn a_second_session_drops_the_signal_of_the_first() {
    let mut store = Store::new(None);
    let mut first = at_voice(&mut store);
    let mut second = at_voice(&mut store);
    first.step(&mut store, Event::VoiceJoined);
    second.step(&mut store, Event::VoiceJoined);
    assert_eq!(first.step(&mut store, Event::Announced(200)), [Action::Attend(watchdog(200))]);
    assert_eq!(
        second.step(&mut store, Event::Announced(201)),
        [Action::DropSignal(200), Action::Attend(watchdog(201))]
    );
    assert_eq!(store.end_session(1).unwrap().shutdown_tx, 201);
    assert_eq!(store.end_session(1), None);
}

#[test]
fn stopping_undoes_starting() {
    let mut store = Store::new(None);
    let mut flow = at_voice(&mut store);
    flow.step(&mut store, Event::VoiceJoined);
    flow.step(&mut store, Event::Announced(200));
    assert!(run(&store, call()).is_err());

    let step = stop_spotify::run(&mut store, Some(1));
    assert_eq!(step.signal, Some(200));
    assert_eq!(step.leave, Some(1));
    assert_eq!(step.reply, "✅ Spotify session stopped.");
    assert!(run(&store, call()).is_ok());

    let again = stop_spotify::run(&mut store, Some(1));
    assert_eq!(again.signal, None);
    assert_eq!(again.leave, None);
    assert_eq!(again.reply, "There is no active Spotify session in this server.");
}

#[test]
fn stopping_needs_a_server() {
    let mut store = Store::new(None);
    let step = stop_spotify::run(&mut store, None);
    assert_eq!(step.signal, None);
    assert_eq!(step.leave, None);
    assert_eq!(step.reply, "This command must be used inside a server.");
}

fn went_live(store: &mut Store, flow: &mut StartFlow, signal: u64) -> Watchdog {
    flow.step(store, Event::VoiceJoined);
    let actions = flow.step(store, Event::Announced(signal));
    match actions.last() {
        Some(Action::Attend(watchdog)) => *watchdog,
        other => panic!("not attended: {other:?}"),
    }
}

fn listening() -> Wake {
    let listener = Presence { user_id: 9, channel_id: Some(2) };
    Wake::Poll { presences: Some(vec![listener]), bot_id: 8 }
}

#[test]
fn a_started_session_stays_while_somebody_listens() {
    let mut store = Store::new(None);
    let mut flow = at_voice(&mut store);
    let mut watchdog = went_live(&mut store, &mut flow, 200);
    for _ in 0..3 {
        assert!(watchdog.step(&mut store, &listening()).is_empty());
    }
    assert_eq!(store.session(1).unwrap().shutdown_tx, 200);
}

#[test]
fn a_started_session_ends_when_it_is_stopped() {
    let mut store = Store::new(None);
    let mut flow = at_voice(&mut store);
    let mut watchdog = went_live(&mut store, &mut flow, 200);
    stop_spotify::run(&mut store, Some(1));
    assert_eq!(
        watchdog.step(&mut store, &Wake::StopRequested),
        [SessionAction::ShutDownDevice, SessionAction::LeaveVoice(1)]
    );
    assert!(watchdog.step(&mut store, &Wake::LeftVoice).is_empty());
    assert_eq!(watchdog.watch, Watch::Done);
    assert_eq!(store.session(1), None);
}

#[test]
fn two_starts_leave_one_session() {
    let mut store = Store::new(None);
    let mut first = at_voice(&mut store);
    let mut second = at_voice(&mut store);
    let mut first_dog = went_live(&mut store, &mut first, 200);
    let mut second_dog = went_live(&mut store, &mut second, 201);

    assert_eq!(
        first_dog.step(&mut store, &Wake::StopRequested),
        [SessionAction::ShutDownDevice]
    );
    assert_eq!(first_dog.watch, Watch::Done);
    assert!(second_dog.step(&mut store, &listening()).is_empty());
    assert_eq!(second_dog.watch, Watch::Watching);
    assert_eq!(store.session(1).unwrap().shutdown_tx, 201);
}

#[test]
fn a_newer_session_outlasts_the_leaving_of_an_older_one() {
    let mut store = Store::new(None);
    let mut first = at_voice(&mut store);
    let mut first_dog = went_live(&mut store, &mut first, 200);
    stop_spotify::run(&mut store, Some(1));
    first_dog.step(&mut store, &Wake::StopRequested);
    let mut second = at_voice(&mut store);
    went_live(&mut store, &mut second, 201);
    assert!(first_dog.step(&mut store, &Wake::LeftVoice).is_empty());
    assert_eq!(first_dog.watch, Watch::Done);
    assert_eq!(store.session(1).unwrap().shutdown_tx, 201);
}

#[test]
fn three_starts_leave_one_session() {
    let mut store = Store::new(None);
    let mut flows = [at_voice(&mut store), at_voice(&mut store), at_voice(&mut store)];
    let mut dogs: Vec<Watchdog> = flows
        .iter_mut()
        .zip([200, 201, 202])
        .map(|(flow, signal)| went_live(&mut store, flow, signal))
        .collect();
    for dog in dogs.iter_mut().take(2) {
        assert_eq!(dog.step(&mut store, &Wake::StopRequested), [SessionAction::ShutDownDevice]);
    }
    assert!(dogs[2].step(&mut store, &listening()).is_empty());
    assert_eq!(store.session(1).unwrap().shutdown_tx, 202);

    let empty = Wake::Poll { presences: Some(vec![]), bot_id: 8 };
    assert_eq!(
        dogs[2].step(&mut store, &empty),
        [SessionAction::ShutDownDevice, SessionAction::LeaveVoice(1)]
    );
    assert_eq!(dogs[2].step(&mut store, &Wake::LeftVoice), [SessionAction::DropSignal(202)]);
    assert_eq!(store.session(1), None);
}
