use voicebot::bot::{
    interaction_command, ready, slash_commands, voice_change, voice_state_update,
    voice_state_update_at, Command, VoiceChange, VoiceUpdate,
};
use voicebot::store::{LeaveOutcome, Store};

fn update(old_channel: Option<u64>, new_channel: Option<u64>) -> VoiceUpdate {
    VoiceUpdate {
        user_id: 7,
        bot_id: 1,
        display_name: Some("Ann".to_string()),
        old_channel,
        new_channel,
    }
}

#[test]
fn three_commands_are_registered() {
    let commands = slash_commands();
    let labels: Vec<(&str, &str)> =
        commands.iter().map(|c| (c.name.as_str(), c.description.as_str())).collect();
    assert_eq!(
        labels,
        [
            ("start-spotify", "Connect your Spotify and start playing in your voice channel"),
            ("stop-spotify", "Stop the active Spotify Connect session"),
            ("rank", "Show the voice channel time leaderboard"),
        ]
    );
}

#[test]
fn registered_commands_are_dispatched() {
    let found: Vec<Option<Command>> =
        slash_commands().iter().map(|c| interaction_command(&c.name)).collect();
    assert_eq!(
        found,
        [Some(Command::StartSpotify), Some(Command::StopSpotify), Some(Command::Rank)]
    );
    assert_eq!(interaction_command("ranks"), None);
    assert_eq!(interaction_command(""), None);
}

#[test]
fn ready_takes_over_the_name() {
    let mut store = Store::new(None);
    let commands = ready(&mut store, "DJ".to_string());
    assert_eq!(store.bot_name(), "DJ");
    assert_eq!(commands.len(), 3);
}

#[test]
fn voice_changes_are_told_apart() {
    assert_eq!(voice_change(&update(None, Some(5))), VoiceChange::Joined);
    assert_eq!(voice_change(&update(Some(5), None)), VoiceChange::Left);
    assert_eq!(voice_change(&update(Some(5), Some(6))), VoiceChange::Switched);
    assert_eq!(voice_change(&update(Some(5), Some(5))), VoiceChange::Switched);
    assert_eq!(voice_change(&update(None, None)), VoiceChange::Nothing);
}

#[test]
fn the_bot_itself_is_not_ranked() {
    let mut own = update(None, Some(5));
    own.user_id = 1;
    assert_eq!(voice_change(&own), VoiceChange::Nothing);
    let mut store = Store::new(None);
    assert_eq!(voice_state_update_at(&mut store, own, 1, 2), None);
    assert_eq!(store.voice_leave_at(1, 3), LeaveOutcome::NotInVoice);
}

#[test]
fn updates_are_recorded() {
    let mut store = Store::new(None);
    assert_eq!(voice_state_update_at(&mut store, update(None, Some(5)), 0, 100), None);
    assert_eq!(
        voice_state_update_at(&mut store, update(Some(5), Some(6)), 300, 310),
        Some(LeaveOutcome::Recorded)
    );
    assert_eq!(store.top_voice(1)[0].1.total_ms, 200);
    assert_eq!(
        voice_state_update_at(&mut store, update(Some(6), None), 410, 0),
        Some(LeaveOutcome::Recorded)
    );
    assert_eq!(store.top_voice(1)[0].1.total_ms, 300);
    assert_eq!(store.top_voice(1)[0].1.display_name, "Ann");
    assert_eq!(
        voice_state_update_at(&mut store, update(Some(6), None), 500, 0),
        Some(LeaveOutcome::NotInVoice)
    );
}

#[test]
fn a_switch_after_a_missed_join_starts_a_session() {
    let mut store = Store::new(None);
    assert_eq!(
        voice_state_update_at(&mut store, update(Some(5), Some(6)), 300, 310),
        Some(LeaveOutcome::NotInVoice)
    );
    assert_eq!(store.voice_leave_at(7, 315), LeaveOutcome::Recorded);
    assert_eq!(store.top_voice(1)[0].1.total_ms, 5);
}

#[test]
fn a_failed_leave_is_not_followed_by_a_join() {
    let mut store = Store::new(None);
    store.voice_join_at(7, "Ann".to_string(), 1_000);
    assert_eq!(
        voice_state_update_at(&mut store, update(Some(5), Some(6)), 300, 310),
        Some(LeaveOutcome::ClockWentBack)
    );
    assert_eq!(store.voice_leave_at(7, 2_000), LeaveOutcome::NotInVoice);
}

#[test]
fn an_unknown_member_is_shown_by_id() {
    let mut store = Store::new(None);
    let mut unknown = update(None, Some(5));
    unknown.display_name = None;
    voice_state_update_at(&mut store, unknown, 0, 100);
    store.voice_leave_at(7, 200);
    assert_eq!(store.top_voice(1)[0].1.display_name, "7");
}

#[test]
fn updates_read_the_clock() {
    let mut store = Store::new(None);
    assert_eq!(voice_state_update(&mut store, update(None, Some(5))), None);
    assert_eq!(
        voice_state_update(&mut store, update(Some(5), None)),
        Some(LeaveOutcome::Recorded)
    );
}
