use voicebot::store::clock::{ms_or_zero, LATEST_MS};
use voicebot::store::{
    load_rank, rank_path, unix_now_ms, ActiveSession, LeaveOutcome, RankEntry, SpotifyTokens, Store,
};

fn entry(store: &Store, key: &str) -> Option<RankEntry> {
    store.rank_entries().into_iter().find(|e| e.0 == key).map(|e| e.1)
}

fn total(store: &Store, key: &str) -> Option<u64> {
    entry(store, key).map(|e| e.total_ms)
}

fn session(n: u64) -> ActiveSession {
    ActiveSession { text_channel_id: n, voice_channel_id: n + 1, shutdown_tx: n + 2 }
}

#[test]
fn a_new_store_is_empty() {
    let store = Store::new(None);
    assert_eq!(store.bot_name(), "Discord Bot");
    assert_eq!(store.rank_file(), "data/voice_rank.json");
    assert!(store.top_voice(10).is_empty());
    assert!(store.rank_entries().is_empty());
}

#[test]
fn a_new_store_continues_the_saved_rank() {
    let saved = vec![("5".to_string(), RankEntry { display_name: "five".to_string(), total_ms: 55 })];
    let store = Store::new(Some(saved));
    let top = store.top_voice(10);
    assert_eq!(top.len(), 1);
    assert_eq!(top[0].0, "5");
    assert_eq!(top[0].1.total_ms, 55);
}

#[test]
fn the_rank_file_is_known_before_the_store() {
    assert_eq!(rank_path(), Store::new(None).rank_file());
}

#[test]
fn an_early_clock_reads_zero() {
    assert_eq!(ms_or_zero(None), 0);
    assert_eq!(ms_or_zero(Some(12)), 12);
}

#[test]
fn an_unreadable_rank_is_empty() {
    assert!(load_rank(None).entries().is_empty());
}

#[test]
fn a_visit_adds_its_time() {
    let mut store = Store::new(None);
    store.voice_join_at(7, "Ann".to_string(), 1_000);
    assert_eq!(store.voice_leave_at(7, 4_500), LeaveOutcome::Recorded);
    let first = entry(&store, "7").unwrap();
    assert_eq!(first.total_ms, 3_500);
    assert_eq!(first.display_name, "Ann");

    store.voice_join_at(7, "Anna".to_string(), 10_000);
    assert_eq!(store.voice_leave_at(7, 10_001), LeaveOutcome::Recorded);
    let second = entry(&store, "7").unwrap();
    assert_eq!(second.total_ms, 3_501);
    assert_eq!(second.display_name, "Anna");
}

#[test]
fn a_visit_without_duration_is_recorded() {
    let mut store = Store::new(None);
    store.voice_join_at(7, "Ann".to_string(), 1_000);
    assert_eq!(store.voice_leave_at(7, 1_000), LeaveOutcome::Recorded);
    assert_eq!(total(&store, "7"), Some(0));
}

#[test]
fn leaving_without_joining_is_ignored() {
    let mut store = Store::new(None);
    let outcome = store.voice_leave_at(7, 4_500);
    assert_eq!(outcome, LeaveOutcome::NotInVoice);
    assert!(!outcome.rank_changed());
    assert_eq!(total(&store, "7"), None);
}

#[test]
fn leaving_twice_counts_time_once() {
    let mut store = Store::new(None);
    store.voice_join_at(7, "Ann".to_string(), 1_000);
    let first = store.voice_leave_at(7, 2_000);
    assert!(first.rank_changed());
    assert_eq!(store.voice_leave_at(7, 9_000), LeaveOutcome::NotInVoice);
    assert_eq!(total(&store, "7"), Some(1_000));
}

#[test]
fn joining_twice_restarts_the_timer() {
    let mut store = Store::new(None);
    store.voice_join_at(7, "Ann".to_string(), 1_000);
    store.voice_join_at(7, "Ann".to_string(), 5_000);
    store.voice_leave_at(7, 6_000);
    assert_eq!(total(&store, "7"), Some(1_000));
}

#[test]
fn switching_channels_keeps_the_time() {
    let mut stayed = Store::new(None);
    stayed.voice_join_at(7, "Ann".to_string(), 1_000);
    stayed.voice_leave_at(7, 9_000);

    let mut switched = Store::new(None);
    switched.voice_join_at(7, "Ann".to_string(), 1_000);
    switched.voice_leave_at(7, 4_000);
    switched.voice_join_at(7, "Ann".to_string(), 4_000);
    switched.voice_leave_at(7, 9_000);

    assert_eq!(total(&switched, "7"), total(&stayed, "7"));
}

#[test]
fn users_do_not_disturb_each_other() {
    let mut store = Store::new(None);
    store.voice_join_at(1, "One".to_string(), 0);
    store.voice_join_at(11, "Eleven".to_string(), 100);
    store.voice_leave_at(1, 1_000);
    assert_eq!(total(&store, "1"), Some(1_000));
    assert_eq!(total(&store, "11"), None);
    store.voice_leave_at(11, 1_000);
    assert_eq!(total(&store, "1"), Some(1_000));
    assert_eq!(total(&store, "11"), Some(900));
}

#[test]
fn a_clock_that_went_back_adds_nothing() {
    let mut store = Store::new(None);
    store.voice_join_at(7, "Ann".to_string(), 5_000);
    let outcome = store.voice_leave_at(7, 4_999);
    assert_eq!(outcome, LeaveOutcome::ClockWentBack);
    assert!(!outcome.rank_changed());
    assert_eq!(total(&store, "7"), None);
    assert_eq!(store.voice_leave_at(7, 6_000), LeaveOutcome::NotInVoice);
}

#[test]
fn a_total_that_does_not_fit_is_kept() {
    let saved = vec![("7".to_string(), RankEntry { display_name: "A".to_string(), total_ms: u64::MAX - 10 })];
    let mut store = Store::new(Some(saved));
    store.voice_join_at(7, "Ann".to_string(), 0);
    assert_eq!(store.voice_leave_at(7, 11), LeaveOutcome::TotalOverflow);
    assert_eq!(total(&store, "7"), Some(u64::MAX - 10));
    assert_eq!(store.voice_leave_at(7, 5), LeaveOutcome::NotInVoice);

    store.voice_join_at(7, "Ann".to_string(), 0);
    assert_eq!(store.voice_leave_at(7, 10), LeaveOutcome::Recorded);
    assert_eq!(total(&store, "7"), Some(u64::MAX));
}

#[test]
fn elapsed_time_is_taken_modulo_two_to_the_64() {
    let mut store = Store::new(None);
    store.voice_join_at(7, "Ann".to_string(), 3);
    assert_eq!(store.voice_leave_at(7, (1u128 << 64) + 8), LeaveOutcome::Recorded);
    assert_eq!(total(&store, "7"), Some(5));
}

#[test]
fn the_clock_is_read_on_join_and_leave() {
    let before = unix_now_ms();
    assert!(before > 1_600_000_000_000);
    assert!(before <= LATEST_MS);
    let mut store = Store::new(None);
    store.voice_join(7, "Ann".to_string());
    assert_eq!(store.voice_leave(8), LeaveOutcome::NotInVoice);
    assert_eq!(store.voice_leave(7), LeaveOutcome::Recorded);
    assert!(total(&store, "7").unwrap() < 60_000);
    store.voice_join(7, "Ann".to_string());
    assert_eq!(store.voice_leave_at(7, before - 1), LeaveOutcome::ClockWentBack);
    store.voice_join_at(7, "Ann".to_string(), before + 3_600_000);
    assert_eq!(store.voice_leave(7), LeaveOutcome::ClockWentBack);
}

#[test]
fn top_voice_ranks_users() {
    let mut store = Store::new(None);
    for (user, ms) in [(1u64, 10u128), (2, 30), (3, 20)] {
        store.voice_join_at(user, format!("u{user}"), 0);
        store.voice_leave_at(user, ms);
    }
    let top = store.top_voice(2);
    assert_eq!(top.len(), 2);
    assert_eq!((top[0].0.as_str(), top[0].1.total_ms), ("2", 30));
    assert_eq!((top[1].0.as_str(), top[1].1.total_ms), ("3", 20));
}

#[test]
fn pending_tokens_are_replaced_and_taken() {
    let mut store = Store::new(None);
    assert_eq!(store.expect_tokens("7".to_string(), 1), None);
    assert_eq!(store.expect_tokens("8".to_string(), 2), None);
    assert_eq!(store.expect_tokens("7".to_string(), 3), Some(1));
    assert_eq!(store.take_pending("7"), Some(3));
    assert_eq!(store.take_pending("7"), None);
    assert_eq!(store.take_pending("8"), Some(2));
}

#[test]
fn a_guild_has_one_session() {
    let mut store = Store::new(None);
    assert!(!store.has_session(1));
    assert_eq!(store.start_session(1, session(10)), None);
    assert!(store.has_session(1));
    assert!(!store.has_session(2));
    assert_eq!(store.start_session(1, session(20)), Some(session(10)));
    assert_eq!(store.end_session(1), Some(session(20)));
    assert_eq!(store.end_session(1), None);
    assert!(!store.has_session(1));
}

#[test]
fn the_bot_name_is_taken_over() {
    let mut store = Store::new(None);
    store.set_bot_name("DJ".to_string());
    assert_eq!(store.bot_name(), "DJ");
}

#[test]
fn tokens_can_be_copied() {
    let tokens = SpotifyTokens { access_token: "SECRET-REDACTED".to_string(), refresh_token: None };
    assert_eq!(tokens.clone().access_token, tokens.access_token);
    assert!(tokens.refresh_token.is_none());
}

#[test]
fn visits_add_up() {
    let mut store = Store::new(None);
    for (joined, left) in [(0u128, 5u128), (10, 10), (20, 27), (27, 30)] {
        store.voice_join_at(7, "Ann".to_string(), joined);
        assert_eq!(store.voice_leave_at(7, left), LeaveOutcome::Recorded);
    }
    assert_eq!(total(&store, "7"), Some(15));
}
