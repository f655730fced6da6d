use voicebot::bot::commands::rank::{format_time, leaderboard_reply, run};
use voicebot::bot::embed::Reply;
use voicebot::store::leaderboard::RankEntry;
use voicebot::store::Store;

#[test]
fn format_time_shows_the_two_largest_units() {
    assert_eq!(format_time(0), "0s");
    assert_eq!(format_time(999), "0s");
    assert_eq!(format_time(1_000), "1s");
    assert_eq!(format_time(59_999), "59s");
    assert_eq!(format_time(60_000), "1m 0s");
    assert_eq!(format_time(61_999), "1m 1s");
    assert_eq!(format_time(3_599_999), "59m 59s");
    assert_eq!(format_time(3_600_000), "1h 0m");
    assert_eq!(format_time(90_061_000), "25h 1m");
    assert_eq!(format_time(u64::MAX), "5124095576030h 25m");
}

#[test]
fn an_empty_rank_is_said_so() {
    let store = Store::new(None);
    assert_eq!(
        run(&store),
        Reply::Ephemeral("No voice data recorded yet. Join a voice channel!".to_string())
    );
}

#[test]
fn the_leaderboard_lists_medals_and_times() {
    let top: Vec<(String, RankEntry)> = [(11u64, 3_600_000u64), (12, 61_000), (13, 5_000), (14, 0)]
        .iter()
        .map(|(id, ms)| {
            (id.to_string(), RankEntry { display_name: "x".to_string(), total_ms: *ms })
        })
        .collect();
    match leaderboard_reply(&top) {
        Reply::Embed(embed) => {
            assert_eq!(embed.title, "🏆 Voice Rank");
            assert_eq!(
                embed.description.as_deref(),
                Some(
                    "🥇 <@11> — **1h 0m**\n🥈 <@12> — **1m 1s**\n🥉 <@13> — **5s**\n▪️ <@14> — **0s**"
                )
            );
            assert_eq!(embed.color, (88, 101, 242));
            assert_eq!(embed.footer, "Total accumulated voice channel time");
            assert_eq!(embed.author, None);
            assert_eq!(embed.url, None);
            assert_eq!(embed.thumbnail, None);
        }
        other => panic!("{other:?}"),
    }
}

#[test]
fn ten_places_are_shown() {
    let mut store = Store::new(None);
    for user in 1..=12u64 {
        store.voice_join_at(user, "x".to_string(), 0);
        store.voice_leave_at(user, user as u128 * 1_000);
    }
    match run(&store) {
        Reply::Embed(embed) => {
            let description = embed.description.unwrap();
            let lines: Vec<&str> = description.lines().collect();
            assert_eq!(lines.len(), 10);
            assert_eq!(lines[0], "🥇 <@12> — **12s**");
            assert_eq!(lines[9], "▪️ <@3> — **3s**");
        }
        other => panic!("{other:?}"),
    }
}
