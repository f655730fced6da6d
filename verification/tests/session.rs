use voicebot::bot::commands::jam::JamAnnouncer;
use voicebot::bot::commands::links::{album_fits, album_url, spotify_url};
use voicebot::bot::commands::now_playing::{
    album_name, cover_url, format_duration, now_playing, react, Cover, PlayerNotice, Reaction,
    Status, TrackFields, TrackInfo,
};
use voicebot::bot::commands::watchdog::{
    still_connected, Presence, SessionAction, Wake, Watch, Watchdog,
};
use voicebot::store::session::ActiveSession;
use voicebot::store::Store;

fn cover(url: &str, width: i32) -> Cover {
    Cover { url: url.to_string(), width }
}

fn track() -> TrackInfo {
    TrackInfo {
        name: "Song".to_string(),
        fields: TrackFields::Track {
            artists: vec!["A".to_string(), "B".to_string()],
            album: "The Album".to_string(),
        },
        covers: vec![cover("s", 64), cover("l", 640), cover("m", 300)],
        uri: "spotify:track:abc".to_string(),
        duration_ms: 187_999,
        is_explicit: true,
    }
}

#[test]
fn a_jam_is_announced_once() {
    let mut announcer = JamAnnouncer::new("DJ".to_string());
    let jam = announcer.announce("spotify://socialsession/tok1").unwrap();
    assert_eq!(jam.embed.title, "A Jam just started!");
    assert_eq!(
        jam.embed.description.as_deref(),
        Some("**DJ** is hosting a listening session.\nJoin and listen along in sync with everyone.")
    );
    assert_eq!(jam.embed.color, (30, 215, 96));
    assert_eq!(jam.embed.footer, "Spotify Jam");
    assert_eq!(jam.button_label, "Join the Jam");
    assert_eq!(jam.button_url, "https://open.spotify.com/socialsession/tok1");
    assert_eq!(announcer.announce("spotify://socialsession/tok1"), None);
    assert_eq!(announcer.announce("tok1"), None);
    let other = announcer.announce("tok2").unwrap();
    assert_eq!(other.button_url, "https://open.spotify.com/socialsession/tok2");
    assert_eq!(announcer.announce("spotify://socialsession/tok2"), None);
}

#[test]
fn a_track_is_shown() {
    let shown = now_playing(&track(), "DJ", "https://album");
    assert_eq!(shown.status, "Song · A, B");
    assert_eq!(shown.embed.author.as_deref(), Some("A, B"));
    assert_eq!(shown.embed.title, "Song 🅴");
    assert_eq!(shown.embed.url.as_deref(), Some("https://open.spotify.com/track/abc"));
    assert_eq!(shown.embed.description.as_deref(), Some("[*The Album*](https://album)"));
    assert_eq!(shown.embed.color, (30, 215, 96));
    assert_eq!(shown.embed.footer, "🎧 DJ  ·  3:07");
    assert_eq!(shown.embed.thumbnail.as_deref(), Some("l"));
}

#[test]
fn an_album_without_a_link_is_shown_plain() {
    let shown = now_playing(&track(), "DJ", "");
    assert_eq!(shown.embed.description.as_deref(), Some("*The Album*"));
}

#[test]
fn an_episode_has_no_album() {
    let mut item = track();
    item.fields = TrackFields::Episode { show_name: "Show".to_string() };
    item.covers = vec![];
    item.uri = "local".to_string();
    item.is_explicit = false;
    let shown = now_playing(&item, "DJ", "");
    assert_eq!(shown.status, "Song · Show");
    assert_eq!(shown.embed.title, "Song");
    assert_eq!(shown.embed.url, None);
    assert_eq!(shown.embed.description, None);
    assert_eq!(shown.embed.thumbnail, None);
    assert_eq!(album_name(&item.fields), "");
}

#[test]
fn a_local_file_may_be_unnamed() {
    let mut item = track();
    item.fields = TrackFields::Local { artists: None, album: None };
    let shown = now_playing(&item, "DJ", "");
    assert_eq!(shown.embed.author.as_deref(), Some("Unknown artist"));
    assert_eq!(shown.embed.description, None);
    item.fields =
        TrackFields::Local { artists: Some("A; B".to_string()), album: Some("X".to_string()) };
    let shown = now_playing(&item, "DJ", "u");
    assert_eq!(shown.embed.author.as_deref(), Some("A; B"));
    assert_eq!(shown.embed.description.as_deref(), Some("[*X*](u)"));
}

#[test]
fn the_last_of_the_widest_covers_is_shown() {
    assert_eq!(cover_url(&vec![]), "");
    assert_eq!(cover_url(&vec![cover("a", 5), cover("b", 9), cover("c", 9), cover("d", 1)]), "c");
    assert_eq!(cover_url(&vec![cover("a", -5), cover("b", -9)]), "a");
}

#[test]
fn durations_are_minutes_and_seconds() {
    assert_eq!(format_duration(0), "0:00");
    assert_eq!(format_duration(9_999), "0:09");
    assert_eq!(format_duration(60_000), "1:00");
    assert_eq!(format_duration(3_725_000), "62:05");
    assert_eq!(format_duration(u32::MAX), "71582:47");
}

#[test]
fn web_links_replace_one_colon() {
    assert_eq!(spotify_url("spotify:track:abc"), "https://open.spotify.com/track/abc");
    assert_eq!(spotify_url("spotify:user:x:playlist:y"), "https://open.spotify.com/user/x:playlist:y");
    assert_eq!(spotify_url("spotify:"), "https://open.spotify.com/");
    assert_eq!(spotify_url("file:abc"), "");
}

#[test]
fn album_links_are_encoded() {
    assert_eq!(album_url(""), "");
    assert_eq!(album_url("Abbey"), "https://open.spotify.com/search//Abbey");
    assert_eq!(
        album_url("A/B 100%?"),
        "https://open.spotify.com/search//A%2FB%20100%25%3F"
    );
    assert_eq!(album_url(".."), "https://open.spotify.com/search/");
    assert_eq!(album_url("é"), "https://open.spotify.com/search//%C3%A9");
    assert_eq!(album_url("a\tb\n"), "https://open.spotify.com/search//ab");
    assert_eq!(
        album_url("!$&'()*+,-.:;=@[]^_|~"),
        "https://open.spotify.com/search//!$&'()*+,-.:;=@[]^_|~"
    );
    assert_eq!(
        album_url("\"#%/<>?\\`{}\u{7f}"),
        "https://open.spotify.com/search//%22%23%25%2F%3C%3E%3F%5C%60%7B%7D%7F"
    );
}

#[test]
fn ordinary_albums_fit_into_a_link() {
    assert!(album_fits(""));
    assert!(album_fits("A/B 100%?\té€🎧"));
}

#[test]
fn a_new_track_changes_status_and_is_sent() {
    let reaction = react(&PlayerNotice::TrackChanged(track()), "DJ");
    assert_eq!(reaction.status, Status::Listening("Song · A, B".to_string()));
    let embed = reaction.embed.unwrap();
    assert_eq!(
        embed.description.as_deref(),
        Some("[*The Album*](https://open.spotify.com/search//The%20Album)")
    );
}

#[test]
fn the_end_of_playback_clears_the_status() {
    let cleared = Reaction { status: Status::Cleared, embed: None };
    assert_eq!(react(&PlayerNotice::Stopped, "DJ"), cleared);
    assert_eq!(react(&PlayerNotice::Closed, "DJ"), cleared);
    assert_eq!(
        react(&PlayerNotice::Other, "DJ"),
        Reaction { status: Status::Unchanged, embed: None }
    );
}

#[test]
fn listeners_keep_a_session_alive() {
    let at = |user_id: u64, channel_id: Option<u64>| Presence { user_id, channel_id };
    assert!(!still_connected(&None, 5, 1));
    assert!(!still_connected(&Some(vec![]), 5, 1));
    assert!(!still_connected(&Some(vec![at(1, Some(5)), at(2, Some(6)), at(3, None)]), 5, 1));
    assert!(still_connected(&Some(vec![at(1, Some(5)), at(2, Some(5))]), 5, 1));
}

fn running(store: &mut Store) -> Watchdog {
    let session = ActiveSession { text_channel_id: 3, voice_channel_id: 5, shutdown_tx: 200 };
    store.start_session(1, session);
    Watchdog::new(1, session)
}

fn poll(user_id: u64, channel_id: u64) -> Wake {
    let seen = Presence { user_id, channel_id: Some(channel_id) };
    Wake::Poll { presences: Some(vec![seen]), bot_id: 1 }
}

#[test]
fn a_session_goes_on_while_somebody_listens() {
    let mut store = Store::new(None);
    let mut watchdog = running(&mut store);
    assert!(watchdog.step(&mut store, &poll(2, 5)).is_empty());
    assert!(watchdog.step(&mut store, &Wake::LeftVoice).is_empty());
    assert_eq!(watchdog.watch, Watch::Watching);
    assert!(store.has_session(1));
}

#[test]
fn a_session_without_listeners_ends() {
    let unknown = Wake::Poll { presences: None, bot_id: 1 };
    for wake in [poll(1, 5), poll(2, 6), unknown, Wake::StopRequested] {
        let mut store = Store::new(None);
        let mut watchdog = running(&mut store);
        assert_eq!(
            watchdog.step(&mut store, &wake),
            [SessionAction::ShutDownDevice, SessionAction::LeaveVoice(1)]
        );
        assert_eq!(watchdog.watch, Watch::Leaving);
        assert!(store.has_session(1));
        assert!(watchdog.step(&mut store, &Wake::StopRequested).is_empty());
        assert_eq!(
            watchdog.step(&mut store, &Wake::LeftVoice),
            [SessionAction::DropSignal(200)]
        );
        assert_eq!(watchdog.watch, Watch::Done);
        assert!(!store.has_session(1));
        assert!(watchdog.step(&mut store, &Wake::StopRequested).is_empty());
    }
}

#[test]
fn the_registered_session_can_be_looked_up() {
    let mut store = Store::new(None);
    assert_eq!(store.session(1), None);
    running(&mut store);
    assert_eq!(
        store.session(1),
        Some(ActiveSession { text_channel_id: 3, voice_channel_id: 5, shutdown_tx: 200 })
    );
    assert_eq!(store.session(2), None);
    assert!(store.has_session(1));
}
