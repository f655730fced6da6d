use voicebot::store::leaderboard::{leaders, RankEntry, VoiceRank};

fn entry(name: &str, total_ms: u64) -> RankEntry {
    RankEntry { display_name: name.to_string(), total_ms }
}

fn listed(key: &str, total_ms: u64) -> (String, RankEntry) {
    (key.to_string(), entry(key, total_ms))
}

fn keys(top: &[(String, RankEntry)]) -> Vec<&str> {
    top.iter().map(|e| e.0.as_str()).collect()
}

#[test]
fn leaders_come_first() {
    let top = leaders(vec![listed("a", 5), listed("b", 9), listed("c", 7)], 10);
    assert_eq!(keys(&top), ["b", "c", "a"]);
    assert_eq!(top[0].1, entry("b", 9));
}

#[test]
fn equal_totals_keep_their_order() {
    let top = leaders(
        vec![listed("a", 5), listed("b", 9), listed("c", 5), listed("d", 9), listed("e", 5)],
        10,
    );
    assert_eq!(keys(&top), ["b", "d", "a", "c", "e"]);
}

#[test]
fn the_limit_cuts_the_tail() {
    let all = || vec![listed("a", 1), listed("b", 2), listed("c", 3)];
    assert_eq!(keys(&leaders(all(), 2)), ["c", "b"]);
    assert_eq!(keys(&leaders(all(), 0)), Vec::<&str>::new());
    assert_eq!(keys(&leaders(all(), 3)), ["c", "b", "a"]);
    assert!(leaders(vec![], 10).is_empty());
}

#[test]
fn a_longer_board_starts_with_the_shorter() {
    let all = || vec![listed("a", 4), listed("b", 4), listed("c", 8), listed("d", 1)];
    let short = leaders(all(), 2);
    let long = leaders(all(), 4);
    assert_eq!(short[..], long[..2]);
}

#[test]
fn a_rank_has_one_entry_per_key() {
    let rank = VoiceRank::from_entries(vec![listed("a", 1), listed("b", 2), ("a".to_string(), entry("A", 9))]);
    assert_eq!(rank.entries(), vec![("a".to_string(), entry("A", 9)), listed("b", 2)]);
    assert_eq!(rank.get("a"), Some(entry("A", 9)));
    assert_eq!(rank.get("c"), None);
}

#[test]
fn putting_replaces_or_adds() {
    let mut rank = VoiceRank::new();
    assert!(rank.entries().is_empty());
    rank.put("a".to_string(), entry("x", 1));
    rank.put("b".to_string(), entry("y", 2));
    rank.put("a".to_string(), entry("z", 3));
    assert_eq!(rank.get("a"), Some(entry("z", 3)));
    assert_eq!(keys(&rank.top(10)), ["a", "b"]);
}

#[test]
fn a_saved_rank_comes_back_in_any_order() {
    let mut rank = VoiceRank::new();
    rank.put("1".to_string(), entry("x", 10));
    rank.put("2".to_string(), entry("y", 30));
    rank.put("3".to_string(), entry("z", 20));
    let mut saved = rank.entries();
    saved.reverse();
    let again = VoiceRank::from_entries(saved);
    for key in ["1", "2", "3", "4"] {
        assert_eq!(again.get(key), rank.get(key));
    }
    assert_eq!(keys(&again.top(10)), keys(&rank.top(10)));
}

#[test]
fn a_default_entry_is_blank() {
    assert_eq!(RankEntry::default(), entry("", 0));
    assert_eq!(entry("n", 3).clone(), entry("n", 3));
}
