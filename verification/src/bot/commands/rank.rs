//! `/rank`: the voice channel time leaderboard.

use crate::bot::embed::{Embed, EmbedView, Reply, ReplyView};
use crate::store::leaderboard::RankEntry;
use crate::store::Store;
use crate::text;
use vstd::prelude::*;

verus! {

/// The places shown on the leaderboard.
pub const PLACES: usize = 10;

/// A duration in its two largest units of hours, minutes and seconds.
pub open spec fn time_text(ms: u64) -> Seq<char> {
    let total = ms as nat / 1000;
    let h = total / 3600;
    let m = (total % 3600) / 60;
    let s = total % 60;
    if h > 0 {
        text::decimal(h) + "h "@ + text::decimal(m) + "m"@
    } else if m > 0 {
        text::decimal(m) + "m "@ + text::decimal(s) + "s"@
    } else {
        text::decimal(s) + "s"@
    }
}

/// The mark of the place at `index`, which counts from 0.
pub open spec fn medal(index: int) -> Seq<char> {
    if index == 0 {
        "🥇"@
    } else if index == 1 {
        "🥈"@
    } else if index == 2 {
        "🥉"@
    } else {
        "▪️"@
    }
}

/// The line of the leaderboard for the user at `index`.
pub open spec fn rank_line(index: int, user: Seq<char>, total_ms: u64) -> Seq<char> {
    medal(index) + " <@"@ + user + "> — **"@ + time_text(total_ms) + "**"@
}

/// The lines of the leaderboard.
pub open spec fn rank_lines(top: Seq<(String, RankEntry)>) -> Seq<Seq<char>> {
    Seq::new(top.len(), |i: int| rank_line(i, top[i].0@, top[i].1.total_ms))
}

/// The answer to `/rank` when `top` leads.
pub open spec fn rank_reply(top: Seq<(String, RankEntry)>) -> ReplyView {
    if top.len() == 0 {
        ReplyView::Ephemeral("No voice data recorded yet. Join a voice channel!"@)
    } else {
        ReplyView::Embed(
            EmbedView {
                author: None,
                title: "🏆 Voice Rank"@,
                url: None,
                description: Some(text::joined(rank_lines(top), "\n"@)),
                color: (88, 101, 242),
                footer: "Total accumulated voice channel time"@,
                thumbnail: None,
            },
        )
    }
}

/// Writes a duration in its two largest units of hours, minutes and seconds.
pub fn format_time(ms: u64) -> (s: String)
    ensures
        s@ == time_text(ms),
{
    let total: u64 = ms / 1000;
    let h: u64 = total / 3600;
    let m: u64 = (total % 3600) / 60;
    let s: u64 = total % 60;
    let mut out = String::new();
    if h > 0 {
        text::push_decimal(&mut out, h);
        out.append("h ");
        text::push_decimal(&mut out, m);
        out.append("m");
    } else if m > 0 {
        text::push_decimal(&mut out, m);
        out.append("m ");
        text::push_decimal(&mut out, s);
        out.append("s");
    } else {
        text::push_decimal(&mut out, s);
        out.append("s");
    }
    assert(out@ =~= time_text(ms));
    out
}

fn medal_for(index: usize) -> (s: &'static str)
    ensures
        s@ == medal(index as int),
{
    if index == 0 {
        "🥇"
    } else if index == 1 {
        "🥈"
    } else if index == 2 {
        "🥉"
    } else {
        "▪️"
    }
}

/// The answer to `/rank` when `top` leads.
pub fn leaderboard_reply(top: &Vec<(String, RankEntry)>) -> (reply: Reply)
    ensures
        reply@ == rank_reply(top@),
{
    if top.len() == 0 {
        return Reply::Ephemeral(
            "No voice data recorded yet. Join a voice channel!".to_owned(),
        );
    }
    let mut lines: Vec<String> = Vec::new();
    let mut i: usize = 0;
    while i < top.len()
        invariant
            i <= top@.len(),
            text::texts(lines@) == rank_lines(top@).take(i as int),
        decreases top@.len() - i,
    {
        let mut line = medal_for(i).to_owned();
        line.append(" <@");
        line.append(top[i].0.as_str());
        line.append("> — **");
        line.append(format_time(top[i].1.total_ms).as_str());
        line.append("**");
        assert(line@ =~= rank_line(i as int, top@[i as int].0@, top@[i as int].1.total_ms));
        let ghost before = lines@;
        lines.push(line);
        assert(text::texts(lines@) =~= text::texts(before).push(line@));
        i += 1;
        assert(text::texts(lines@) =~= rank_lines(top@).take(i as int));
    }
    assert(rank_lines(top@).take(i as int) =~= rank_lines(top@));
    Reply::Embed(
        Embed {
            author: None,
            title: "🏆 Voice Rank".to_owned(),
            url: None,
            description: Some(text::join(&lines, "\n")),
            color: (88, 101, 242),
            footer: "Total accumulated voice channel time".to_owned(),
            thumbnail: None,
        },
    )
}

/// The answer to `/rank`.
pub fn run(store: &Store) -> (reply: Reply)
    requires
        store.wf(),
    ensures
        ({
            let top = crate::store::leaderboard::ranked(store.listed(), PLACES as nat);
            &&& crate::store::leaderboard::is_leaderboard(
                store@.voice_rank,
                PLACES as nat,
                top,
            )
            &&& reply@ == rank_reply(top)
        }),
{
    let top = store.top_voice(PLACES);
    leaderboard_reply(&top)
}

} // verus!
