//! What holds of all that the bot shows: times, the leaderboard, tracks and Jams.

use crate::bot::commands::jam;
use crate::bot::commands::jam::{JamAnnouncement, JamAnnouncer};
use crate::bot::commands::links;
use crate::bot::commands::now_playing;
use crate::bot::commands::now_playing::{
    Cover, NowPlaying, PlayerNotice, Reaction, Status, TrackFields, TrackInfo,
};
use crate::bot::commands::rank;
use crate::bot::embed::{Embed, Reply};
use crate::store::leaderboard;
use crate::store::leaderboard::RankEntry;
use crate::store::Store;
use crate::text;
use vstd::prelude::*;

verus! {

/// `a` hours and `b` minutes.
pub open spec fn hours_minutes(a: Seq<char>, b: Seq<char>) -> Seq<char> {
    a + "h "@ + b + "m"@
}

/// `a` minutes and `b` seconds.
pub open spec fn minutes_seconds(a: Seq<char>, b: Seq<char>) -> Seq<char> {
    a + "m "@ + b + "s"@
}

/// `a` seconds.
pub open spec fn seconds(a: Seq<char>) -> Seq<char> {
    a + "s"@
}

/// Whether `t` tells a time of `ms` milliseconds: in hours and minutes from an hour on,
/// in minutes and seconds from a minute on, and else in seconds. The numbers that it
/// shows stand for no more than `ms`, and for less than one of the smaller unit below
/// it.
pub open spec fn tells(t: Seq<char>, ms: int) -> bool {
    if ms >= 3_600_000 {
        exists|a: Seq<char>, b: Seq<char>|
            {
                &&& t == #[trigger] hours_minutes(a, b)
                &&& text::is_number(a)
                &&& text::is_number(b)
                &&& text::number_shown(b) < 60
                &&& text::number_shown(a) * 3_600_000 + text::number_shown(b) * 60_000 <= ms
                &&& ms < text::number_shown(a) * 3_600_000 + (text::number_shown(b) + 1) * 60_000
            }
    } else if ms >= 60_000 {
        exists|a: Seq<char>, b: Seq<char>|
            {
                &&& t == #[trigger] minutes_seconds(a, b)
                &&& text::is_number(a)
                &&& text::is_number(b)
                &&& text::number_shown(b) < 60
                &&& text::number_shown(a) * 60_000 + text::number_shown(b) * 1000 <= ms
                &&& ms < text::number_shown(a) * 60_000 + (text::number_shown(b) + 1) * 1000
            }
    } else {
        exists|a: Seq<char>|
            {
                &&& t == #[trigger] seconds(a)
                &&& text::is_number(a)
                &&& text::number_shown(a) * 1000 <= ms < (text::number_shown(a) + 1) * 1000
            }
    }
}

/// The time text of a duration tells that duration.
pub proof fn time_texts_tell_the_time(ms: u64)
    ensures
        tells(rank::time_text(ms), ms as int),
{
    let total = ms as nat / 1000;
    let h = total / 3600;
    let m = (total % 3600) / 60;
    let s = total % 60;
    text::decimals_show_their_number(h);
    text::decimals_show_their_number(m);
    text::decimals_show_their_number(s);
    let t = rank::time_text(ms);
    assert(total == 3600 * h + total % 3600);
    assert(total % 3600 == 60 * m + (total % 3600) % 60);
    assert((total % 3600) % 60 == s);
    if h > 0 {
        assert(t == hours_minutes(text::decimal(h), text::decimal(m)));
    } else if m > 0 {
        assert(t == minutes_seconds(text::decimal(m), text::decimal(s)));
    } else {
        assert(t == seconds(text::decimal(s)));
    }
}

/// What is written of a time tells that time.
pub proof fn written_times_are_right(ms: u64, t: String)
    requires
        call_ensures(rank::format_time, (ms,), t),
    ensures
        tells(t@, ms as int),
{
    time_texts_tell_the_time(ms);
}

/// A line with a mark, a mention of the user and a time in bold.
pub open spec fn line_of(mark: Seq<char>, user: Seq<char>, time: Seq<char>) -> Seq<char> {
    mark + " <@"@ + user + "> — **"@ + time + "**"@
}

/// Whether `line` is that of the user with `entry` at `place`, which counts from 0: the
/// first three have medals.
pub open spec fn is_line(line: Seq<char>, place: int, entry: (String, RankEntry)) -> bool {
    exists|mark: Seq<char>, time: Seq<char>|
        {
            &&& line == #[trigger] line_of(mark, entry.0@, time)
            &&& place == 0 ==> mark == "🥇"@
            &&& place == 1 ==> mark == "🥈"@
            &&& place == 2 ==> mark == "🥉"@
            &&& place > 2 ==> mark == "▪️"@
            &&& tells(time, entry.1.total_ms as int)
        }
}

/// Whether `reply` shows the users in `top`, one line each and in that order, or says
/// that there are none.
pub open spec fn shows_leaders(reply: Reply, top: Seq<(String, RankEntry)>) -> bool {
    match reply {
        Reply::Ephemeral(message) => {
            &&& top.len() == 0
            &&& message@ == "No voice data recorded yet. Join a voice channel!"@
        },
        Reply::Embed(embed) => {
            &&& top.len() > 0
            &&& embed.title@ == "🏆 Voice Rank"@
            &&& embed.footer@ == "Total accumulated voice channel time"@
            &&& embed.color == (88u8, 101u8, 242u8)
            &&& embed.author is None
            &&& embed.url is None
            &&& embed.thumbnail is None
            &&& embed.description is Some
            &&& exists|lines: Seq<Seq<char>>|
                {
                    &&& embed.description->0@ == #[trigger] text::joined(lines, "\n"@)
                    &&& lines.len() == top.len()
                    &&& forall|i: int|
                        0 <= i < lines.len() ==> is_line(#[trigger] lines[i], i, top[i])
                }
        },
    }
}

proof fn lemma_shows_leaders(reply: Reply, top: Seq<(String, RankEntry)>)
    requires
        reply@ == rank::rank_reply(top),
    ensures
        shows_leaders(reply, top),
{
    if reply is Embed {
        let lines = rank::rank_lines(top);
        assert forall|i: int| 0 <= i < lines.len() implies is_line(#[trigger] lines[i], i, top[i]) by {
            time_texts_tell_the_time(top[i].1.total_ms);
            let mark = rank::medal(i);
            let time = rank::time_text(top[i].1.total_ms);
            assert(lines[i] == line_of(mark, top[i].0@, time));
        }
        assert(reply->Embed_0.description->0@ == text::joined(lines, "\n"@));
    }
}

/// The answer to `/rank` shows every leader, with the voice time that is recorded.
pub proof fn answers_show_the_leaders(top: Vec<(String, RankEntry)>, reply: Reply)
    requires
        call_ensures(rank::leaderboard_reply, (&top,), reply),
    ensures
        shows_leaders(reply, top@),
{
    lemma_shows_leaders(reply, top@);
}

/// `/rank` shows the ten users with the most voice time.
pub proof fn the_ten_leaders_are_shown(store: Store, reply: Reply)
    requires
        store.wf(),
        call_ensures(rank::run, (&store,), reply),
    ensures
        exists|top: Seq<(String, RankEntry)>|
            #[trigger] shows_leaders(reply, top) && crate::store::laws::lead(
                store@.voice_rank,
                10,
                top,
            ),
{
    let top = leaderboard::ranked(store.listed(), 10);
    crate::store::laws::leaderboards_lead(store@.voice_rank, 10, top);
    lemma_shows_leaders(reply, top);
}

/// `a` minutes and, with two digits, `b` seconds.
pub open spec fn clock_time(a: Seq<char>, b: Seq<char>) -> Seq<char> {
    a + ":"@ + b
}

/// Whether `t` tells a duration of `ms` milliseconds in minutes and seconds.
pub open spec fn tells_duration(t: Seq<char>, ms: int) -> bool {
    exists|a: Seq<char>, b: Seq<char>|
        {
            &&& t == #[trigger] clock_time(a, b)
            &&& text::is_number(a)
            &&& b.len() == 2
            &&& '0' <= b[0] <= '5'
            &&& '0' <= b[1] <= '9'
            &&& text::number_shown(a) * 60_000 + text::number_shown(b) * 1000 <= ms
            &&& ms < text::number_shown(a) * 60_000 + (text::number_shown(b) + 1) * 1000
        }
}

/// The text of a duration tells that duration.
pub proof fn duration_texts_tell_the_duration(ms: u32)
    ensures
        tells_duration(now_playing::duration_text(ms), ms as int),
{
    let total = ms as nat / 1000;
    let a = text::decimal(total / 60);
    let b = text::two_digits(total % 60);
    text::decimals_show_their_number(total / 60);
    text::two_digits_show_their_number(total % 60);
    assert(text::number_shown(b) == (b[0] as int - '0' as int) * 10 + (b[1] as int - '0' as int)) by {
        assert(b.drop_last() =~= seq![b[0]]);
        assert(seq![b[0]].drop_last() =~= Seq::<char>::empty());
        reveal_with_fuel(text::number_shown, 3);
    }
    assert(now_playing::duration_text(ms) == clock_time(a, b));
}

/// What is written of a duration tells that duration.
pub proof fn written_durations_are_right(ms: u32, t: String)
    requires
        call_ensures(now_playing::format_duration, (ms,), t),
    ensures
        tells_duration(t@, ms as int),
{
    duration_texts_tell_the_duration(ms);
}

/// A Spotify URI whose first colon after the scheme stands between `before` and
/// `after`.
pub open spec fn uri_of(before: Seq<char>, after: Seq<char>) -> Seq<char> {
    "spotify:"@ + (before + seq![':'] + after)
}

/// Whether `link` is the web player's link for `uri`: the rest of a Spotify URI, with a
/// slash for its first colon. Other texts have none.
pub open spec fn is_web_link(link: Option<Seq<char>>, uri: Seq<char>) -> bool {
    &&& forall|before: Seq<char>, after: Seq<char>|
        uri == #[trigger] uri_of(before, after) && !before.contains(':') ==> link == Some(
            "https://open.spotify.com/"@ + (before + "/"@ + after),
        )
    &&& forall|rest: Seq<char>|
        uri == #[trigger] ("spotify:"@ + rest) && !rest.contains(':') ==> link == Some(
            "https://open.spotify.com/"@ + rest,
        )
    &&& link is Some <==> "spotify:"@.is_prefix_of(uri)
}

proof fn lemma_web_link(uri: Seq<char>)
    ensures
        is_web_link(now_playing::shown(links::web_link(uri)), uri),
        links::web_link(uri).len() == 0 <==> !"spotify:"@.is_prefix_of(uri),
{
    reveal_strlit("https://open.spotify.com/");
    let link = now_playing::shown(links::web_link(uri));
    assert("https://open.spotify.com/"@.len() == 25);
    assert forall|before: Seq<char>, after: Seq<char>|
        uri == #[trigger] uri_of(before, after) && !before.contains(':') implies link == Some(
        "https://open.spotify.com/"@ + (before + "/"@ + after),
    ) by {
        text::what_follows_a_prefix("spotify:"@, before + seq![':'] + after, uri);
        text::the_first_is_replaced(before, ':', after, "/"@);
    }
    assert forall|rest: Seq<char>|
        uri == #[trigger] ("spotify:"@ + rest) && !rest.contains(':') implies link == Some(
        "https://open.spotify.com/"@ + rest,
    ) by {
        text::what_follows_a_prefix("spotify:"@, rest, uri);
        text::the_first_is_replaced(rest, ':', Seq::empty(), "/"@);
    }
}

/// The link to what a Spotify URI names is the web player's; for any other text it is
/// empty.
pub proof fn links_lead_to_the_web_player(uri: &str, url: String)
    requires
        call_ensures(links::spotify_url, (uri,), url),
    ensures
        is_web_link(
            if url@.len() == 0 {
                None
            } else {
                Some(url@)
            },
            uri@,
        ),
{
    lemma_web_link(uri@);
}

/// An album is searched for by its whole name. There is no link without one.
pub proof fn albums_are_searched_for(album: &str, url: String)
    requires
        links::fits(album@),
        call_ensures(links::album_url, (album,), url),
    ensures
        album@.len() == 0 ==> url@.len() == 0,
        album@.len() > 0 ==> url@ == links::url_with_segment(
            "https://open.spotify.com/search/"@,
            album@,
        )->0,
{
}

/// Whether an album fits into a link is decided by how long the link gets: printable
/// ASCII takes one byte unless it means something in a link, other ASCII three, and any
/// other character three for each byte of its UTF-8. Tabs and line breaks take none.
pub proof fn characters_take_their_bytes(c: char)
    ensures
        links::escaped_len(c) == 0 <==> c == '\t' || c == '\n' || c == '\r',
        'a' <= c <= 'z' || 'A' <= c <= 'Z' || '0' <= c <= '9' ==> links::escaped_len(c) == 1,
        seq!['"', '#', '%', '/', '<', '>', '?', '\\', '`', '{', '}'].contains(c)
            ==> links::escaped_len(c) == 3,
        '!' <= c <= '~' && !seq!['"', '#', '%', '/', '<', '>', '?', '\\', '`', '{', '}'].contains(c)
            ==> links::escaped_len(c) == 1,
        c <= ' ' && c != '\t' && c != '\n' && c != '\r' ==> links::escaped_len(c) == 3,
        c as u32 == 0x7f ==> links::escaped_len(c) == 3,
        c as u32 >= 0x80 ==> links::escaped_len(c) == 3 * vstd::utf8::encode_scalar(
            c as u32,
        ).len(),
        links::escaped_len(c) <= 12,
{
    let special = seq!['"', '#', '%', '/', '<', '>', '?', '\\', '`', '{', '}'];
    assert(special[0] == '"' && special[1] == '#' && special[2] == '%' && special[3] == '/');
    assert(special[4] == '<' && special[5] == '>' && special[6] == '?' && special[7] == '\\');
    assert(special[8] == '`' && special[9] == '{' && special[10] == '}');
}

/// The bytes of a segment add up.
pub proof fn segments_add_up(a: Seq<char>, b: Seq<char>, c: char)
    ensures
        links::segment_len(seq![c]) == links::escaped_len(c),
        links::segment_len(a + b) == links::segment_len(a) + links::segment_len(b),
        links::segment_len(a) <= 12 * a.len(),
    decreases a.len() + b.len(),
{
    assert(seq![c].drop_last() =~= Seq::<char>::empty());
    assert(links::segment_len(seq![c].drop_last()) == 0);
    if a.len() > 0 {
        segments_add_up(a.drop_last(), Seq::empty(), c);
    }
    if b.len() > 0 {
        segments_add_up(a, b.drop_last(), c);
        assert((a + b).drop_last() =~= a + b.drop_last());
    } else {
        assert(a + b =~= a);
    }
}

/// An album fits as long as its link has no more bytes than a URL can have; every album
/// of up to 350 million characters does.
pub proof fn albums_fit(album: &str, fit: bool)
    requires
        call_ensures(links::album_fits, (album,), fit),
    ensures
        fit <==> "https://open.spotify.com/search/"@.len() + 1 + links::segment_len(album@)
            <= 0xffff_ffff,
        album@.len() <= 350_000_000 ==> fit,
{
    reveal_strlit("https://open.spotify.com/search/");
    assert("https://open.spotify.com/search/"@.len() == 32);
    segments_add_up(album@, Seq::empty(), 'a');
}

/// Who is heard: the artists of a track with commas between, those that a local file
/// names, or the show of an episode.
pub open spec fn is_artist(artist: Seq<char>, fields: TrackFields) -> bool {
    match fields {
        TrackFields::Track { artists, .. } => artist == text::joined(
            Seq::new(artists@.len(), |i: int| artists@[i]@),
            ", "@,
        ),
        TrackFields::Local { artists: Some(names), .. } => artist == names@,
        TrackFields::Local { artists: None, .. } => artist == "Unknown artist"@,
        TrackFields::Episode { show_name } => artist == show_name@,
    }
}

/// The album of a track or a local file, if it names one.
pub open spec fn is_album(album: Seq<char>, fields: TrackFields) -> bool {
    match fields {
        TrackFields::Track { album: name, .. } => album == name@,
        TrackFields::Local { album: Some(name), .. } => album == name@,
        TrackFields::Local { album: None, .. } => album.len() == 0,
        TrackFields::Episode { .. } => album.len() == 0,
    }
}

/// The album is the one that the item names.
pub proof fn albums_are_named(fields: TrackFields, album: String)
    requires
        call_ensures(now_playing::album_name, (&fields,), album),
    ensures
        is_album(album@, fields),
{
}

/// Whether the cover at `i` is at least as wide as all others, and wider than those
/// behind it.
pub open spec fn leads_covers(covers: Seq<Cover>, i: int) -> bool {
    &&& 0 <= i < covers.len()
    &&& forall|j: int| 0 <= j < i ==> (#[trigger] covers[j]).width <= covers[i].width
    &&& forall|j: int| i < j < covers.len() ==> (#[trigger] covers[j]).width < covers[i].width
}

proof fn lemma_cover(covers: Seq<Cover>)
    requires
        covers.len() > 0,
    ensures
        exists|i: int| leads_covers(covers, i) && now_playing::is_widest(covers, i),
    decreases covers.len(),
{
    let last = covers.len() - 1;
    if covers.len() == 1 {
        assert(leads_covers(covers, 0));
        assert(now_playing::is_widest(covers, 0));
    } else {
        let front = covers.drop_last();
        lemma_cover(front);
        let k = choose|k: int| leads_covers(front, k) && now_playing::is_widest(front, k);
        assert(forall|j: int| 0 <= j < front.len() ==> #[trigger] covers[j] == front[j]);
        if covers[last].width >= covers[k].width {
            assert(leads_covers(covers, last));
            assert(now_playing::is_widest(covers, last));
        } else {
            assert(leads_covers(covers, k));
            assert(now_playing::is_widest(covers, k));
        }
    }
}

proof fn lemma_cover_of(covers: Seq<Cover>, i: int)
    requires
        leads_covers(covers, i),
    ensures
        now_playing::cover_of(covers) == covers[i].url@,
{
    lemma_cover(covers);
    let k = choose|k: int| now_playing::is_widest(covers, k);
    assert(now_playing::is_widest(covers, k));
    assert(covers[i].width <= covers[k].width);
    if k < i {
        assert(covers[i].width < covers[k].width);
    } else if i < k {
        assert(covers[k].width < covers[i].width);
    }
}

/// The widest cover is shown, of several the last, and there is one wherever there are
/// covers.
pub proof fn the_widest_cover_is_shown(covers: Vec<Cover>, url: String)
    requires
        call_ensures(now_playing::cover_url, (&covers,), url),
    ensures
        covers@.len() == 0 ==> url@.len() == 0,
        covers@.len() > 0 ==> exists|i: int| leads_covers(covers@, i) && covers@[i].url@ == url@,
        forall|i: int| #[trigger] leads_covers(covers@, i) ==> covers@[i].url@ == url@,
{
    assert forall|i: int| #[trigger] leads_covers(covers@, i) implies covers@[i].url@ == url@ by {
        lemma_cover_of(covers@, i);
    }
    if covers@.len() > 0 {
        lemma_cover(covers@);
    }
}

/// Whether `status` and `embed` show `item`, played on `device`, with `album_url` as the
/// link to its album.
pub open spec fn shows_track(
    status: Seq<char>,
    embed: Embed,
    item: TrackInfo,
    device: Seq<char>,
    album_url: Seq<char>,
) -> bool {
    &&& embed.color == (30u8, 215u8, 96u8)
    &&& embed.author is Some
    &&& is_artist(embed.author->0@, item.fields)
    &&& status == item.name@ + " · "@ + embed.author->0@
    &&& item.is_explicit ==> embed.title@ == item.name@ + " 🅴"@
    &&& !item.is_explicit ==> embed.title@ == item.name@
    &&& is_web_link(
        match embed.url {
            Some(url) => Some(url@),
            None => None,
        },
        item.uri@,
    )
    &&& forall|album: Seq<char>| #[trigger]
        is_album(album, item.fields) ==> {
            &&& album.len() == 0 ==> embed.description is None
            &&& album.len() > 0 ==> embed.description is Some && embed.description->0@ == if
                album_url.len() == 0 {
                "*"@ + album + "*"@
            } else {
                "[*"@ + album + "*]("@ + album_url + ")"@
            }
        }
    &&& exists|t: Seq<char>|
        embed.footer@ == "🎧 "@ + device + "  ·  "@ + t && #[trigger] tells_duration(
            t,
            item.duration_ms as int,
        )
    &&& item.covers@.len() == 0 ==> embed.thumbnail is None
    &&& forall|i: int| #[trigger]
        leads_covers(item.covers@, i) ==> {
            &&& embed.thumbnail is Some <==> item.covers@[i].url@.len() > 0
            &&& embed.thumbnail is Some ==> embed.thumbnail->0@ == item.covers@[i].url@
        }
}

proof fn lemma_shows_track(
    status: Seq<char>,
    embed: Embed,
    item: TrackInfo,
    device: Seq<char>,
    album_url: Seq<char>,
)
    requires
        status == now_playing::display(item, device, album_url).status,
        embed@ == now_playing::display(item, device, album_url).embed,
    ensures
        shows_track(status, embed, item, device, album_url),
{
    let shown = now_playing::display(item, device, album_url).embed;
    assert(is_artist(embed.author->0@, item.fields)) by {
        if let TrackFields::Track { artists, .. } = item.fields {
            assert(text::texts(artists@) =~= Seq::new(artists@.len(), |i: int| artists@[i]@));
        }
    }
    lemma_web_link(item.uri@);
    reveal_strlit("");
    assert(item.name@ + ""@ =~= item.name@);
    duration_texts_tell_the_duration(item.duration_ms);
    let t = now_playing::duration_text(item.duration_ms);
    assert(embed.footer@ == "🎧 "@ + device + "  ·  "@ + t && tells_duration(
        t,
        item.duration_ms as int,
    ));
    assert forall|album: Seq<char>| #[trigger] is_album(album, item.fields) implies album
        =~= now_playing::album_of(item.fields) by {}
    assert forall|i: int| #[trigger] leads_covers(item.covers@, i) implies (embed.thumbnail is Some
        <==> item.covers@[i].url@.len() > 0) && (embed.thumbnail is Some
        ==> embed.thumbnail->0@ == item.covers@[i].url@) by {
        lemma_cover_of(item.covers@, i);
    }
}

/// What is shown of a track is what the player says of it, whatever kind of audio it is
/// and whatever else it says.
pub proof fn tracks_are_shown(
    item: TrackInfo,
    device_name: &str,
    album_url: &str,
    shown: NowPlaying,
)
    requires
        call_ensures(now_playing::now_playing, (&item, device_name, album_url), shown),
    ensures
        shows_track(shown.status@, shown.embed, item, device_name@, album_url@),
{
    lemma_shows_track(shown.status@, shown.embed, item, device_name@, album_url@);
}

/// That a track is explicit shows in its title, and nowhere else.
pub proof fn explicitness_shows_in_the_title(
    item: TrackInfo,
    plain: TrackInfo,
    device: Seq<char>,
    album_url: Seq<char>,
)
    requires
        item.is_explicit,
        plain == (TrackInfo { is_explicit: false, ..item }),
    ensures
        ({
            let a = now_playing::display(item, device, album_url);
            let b = now_playing::display(plain, device, album_url);
            &&& a.status == b.status
            &&& a.embed.title == b.embed.title + " 🅴"@
            &&& a.embed == (crate::bot::embed::EmbedView { title: a.embed.title, ..b.embed })
        }),
{
    reveal_strlit("");
    assert(plain.name@ + ""@ =~= plain.name@);
}

/// Every track change is shown, with a link that searches for its album if it names one.
/// When playback stops or no reports will come any more, the status is cleared, and any
/// other report changes nothing.
pub proof fn reports_are_reacted_to(notice: PlayerNotice, device_name: &str, reaction: Reaction)
    requires
        notice matches PlayerNotice::TrackChanged(item) ==> links::fits(
            now_playing::album_of(item.fields),
        ),
        call_ensures(now_playing::react, (&notice, device_name), reaction),
    ensures
        match notice {
            PlayerNotice::TrackChanged(item) => {
                &&& reaction.status is Listening
                &&& reaction.embed is Some
                &&& forall|album: Seq<char>| #[trigger]
                    is_album(album, item.fields) ==> shows_track(
                        reaction.status->Listening_0@,
                        reaction.embed->0,
                        item,
                        device_name@,
                        if album.len() == 0 {
                            Seq::empty()
                        } else {
                            links::url_with_segment("https://open.spotify.com/search/"@, album)->0
                        },
                    )
            },
            PlayerNotice::Stopped => reaction.status is Cleared && reaction.embed is None,
            PlayerNotice::Closed => reaction.status is Cleared && reaction.embed is None,
            PlayerNotice::Other => reaction.status is Unchanged && reaction.embed is None,
        },
{
    if let PlayerNotice::TrackChanged(item) = notice {
        assert forall|album: Seq<char>| #[trigger] is_album(album, item.fields) implies shows_track(
            reaction.status->Listening_0@,
            reaction.embed->0,
            item,
            device_name@,
            if album.len() == 0 {
                Seq::empty()
            } else {
                links::url_with_segment("https://open.spotify.com/search/"@, album)->0
            },
        ) by {
            assert(album =~= now_playing::album_of(item.fields));
            lemma_shows_track(
                reaction.status->Listening_0@,
                reaction.embed->0,
                item,
                device_name@,
                links::album_search(album),
            );
        }
    }
}

/// Whether `token` is that of the Jam behind `url`: what follows the scheme of a Jam
/// link, or the whole text where it has none.
pub open spec fn is_token(token: Seq<char>, url: Seq<char>) -> bool {
    ||| url == "spotify://socialsession/"@ + token
    ||| url == token && !"spotify://socialsession/"@.is_prefix_of(url)
}

proof fn lemma_token(token: Seq<char>, url: Seq<char>)
    requires
        is_token(token, url),
    ensures
        jam::jam_token(url) == token,
{
    text::what_follows_a_prefix("spotify://socialsession/"@, token, url);
}

/// A Jam is announced with a link to it unless it was announced before, by whatever kind
/// of link, and is remembered.
pub proof fn jams_are_announced(
    announcer: &mut JamAnnouncer,
    url: &str,
    token: Seq<char>,
    announced: Option<JamAnnouncement>,
)
    requires
        is_token(token, url@),
        call_ensures(JamAnnouncer::announce, (announcer, url), announced),
    ensures
        announced is None <==> old(announcer)@.sent.contains(token),
        announced is None ==> final(announcer)@ == old(announcer)@,
        announced matches Some(it) ==> {
            &&& final(announcer)@.sent == old(announcer)@.sent.push(token)
            &&& final(announcer)@.bot_name == old(announcer)@.bot_name
            &&& it.button_label@ == "Join the Jam"@
            &&& it.button_url@ == "https://open.spotify.com/socialsession/"@ + token
            &&& it.embed.title@ == "A Jam just started!"@
            &&& it.embed.footer@ == "Spotify Jam"@
            &&& it.embed.color == (30u8, 215u8, 96u8)
            &&& it.embed.author is None
            &&& it.embed.url is None
            &&& it.embed.thumbnail is None
            &&& it.embed.description is Some
            &&& it.embed.description->0@ == "**"@ + old(announcer)@.bot_name
                + "** is hosting a listening session.\nJoin and listen along in sync with everyone."@
        },
{
    lemma_token(token, url@);
}

/// An announcer begins without a Jam, in the name of its bot.
pub proof fn announcers_begin_anew(bot_name: String, announcer: JamAnnouncer)
    requires
        call_ensures(JamAnnouncer::new, (bot_name,), announcer),
    ensures
        announcer@.bot_name == bot_name@,
        announcer@.sent.len() == 0,
{
}

/// Two links to one Jam give one announcement.
pub proof fn a_jam_is_announced_once(
    first: &mut JamAnnouncer,
    second: &mut JamAnnouncer,
    url: &str,
    other: &str,
    token: Seq<char>,
    announced: Option<JamAnnouncement>,
    again: Option<JamAnnouncement>,
)
    requires
        is_token(token, url@),
        is_token(token, other@),
        call_ensures(JamAnnouncer::announce, (first, url), announced),
        *old(second) == *final(first),
        call_ensures(JamAnnouncer::announce, (second, other), again),
    ensures
        again is None,
{
    lemma_token(token, url@);
    lemma_token(token, other@);
    let sent = final(first)@.sent;
    if announced is Some {
        assert(sent[sent.len() - 1] == token);
    }
}

} // verus!
