//! What is shown of the track that plays.

use crate::bot::commands::links;
use crate::bot::embed::{Embed, EmbedView};
use crate::text;
use vstd::prelude::*;

verus! {

/// A cover image.
#[derive(Debug)]
pub struct Cover {
    pub url: String,
    pub width: i32,
}

/// What depends on the kind of audio.
#[derive(Debug)]
pub enum TrackFields {
    Track { artists: Vec<String>, album: String },
    Local { artists: Option<String>, album: Option<String> },
    Episode { show_name: String },
}

/// What the player says of a track.
#[derive(Debug)]
pub struct TrackInfo {
    pub name: String,
    pub fields: TrackFields,
    pub covers: Vec<Cover>,
    pub uri: String,
    pub duration_ms: u32,
    pub is_explicit: bool,
}

/// What is shown of a track: the bot's status and an embed.
#[derive(Debug, PartialEq, Eq)]
pub struct NowPlaying {
    pub status: String,
    pub embed: Embed,
}

/// What is shown of a track.
#[verifier::ext_equal]
pub struct NowPlayingView {
    pub status: Seq<char>,
    pub embed: EmbedView,
}

impl View for NowPlaying {
    type V = NowPlayingView;

    open spec fn view(&self) -> NowPlayingView {
        NowPlayingView { status: self.status@, embed: self.embed@ }
    }
}

/// Who is heard.
pub open spec fn artist_of(fields: TrackFields) -> Seq<char> {
    match fields {
        TrackFields::Track { artists, .. } => text::joined(text::texts(artists@), ", "@),
        TrackFields::Local { artists, .. } => match artists {
            Some(names) => names@,
            None => "Unknown artist"@,
        },
        TrackFields::Episode { show_name } => show_name@,
    }
}

/// The album; empty where there is none.
pub open spec fn album_of(fields: TrackFields) -> Seq<char> {
    match fields {
        TrackFields::Track { album, .. } => album@,
        TrackFields::Local { album, .. } => match album {
            Some(name) => name@,
            None => Seq::empty(),
        },
        TrackFields::Episode { .. } => Seq::empty(),
    }
}

/// Whether the cover at `i` is the widest, and the last of those that are.
pub open spec fn is_widest(covers: Seq<Cover>, i: int) -> bool {
    &&& 0 <= i < covers.len()
    &&& forall|j: int| 0 <= j < covers.len() ==> (#[trigger] covers[j]).width <= covers[i].width
    &&& forall|j: int| i < j < covers.len() ==> (#[trigger] covers[j]).width < covers[i].width
}

/// The link to the widest cover; empty where there is none.
pub open spec fn cover_of(covers: Seq<Cover>) -> Seq<char> {
    if covers.len() == 0 {
        Seq::empty()
    } else {
        covers[choose|i: int| is_widest(covers, i)].url@
    }
}

/// Minutes and seconds, as in `3:07`.
pub open spec fn duration_text(ms: u32) -> Seq<char> {
    let total = ms as nat / 1000;
    text::decimal(total / 60) + ":"@ + text::two_digits(total % 60)
}

/// `s`, if there is anything in it.
pub open spec fn shown(s: Seq<char>) -> Option<Seq<char>> {
    if s.len() == 0 {
        None
    } else {
        Some(s)
    }
}

/// The line about the album, linked if there is a link.
pub open spec fn album_line(album: Seq<char>, album_url: Seq<char>) -> Option<Seq<char>> {
    if album.len() == 0 {
        None
    } else if album_url.len() == 0 {
        Some("*"@ + album + "*"@)
    } else {
        Some("[*"@ + album + "*]("@ + album_url + ")"@)
    }
}

/// What is shown of `item`, played on `device_name`, when `album_url` links to its
/// album.
pub open spec fn display(
    item: TrackInfo,
    device_name: Seq<char>,
    album_url: Seq<char>,
) -> NowPlayingView {
    NowPlayingView {
        status: item.name@ + " · "@ + artist_of(item.fields),
        embed: EmbedView {
            author: Some(artist_of(item.fields)),
            title: item.name@ + if item.is_explicit {
                " 🅴"@
            } else {
                ""@
            },
            url: shown(links::web_link(item.uri@)),
            description: album_line(album_of(item.fields), album_url),
            color: (30, 215, 96),
            footer: "🎧 "@ + device_name + "  ·  "@ + duration_text(item.duration_ms),
            thumbnail: shown(cover_of(item.covers@)),
        },
    }
}

fn artist_name(fields: &TrackFields) -> (s: String)
    ensures
        s@ == artist_of(*fields),
{
    match fields {
        TrackFields::Track { artists, album: _ } => text::join(artists, ", "),
        TrackFields::Local { artists, album: _ } => match artists {
            Some(names) => names.clone(),
            None => "Unknown artist".to_owned(),
        },
        TrackFields::Episode { show_name } => show_name.clone(),
    }
}

/// The album; empty where there is none.
pub fn album_name(fields: &TrackFields) -> (s: String)
    ensures
        s@ == album_of(*fields),
{
    match fields {
        TrackFields::Track { artists: _, album } => album.clone(),
        TrackFields::Local { artists: _, album } => match album {
            Some(name) => name.clone(),
            None => String::new(),
        },
        TrackFields::Episode { show_name: _ } => String::new(),
    }
}

/// The link to the widest cover, of several the last; empty where there is none.
pub fn cover_url(covers: &Vec<Cover>) -> (url: String)
    ensures
        url@ == cover_of(covers@),
{
    if covers.len() == 0 {
        return String::new();
    }
    let mut best: usize = 0;
    let mut i: usize = 1;
    while i < covers.len()
        invariant
            best < i <= covers@.len(),
            forall|j: int| 0 <= j < i ==> (#[trigger] covers@[j]).width
                <= covers@[best as int].width,
            forall|j: int| best < j < i ==> (#[trigger] covers@[j]).width
                < covers@[best as int].width,
        decreases covers@.len() - i,
    {
        if covers[i].width >= covers[best].width {
            best = i;
        }
        i += 1;
    }
    proof {
        assert(is_widest(covers@, best as int));
        let k = choose|k: int| is_widest(covers@, k);
        assert(is_widest(covers@, k));
        assert(covers@[k].width <= covers@[best as int].width);
        assert(covers@[best as int].width <= covers@[k].width);
    }
    covers[best].url.clone()
}

/// Minutes and seconds, as in `3:07`.
pub fn format_duration(ms: u32) -> (s: String)
    ensures
        s@ == duration_text(ms),
{
    let total: u64 = (ms / 1000) as u64;
    let mut s = String::new();
    text::push_decimal(&mut s, total / 60);
    s.append(":");
    text::push_two_digits(&mut s, total % 60);
    assert(s@ =~= duration_text(ms));
    s
}

fn if_shown(s: String) -> (r: Option<String>)
    ensures
        text::text_of(r) == shown(s@),
{
    if s.as_str().is_empty() {
        None
    } else {
        Some(s)
    }
}

fn album_description(album: &str, album_url: &str) -> (r: Option<String>)
    ensures
        text::text_of(r) == album_line(album@, album_url@),
{
    if album.is_empty() {
        return None;
    }
    let mut line = String::new();
    if album_url.is_empty() {
        line.append("*");
        line.append(album);
        line.append("*");
        assert(line@ =~= "*"@ + album@ + "*"@);
    } else {
        line.append("[*");
        line.append(album);
        line.append("*](");
        line.append(album_url);
        line.append(")");
        assert(line@ =~= "[*"@ + album@ + "*]("@ + album_url@ + ")"@);
    }
    Some(line)
}

/// What is shown of `item`, played on `device_name`, when `album_url` links to its
/// album.
pub fn now_playing(item: &TrackInfo, device_name: &str, album_url: &str) -> (shown: NowPlaying)
    ensures
        shown@ == display(*item, device_name@, album_url@),
{
    let artist = artist_name(&item.fields);
    let album = album_name(&item.fields);
    let mut status = item.name.clone();
    status.append(" · ");
    status.append(artist.as_str());
    let mut title = item.name.clone();
    title.append(if item.is_explicit { " 🅴" } else { "" });
    let mut footer = "🎧 ".to_owned();
    footer.append(device_name);
    footer.append("  ·  ");
    footer.append(format_duration(item.duration_ms).as_str());
    NowPlaying {
        status,
        embed: Embed {
            author: Some(artist),
            title,
            url: if_shown(links::spotify_url(item.uri.as_str())),
            description: album_description(album.as_str(), album_url),
            color: (30, 215, 96),
            footer,
            thumbnail: if_shown(cover_url(&item.covers)),
        },
    }
}

/// What the player reports.
#[derive(Debug)]
pub enum PlayerNotice {
    TrackChanged(TrackInfo),
    Stopped,
    /// Anything else.
    Other,
    /// No reports will come any more.
    Closed,
}

/// The bot's status.
#[derive(Debug, PartialEq, Eq)]
pub enum Status {
    /// Stays as it is.
    Unchanged,
    /// Nothing is shown.
    Cleared,
    /// Listening to this.
    Listening(String),
}

/// What the bot does about a report: its status, and an embed to send.
#[derive(Debug, PartialEq, Eq)]
pub struct Reaction {
    pub status: Status,
    pub embed: Option<Embed>,
}

/// What a reaction is.
#[verifier::ext_equal]
pub enum ReactionView {
    Nothing,
    ClearStatus,
    Show(NowPlayingView),
}

impl Reaction {
    /// Whether the reaction is what `expected` says.
    pub open spec fn agrees_with(self, expected: ReactionView) -> bool {
        match expected {
            ReactionView::Nothing => self.status is Unchanged && self.embed is None,
            ReactionView::ClearStatus => self.status is Cleared && self.embed is None,
            ReactionView::Show(shown) => {
                &&& self.status matches Status::Listening(status) && status@ == shown.status
                &&& self.embed matches Some(embed) && embed@ == shown.embed
            },
        }
    }
}

/// What the bot does about `notice`, when the player is `device_name`.
pub open spec fn reaction_to(notice: PlayerNotice, device_name: Seq<char>) -> ReactionView {
    match notice {
        PlayerNotice::TrackChanged(item) => ReactionView::Show(
            display(item, device_name, links::album_search(album_of(item.fields))),
        ),
        PlayerNotice::Stopped | PlayerNotice::Closed => ReactionView::ClearStatus,
        PlayerNotice::Other => ReactionView::Nothing,
    }
}

/// What the bot does about `notice`, when the player is `device_name`.
pub fn react(notice: &PlayerNotice, device_name: &str) -> (reaction: Reaction)
    requires
        notice matches PlayerNotice::TrackChanged(item) ==> links::fits(album_of(item.fields)),
    ensures
        reaction.agrees_with(reaction_to(*notice, device_name@)),
{
    match notice {
        PlayerNotice::TrackChanged(item) => {
            let album = album_name(&item.fields);
            let album_url = links::album_url(album.as_str());
            let shown = now_playing(item, device_name, album_url.as_str());
            Reaction { status: Status::Listening(shown.status), embed: Some(shown.embed) }
        },
        PlayerNotice::Stopped => Reaction { status: Status::Cleared, embed: None },
        PlayerNotice::Closed => Reaction { status: Status::Cleared, embed: None },
        PlayerNotice::Other => Reaction { status: Status::Unchanged, embed: None },
    }
}

} // verus!
