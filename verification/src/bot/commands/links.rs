//! Links into the Spotify web player.

use crate::text;
use vstd::prelude::*;

verus! {

/// The most bytes that a URL can have.
pub const MAX_URL: u64 = 0xffff_ffff;

/// The bytes of the search page's link and of the slash before a segment.
pub const SEARCH_LEN: u64 = 33;

/// Whether `c` stands in a segment of a link as it is: it is printable ASCII, and does
/// not mean anything in a link.
pub open spec fn is_plain(c: char) -> bool {
    &&& '!' <= c <= '~'
    &&& c != '"' && c != '#' && c != '%' && c != '/' && c != '<' && c != '>' && c != '?'
    &&& c != '\\' && c != '`' && c != '{' && c != '}'
}

/// The bytes that `c` takes in a segment of a link: three for each byte of its UTF-8
/// that is percent-encoded. Tabs and line breaks are left out.
pub open spec fn escaped_len(c: char) -> nat {
    if c == '\t' || c == '\n' || c == '\r' {
        0
    } else if is_plain(c) {
        1
    } else if (c as u32) < 0x80 {
        3
    } else if (c as u32) < 0x800 {
        6
    } else if (c as u32) < 0x1_0000 {
        9
    } else {
        12
    }
}

/// The bytes that `segment` takes in a link.
pub open spec fn segment_len(segment: Seq<char>) -> nat
    decreases segment.len(),
{
    if segment.len() == 0 {
        0
    } else {
        segment_len(segment.drop_last()) + escaped_len(segment.last())
    }
}

/// Whether the link that searches for `album` is no longer than a URL can be.
pub open spec fn fits(album: Seq<char>) -> bool {
    SEARCH_LEN + segment_len(album) <= MAX_URL
}

proof fn lemma_segment_len_grows(segment: Seq<char>, i: int)
    requires
        0 <= i <= segment.len(),
    ensures
        segment_len(segment.take(i)) <= segment_len(segment),
    decreases segment.len() - i,
{
    if i < segment.len() {
        lemma_segment_len_grows(segment, i + 1);
        assert(segment.take(i + 1).drop_last() =~= segment.take(i));
    } else {
        assert(segment.take(i) =~= segment);
    }
}

/// The bytes that `c` takes in a segment of a link.
fn char_len(c: char) -> (len: u64)
    ensures
        len == escaped_len(c),
        len <= 12,
{
    if c == '\t' || c == '\n' || c == '\r' {
        return 0;
    }
    let code: u32 = c as u32;
    if code < 0x80 {
        let special = c == '"' || c == '#' || c == '%' || c == '/' || c == '<' || c == '>' || c
            == '?' || c == '\\' || c == '`' || c == '{' || c == '}';
        if code > 0x20 && code < 0x7f && !special {
            1
        } else {
            3
        }
    } else if code < 0x800 {
        6
    } else if code < 0x1_0000 {
        9
    } else {
        12
    }
}

/// Whether the link that searches for `album` is no longer than a URL can be.
pub fn album_fits(album: &str) -> (fit: bool)
    ensures
        fit == fits(album@),
{
    let n: usize = album.unicode_len();
    let mut i: usize = 0;
    let mut len: u64 = SEARCH_LEN;
    while i < n
        invariant
            i <= n,
            n == album@.len(),
            len == SEARCH_LEN + segment_len(album@.take(i as int)),
            len <= MAX_URL,
        decreases n - i,
    {
        len += char_len(album.get_char(i));
        assert(album@.take(i + 1).drop_last() =~= album@.take(i as int));
        i += 1;
        if len > MAX_URL {
            proof {
                lemma_segment_len_grows(album@, i as int);
            }
            return false;
        }
    }
    assert(album@.take(i as int) =~= album@);
    true
}

/// The URL `base` with `segment` appended to its path, or nothing where `base` is
/// no URL that has a path of segments.
pub uninterp spec fn url_with_segment(base: Seq<char>, segment: Seq<char>) -> Option<Seq<char>>;

/// `Url::parse` of `base`, `PathSegmentsMut::push` of `segment`, and the URL as
/// text: a result that depends on the two texts alone. The `url` crate
/// percent-encodes the segment and skips one that is `.` or `..`; the text that
/// comes out is not stated here. The search page of the web player is a URL with a
/// path. The crate panics where the URL is longer than a URL can be.
#[verifier::external_body]
fn append_segment(base: &str, segment: &str) -> (url: Option<String>)
    requires
        base@ == "https://open.spotify.com/search/"@,
        fits(segment@),
    ensures
        text::text_of(url) == url_with_segment(base@, segment@),
        url is Some,
{
    let mut parsed = url::Url::parse(base).ok()?;
    parsed.path_segments_mut().ok()?.push(segment);
    Some(parsed.to_string())
}

/// The link that searches for `album`.
pub open spec fn album_search(album: Seq<char>) -> Seq<char> {
    if album.len() == 0 {
        Seq::empty()
    } else {
        url_with_segment("https://open.spotify.com/search/"@, album)->0
    }
}

/// The link that searches for `album`; empty where there is no album.
pub fn album_url(album: &str) -> (url: String)
    requires
        fits(album@),
    ensures
        url@ == album_search(album@),
{
    if album.is_empty() {
        return String::new();
    }
    match append_segment("https://open.spotify.com/search/", album) {
        Some(url) => url,
        None => String::new(),
    }
}

/// The web player's link to what a Spotify URI names.
pub open spec fn web_link(uri: Seq<char>) -> Seq<char> {
    match text::without_prefix(uri, "spotify:"@) {
        Some(rest) => "https://open.spotify.com/"@ + text::first_replaced(rest, ':', "/"@),
        None => Seq::empty(),
    }
}

/// The web player's link to what a Spotify URI names; empty for any other text.
pub fn spotify_url(uri: &str) -> (url: String)
    ensures
        url@ == web_link(uri@),
{
    match text::strip_prefix(uri, "spotify:") {
        Some(rest) => "https://open.spotify.com/".to_owned().concat(
            text::replace_first(rest.as_str(), ':', "/").as_str(),
        ),
        None => String::new(),
    }
}

} // verus!
