//! Jam invites: each is announced once.

use crate::bot::embed::{Embed, EmbedView};
use crate::text;
use vstd::prelude::*;

verus! {

/// The token of a Jam, given by its link.
pub open spec fn jam_token(url: Seq<char>) -> Seq<char> {
    match text::without_prefix(url, "spotify://socialsession/"@) {
        Some(token) => token,
        None => url,
    }
}

/// The announcement of a Jam.
#[derive(Debug, PartialEq, Eq)]
pub struct JamAnnouncement {
    pub embed: Embed,
    pub button_label: String,
    pub button_url: String,
}

/// What an announcement shows.
#[verifier::ext_equal]
pub struct JamView {
    pub embed: EmbedView,
    pub button_label: Seq<char>,
    pub button_url: Seq<char>,
}

impl View for JamAnnouncement {
    type V = JamView;

    open spec fn view(&self) -> JamView {
        JamView {
            embed: self.embed@,
            button_label: self.button_label@,
            button_url: self.button_url@,
        }
    }
}

/// The announcement of the Jam with `token`, hosted by `bot_name`.
pub open spec fn invite(bot_name: Seq<char>, token: Seq<char>) -> JamView {
    JamView {
        embed: EmbedView {
            author: None,
            title: "A Jam just started!"@,
            url: None,
            description: Some(
                "**"@ + bot_name
                    + "** is hosting a listening session.\nJoin and listen along in sync with everyone."@,
            ),
            color: (30, 215, 96),
            footer: "Spotify Jam"@,
            thumbnail: None,
        },
        button_label: "Join the Jam"@,
        button_url: "https://open.spotify.com/socialsession/"@ + token,
    }
}

/// Announces the Jams of a session.
pub struct JamAnnouncer {
    bot_name: String,
    sent: Vec<String>,
}

/// What an announcer remembers.
#[verifier::ext_equal]
pub struct AnnouncerView {
    pub bot_name: Seq<char>,
    /// The tokens that were announced, in order.
    pub sent: Seq<Seq<char>>,
}

impl View for JamAnnouncer {
    type V = AnnouncerView;

    closed spec fn view(&self) -> AnnouncerView {
        AnnouncerView { bot_name: self.bot_name@, sent: text::texts(self.sent@) }
    }
}

/// What is announced of `url`, when the tokens in `sent` were announced before.
pub open spec fn announced(a: AnnouncerView, url: Seq<char>) -> Option<JamView> {
    if a.sent.contains(jam_token(url)) {
        None
    } else {
        Some(invite(a.bot_name, jam_token(url)))
    }
}

/// The announcer after `url`.
pub open spec fn after_link(a: AnnouncerView, url: Seq<char>) -> AnnouncerView {
    if a.sent.contains(jam_token(url)) {
        a
    } else {
        AnnouncerView { sent: a.sent.push(jam_token(url)), ..a }
    }
}

/// The announcer after all of `urls`.
pub open spec fn after_links(a: AnnouncerView, urls: Seq<Seq<char>>) -> AnnouncerView
    decreases urls.len(),
{
    if urls.len() == 0 {
        a
    } else {
        after_link(after_links(a, urls.drop_last()), urls.last())
    }
}

/// Over any links, the token of each link is announced, and none twice.
pub proof fn each_jam_is_announced_once(a: AnnouncerView, urls: Seq<Seq<char>>)
    requires
        a.sent.no_duplicates(),
    ensures
        after_links(a, urls).sent.no_duplicates(),
        a.sent.is_prefix_of(after_links(a, urls).sent),
        forall|i: int|
            0 <= i < urls.len() ==> after_links(a, urls).sent.contains(
                jam_token(#[trigger] urls[i]),
            ),
        forall|t: Seq<char>| #[trigger]
            after_links(a, urls).sent.contains(t) ==> a.sent.contains(t) || exists|i: int|
                0 <= i < urls.len() && t == jam_token(#[trigger] urls[i]),
    decreases urls.len(),
{
    if urls.len() == 0 {
        assert(a.sent =~= a.sent.take(a.sent.len() as int));
    } else {
        let front = urls.drop_last();
        let before = after_links(a, front);
        let after = after_links(a, urls);
        let token = jam_token(urls.last());
        each_jam_is_announced_once(a, front);
        assert(a.sent =~= after.sent.take(a.sent.len() as int));
        assert forall|t: Seq<char>| before.sent.contains(t) implies after.sent.contains(t) by {
            let k = choose|k: int| 0 <= k < before.sent.len() && before.sent[k] == t;
            assert(after.sent[k] == t);
        }
        assert(after.sent.contains(token)) by {
            if !before.sent.contains(token) {
                assert(after.sent[after.sent.len() - 1] == token);
            }
        }
        assert forall|i: int| 0 <= i < urls.len() implies after.sent.contains(
            jam_token(#[trigger] urls[i]),
        ) by {
            if i < front.len() {
                assert(front[i] == urls[i]);
            }
        }
        assert forall|t: Seq<char>| #[trigger] after.sent.contains(t) implies a.sent.contains(t)
            || exists|i: int| 0 <= i < urls.len() && t == jam_token(#[trigger] urls[i]) by {
            if t == token {
                assert(t == jam_token(urls[urls.len() - 1]));
            } else {
                let k = choose|k: int| 0 <= k < after.sent.len() && after.sent[k] == t;
                assert(k < before.sent.len());
                assert(before.sent[k] == t);
                assert(before.sent.contains(t));
                if !a.sent.contains(t) {
                    let i = choose|i: int|
                        0 <= i < front.len() && t == jam_token(#[trigger] front[i]);
                    assert(t == jam_token(urls[i]));
                }
            }
        }
    }
}

impl JamAnnouncer {
    /// An announcer for the Jams that `bot_name` hosts, with none announced yet.
    pub fn new(bot_name: String) -> (announcer: Self)
        ensures
            announcer@ == (AnnouncerView { bot_name: bot_name@, sent: Seq::empty() }),
    {
        let announcer = JamAnnouncer { bot_name, sent: Vec::new() };
        assert(announcer@.sent =~= Seq::<Seq<char>>::empty());
        announcer
    }

    fn was_sent(&self, token: &str) -> (found: bool)
        ensures
            found == self@.sent.contains(token@),
    {
        let mut i: usize = 0;
        while i < self.sent.len()
            invariant
                i <= self.sent@.len(),
                forall|j: int| 0 <= j < i ==> (#[trigger] self.sent@[j])@ != token@,
            decreases self.sent@.len() - i,
        {
            if text::same_text(self.sent[i].as_str(), token) {
                assert(self@.sent[i as int] == token@);
                return true;
            }
            i += 1;
        }
        assert forall|j: int| 0 <= j < self@.sent.len() implies self@.sent[j] != token@ by {
            assert(self.sent@[j]@ != token@);
        }
        false
    }

    /// The announcement of the Jam behind `url`, unless it was announced before.
    pub fn announce(&mut self, url: &str) -> (jam: Option<JamAnnouncement>)
        ensures
            match jam {
                Some(announcement) => announced(old(self)@, url@) == Some(announcement@),
                None => announced(old(self)@, url@) is None,
            },
            final(self)@ == after_link(old(self)@, url@),
    {
        let token = match text::strip_prefix(url, "spotify://socialsession/") {
            Some(token) => token,
            None => url.to_owned(),
        };
        assert(token@ == jam_token(url@));
        if self.was_sent(token.as_str()) {
            return None;
        }
        let button_url = "https://open.spotify.com/socialsession/".to_owned().concat(
            token.as_str(),
        );
        let mut description = "**".to_owned();
        description.append(self.bot_name.as_str());
        description.append(
            "** is hosting a listening session.\nJoin and listen along in sync with everyone.",
        );
        let announcement = JamAnnouncement {
            embed: Embed {
                author: None,
                title: "A Jam just started!".to_owned(),
                url: None,
                description: Some(description),
                color: (30, 215, 96),
                footer: "Spotify Jam".to_owned(),
                thumbnail: None,
            },
            button_label: "Join the Jam".to_owned(),
            button_url,
        };
        self.sent.push(token);
        assert(self@.sent =~= old(self)@.sent.push(jam_token(url@)));
        Some(announcement)
    }
}

} // verus!
