//! What the bot says: plain replies and embeds.

use vstd::prelude::*;

verus! {

/// A rich message. What is `None` is not shown.
#[derive(Debug, PartialEq, Eq)]
pub struct Embed {
    pub author: Option<String>,
    pub title: String,
    pub url: Option<String>,
    pub description: Option<String>,
    /// Red, green and blue of the side bar.
    pub color: (u8, u8, u8),
    pub footer: String,
    pub thumbnail: Option<String>,
}

/// What an embed shows.
#[verifier::ext_equal]
pub struct EmbedView {
    pub author: Option<Seq<char>>,
    pub title: Seq<char>,
    pub url: Option<Seq<char>>,
    pub description: Option<Seq<char>>,
    pub color: (u8, u8, u8),
    pub footer: Seq<char>,
    pub thumbnail: Option<Seq<char>>,
}

impl View for Embed {
    type V = EmbedView;

    open spec fn view(&self) -> EmbedView {
        EmbedView {
            author: crate::text::text_of(self.author),
            title: self.title@,
            url: crate::text::text_of(self.url),
            description: crate::text::text_of(self.description),
            color: self.color,
            footer: self.footer@,
            thumbnail: crate::text::text_of(self.thumbnail),
        }
    }
}

/// The answer to a slash command.
#[derive(Debug, PartialEq, Eq)]
pub enum Reply {
    /// Text that only the user who gave the command sees.
    Ephemeral(String),
    /// An embed for everyone.
    Embed(Embed),
}

/// What a reply says.
#[verifier::ext_equal]
pub enum ReplyView {
    Ephemeral(Seq<char>),
    Embed(EmbedView),
}

impl View for Reply {
    type V = ReplyView;

    open spec fn view(&self) -> ReplyView {
        match self {
            Reply::Ephemeral(text) => ReplyView::Ephemeral(text@),
            Reply::Embed(embed) => ReplyView::Embed(embed@),
        }
    }
}

} // verus!
