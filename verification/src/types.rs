//! The items that a line yields, the errors that a line can raise, and what
//! each of them stands for.

use vstd::prelude::*;

verus! {

/// One metadata tag. Text borrows from the line that was parsed.
#[derive(Debug, PartialEq, Eq)]
pub enum LrcMetadata<'a> {
    /// Artist of the song
    Artist(&'a str),
    /// Album this song belongs to
    Album(&'a str),
    /// Title of the song
    Title(&'a str),
    /// Lyricist who wrote the text
    Lyricist(&'a str),
    /// Author of the lyric file
    Author(&'a str),
    /// Length of the song
    Length(&'a str),
    /// Offset in milliseconds, possibly negative
    Offset(i64),
    /// The player or editor that created the file
    Application(&'a str),
    /// Version of that program
    AppVersion(&'a str),
    /// Comment
    Comment(&'a str),
}

/// What a line yields: a metadata tag, or a lyric with its timestamps.
#[derive(Debug, PartialEq, Eq)]
pub enum LrcItem<'a> {
    Metadata(LrcMetadata<'a>),
    /// Lyric text, and the timestamps at which it is sung, in milliseconds,
    /// with no offset applied
    Lyric(&'a str, Vec<i64>),
}

/// Why a line was refused; each variant holds the line's number, from zero.
#[derive(Debug, Clone, Copy, PartialEq, Eq)]
pub enum LrcParseError {
    /// The line is not blank and does not begin with a tag.
    NoTagInNonEmptyLine(usize),
    /// A timestamp of the line could not be read.
    InvalidTimestamp(usize),
    /// The value of an offset tag is no integer.
    InvalidOffset(usize),
}

/// A metadata tag as a mathematical value.
pub enum MetadataView {
    Artist(Seq<char>),
    Album(Seq<char>),
    Title(Seq<char>),
    Lyricist(Seq<char>),
    Author(Seq<char>),
    Length(Seq<char>),
    Offset(i64),
    Application(Seq<char>),
    AppVersion(Seq<char>),
    Comment(Seq<char>),
}

/// An item as a mathematical value.
pub enum ItemView {
    Metadata(MetadataView),
    Lyric(Seq<char>, Seq<i64>),
}

impl<'a> View for LrcMetadata<'a> {
    type V = MetadataView;

    open spec fn view(&self) -> MetadataView {
        match *self {
            LrcMetadata::Artist(s) => MetadataView::Artist(s@),
            LrcMetadata::Album(s) => MetadataView::Album(s@),
            LrcMetadata::Title(s) => MetadataView::Title(s@),
            LrcMetadata::Lyricist(s) => MetadataView::Lyricist(s@),
            LrcMetadata::Author(s) => MetadataView::Author(s@),
            LrcMetadata::Length(s) => MetadataView::Length(s@),
            LrcMetadata::Offset(n) => MetadataView::Offset(n),
            LrcMetadata::Application(s) => MetadataView::Application(s@),
            LrcMetadata::AppVersion(s) => MetadataView::AppVersion(s@),
            LrcMetadata::Comment(s) => MetadataView::Comment(s@),
        }
    }
}

impl<'a> View for LrcItem<'a> {
    type V = ItemView;

    open spec fn view(&self) -> ItemView {
        match *self {
            LrcItem::Metadata(m) => ItemView::Metadata(m@),
            LrcItem::Lyric(text, timestamps) => ItemView::Lyric(text@, timestamps@),
        }
    }
}

impl ItemView {
    /// What holds of every item that parsing yields: a lyric has at least
    /// one timestamp.
    pub open spec fn well_formed(self) -> bool {
        self matches ItemView::Lyric(_, timestamps) ==> timestamps.len() > 0
    }
}

impl LrcParseError {
    /// The number of the line that the error is about.
    pub open spec fn line(self) -> usize {
        match self {
            LrcParseError::NoTagInNonEmptyLine(n) => n,
            LrcParseError::InvalidTimestamp(n) => n,
            LrcParseError::InvalidOffset(n) => n,
        }
    }

    /// The number of the line that the error is about.
    pub fn line_number(&self) -> (n: usize)
        ensures
            n == self.line(),
    {
        match *self {
            LrcParseError::NoTagInNonEmptyLine(n) => n,
            LrcParseError::InvalidTimestamp(n) => n,
            LrcParseError::InvalidOffset(n) => n,
        }
    }
}

/// The items of a vector as mathematical values, in order.
pub open spec fn items_view(items: Seq<LrcItem<'_>>) -> Seq<ItemView> {
    items.map_values(|item: LrcItem<'_>| item@)
}

} // verus!
