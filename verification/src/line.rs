//! The line parser: one line of text to at most one item.

use crate::integer::{parse_i64, read_i64};
use crate::scan::{scan, scan_spans, Scan, Span};
use crate::text::{chars_of, is_blank, slice_is_blank, trim, trim_bounds};
use crate::timestamp::{decode_segments, timestamps};
use crate::types::{ItemView, LrcItem, LrcMetadata, LrcParseError, MetadataView};
use vstd::prelude::*;
use vstd::string::StrSliceExecFns;

verus! {

/// The metadata tags whose value is text.
#[derive(Clone, Copy, Debug, PartialEq, Eq)]
pub enum TextTag {
    Artist,
    Album,
    Title,
    Lyricist,
    Length,
    Author,
    Application,
    AppVersion,
    Comment,
}

impl TextTag {
    /// The metadata that the tag makes of a value.
    pub open spec fn with(self, value: Seq<char>) -> MetadataView {
        match self {
            TextTag::Artist => MetadataView::Artist(value),
            TextTag::Album => MetadataView::Album(value),
            TextTag::Title => MetadataView::Title(value),
            TextTag::Lyricist => MetadataView::Lyricist(value),
            TextTag::Length => MetadataView::Length(value),
            TextTag::Author => MetadataView::Author(value),
            TextTag::Application => MetadataView::Application(value),
            TextTag::AppVersion => MetadataView::AppVersion(value),
            TextTag::Comment => MetadataView::Comment(value),
        }
    }

    /// Makes the tag's metadata of a value.
    pub fn metadata<'a>(self, value: &'a str) -> (r: LrcMetadata<'a>)
        ensures
            r@ == self.with(value@),
    {
        match self {
            TextTag::Artist => LrcMetadata::Artist(value),
            TextTag::Album => LrcMetadata::Album(value),
            TextTag::Title => LrcMetadata::Title(value),
            TextTag::Lyricist => LrcMetadata::Lyricist(value),
            TextTag::Length => LrcMetadata::Length(value),
            TextTag::Author => LrcMetadata::Author(value),
            TextTag::Application => LrcMetadata::Application(value),
            TextTag::AppVersion => LrcMetadata::AppVersion(value),
            TextTag::Comment => LrcMetadata::Comment(value),
        }
    }
}

/// The text tag that a code names. Codes are case-sensitive.
pub open spec fn text_tag_of(code: Seq<char>) -> Option<TextTag> {
    if code == "ar"@ {
        Some(TextTag::Artist)
    } else if code == "al"@ {
        Some(TextTag::Album)
    } else if code == "ti"@ {
        Some(TextTag::Title)
    } else if code == "au"@ {
        Some(TextTag::Lyricist)
    } else if code == "length"@ {
        Some(TextTag::Length)
    } else if code == "by"@ {
        Some(TextTag::Author)
    } else if code == "re"@ {
        Some(TextTag::Application)
    } else if code == "ve"@ {
        Some(TextTag::AppVersion)
    } else if code == "#"@ {
        Some(TextTag::Comment)
    } else {
        None
    }
}

/// What a scan with at least one bracket group yields. The first group
/// alone decides what the line is:
/// - an empty key with an empty value makes the trailing text a comment;
/// - a key that trims to the code of a text tag makes that tag of the
///   trimmed value;
/// - a key that trims to `offset` makes an offset of the trimmed value, which
///   has to be an integer;
/// - a key that trims to an integer makes a lyric of the trailing text, with
///   the timestamps of all the groups;
/// - any other key makes nothing.
pub open spec fn classify(scanned: Scan, line_num: usize) -> Result<Option<ItemView>, LrcParseError>
    recommends
        scanned.segments.len() > 0,
{
    let first = scanned.segments[0];
    let code = trim(first.key);
    if first.key.len() == 0 && first.value.len() == 0 {
        Ok(Some(ItemView::Metadata(MetadataView::Comment(scanned.rest))))
    } else if text_tag_of(code) is Some {
        Ok(Some(ItemView::Metadata(text_tag_of(code).unwrap().with(trim(first.value)))))
    } else if code == "offset"@ {
        match parse_i64(trim(first.value)) {
            Some(offset) => Ok(Some(ItemView::Metadata(MetadataView::Offset(offset)))),
            None => Err(LrcParseError::InvalidOffset(line_num)),
        }
    } else if parse_i64(code) is Some {
        match timestamps(scanned.segments) {
            Some(stamps) => Ok(Some(ItemView::Lyric(scanned.rest, stamps))),
            None => Err(LrcParseError::InvalidTimestamp(line_num)),
        }
    } else {
        Ok(None)
    }
}

/// What a line yields: nothing where it is blank, an error where it is not
/// blank and begins with no bracket group, and else what its scan yields.
pub open spec fn line_outcome(line: Seq<char>, line_num: usize) -> Result<
    Option<ItemView>,
    LrcParseError,
> {
    if is_blank(line) {
        Ok(None)
    } else if scan(line).segments.len() == 0 {
        Err(LrcParseError::NoTagInNonEmptyLine(line_num))
    } else {
        classify(scan(line), line_num)
    }
}

/// The result of parsing a line as a mathematical value.
pub open spec fn line_result_view(r: Result<Option<LrcItem<'_>>, LrcParseError>) -> Result<
    Option<ItemView>,
    LrcParseError,
> {
    match r {
        Ok(Some(item)) => Ok(Some(item@)),
        Ok(None) => Ok(None),
        Err(e) => Err(e),
    }
}

/// Decides whether `chars[from..to]` spells `word`.
pub fn spells(chars: &[char], from: usize, to: usize, word: &str) -> (r: bool)
    requires
        from <= to <= chars.len(),
    ensures
        r == (chars@.subrange(from as int, to as int) == word@),
{
    let n: usize = word.unicode_len();
    if to - from != n {
        return false;
    }
    let mut i: usize = 0;
    while i < n
        invariant
            from + n == to <= chars.len(),
            n == word@.len(),
            i <= n,
            forall|j: int| 0 <= j < i ==> chars@[from + j] == word@[j],
        decreases n - i,
    {
        if chars[from + i] != word.get_char(i) {
            return false;
        }
        i += 1;
    }
    assert(chars@.subrange(from as int, to as int) =~= word@);
    true
}

/// Reads `chars[from..to]` as the code of a text tag.
pub fn read_text_tag(chars: &[char], from: usize, to: usize) -> (r: Option<TextTag>)
    requires
        from <= to <= chars.len(),
    ensures
        r == text_tag_of(chars@.subrange(from as int, to as int)),
{
    if spells(chars, from, to, "ar") {
        Some(TextTag::Artist)
    } else if spells(chars, from, to, "al") {
        Some(TextTag::Album)
    } else if spells(chars, from, to, "ti") {
        Some(TextTag::Title)
    } else if spells(chars, from, to, "au") {
        Some(TextTag::Lyricist)
    } else if spells(chars, from, to, "length") {
        Some(TextTag::Length)
    } else if spells(chars, from, to, "by") {
        Some(TextTag::Author)
    } else if spells(chars, from, to, "re") {
        Some(TextTag::Application)
    } else if spells(chars, from, to, "ve") {
        Some(TextTag::AppVersion)
    } else if spells(chars, from, to, "#") {
        Some(TextTag::Comment)
    } else {
        None
    }
}

/// Borrows from `line` the characters `from..to`, trimmed on both sides.
/// `chars` holds the characters of `line`.
pub fn trimmed_text<'a>(line: &'a str, chars: &[char], from: usize, to: usize) -> (r: &'a str)
    requires
        chars@ == line@,
        from <= to <= chars.len(),
    ensures
        r@ == trim(line@.subrange(from as int, to as int)),
{
    let (a, b) = trim_bounds(chars, from, to);
    line.substring_char(a, b)
}

/// Parses one line. `line_num` is the line's number, which an error carries.
///
/// A blank line yields nothing. A line that begins with bracket groups
/// `[key:value]` yields a metadata tag, a lyric with one timestamp for each
/// group, or nothing where the first key is not known. Text in the item
/// borrows from `line`.
pub fn parse_single<'a>(line: &'a str, line_num: usize) -> (r: Result<
    Option<LrcItem<'a>>,
    LrcParseError,
>)
    ensures
        line_result_view(r) == line_outcome(line@, line_num),
        r matches Ok(Some(item)) ==> item@.well_formed(),
        r matches Err(e) ==> e.line() == line_num,
{
    let owned: Vec<char> = chars_of(line);
    let chars: &[char] = owned.as_slice();
    if slice_is_blank(chars) {
        return Ok(None);
    }
    let (spans, rest_start) = scan_spans(chars);
    if spans.len() == 0 {
        return Err(LrcParseError::NoTagInNonEmptyLine(line_num));
    }
    let first: Span = spans[0];
    if first.open + 1 == first.colon && first.colon + 1 == first.close {
        let rest: &'a str = line.substring_char(rest_start, chars.len());
        return Ok(Some(LrcItem::Metadata(LrcMetadata::Comment(rest))));
    }
    let (code_from, code_to) = trim_bounds(chars, first.open + 1, first.colon);
    if let Some(tag) = read_text_tag(chars, code_from, code_to) {
        let value: &'a str = trimmed_text(line, chars, first.colon + 1, first.close);
        return Ok(Some(LrcItem::Metadata(tag.metadata(value))));
    }
    if spells(chars, code_from, code_to, "offset") {
        let (value_from, value_to) = trim_bounds(chars, first.colon + 1, first.close);
        return match read_i64(chars, value_from, value_to) {
            Some(offset) => Ok(Some(LrcItem::Metadata(LrcMetadata::Offset(offset)))),
            None => Err(LrcParseError::InvalidOffset(line_num)),
        };
    }
    if read_i64(chars, code_from, code_to).is_some() {
        return match decode_segments(chars, &spans) {
            Some(stamps) => {
                let rest: &'a str = line.substring_char(rest_start, chars.len());
                Ok(Some(LrcItem::Lyric(rest, stamps)))
            },
            None => Err(LrcParseError::InvalidTimestamp(line_num)),
        };
    }
    Ok(None)
}

} // verus!
