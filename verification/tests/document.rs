//! Whole documents: items in order, and the first error alone.

use lrc_parser::{parse, LrcItem, LrcMetadata, LrcParseError};

#[test]
fn empty_document() {
    assert_eq!(parse(std::iter::empty()), Ok(vec![]));
}

#[test]
fn items_come_in_the_order_of_the_lines() {
    let text = "[ar:Artist]\n[ti:Title]\n\n[zz:skipped]\n[00:01.00]one\n[00:02.50][00:09.00]two\n[offset:-20]";
    assert_eq!(
        parse(text.lines()),
        Ok(vec![
            LrcItem::Metadata(LrcMetadata::Artist("Artist")),
            LrcItem::Metadata(LrcMetadata::Title("Title")),
            LrcItem::Lyric("one", vec![1000]),
            LrcItem::Lyric("two", vec![2500, 9000]),
            LrcItem::Metadata(LrcMetadata::Offset(-20)),
        ])
    );
}

#[test]
fn lines_without_items_are_skipped() {
    assert_eq!(parse(["", "   ", "[zz:q]", "\t"].into_iter()), Ok(vec![]));
}

#[test]
fn first_error_ends_the_parse() {
    let lines = ["[ar:A]", "[00:01.00]x", "no tag here", "[offset:bad]", "[ti:T]"];
    assert_eq!(parse(lines.into_iter()), Err(LrcParseError::NoTagInNonEmptyLine(2)));
}

#[test]
fn error_names_the_line_it_is_on() {
    assert_eq!(
        parse(["", "", "", "[offset:x]"].into_iter()),
        Err(LrcParseError::InvalidOffset(3))
    );
    assert_eq!(
        parse(["[00:xx]a", "[offset:x]"].into_iter()),
        Err(LrcParseError::InvalidTimestamp(0))
    );
    assert_eq!(
        parse(["[ar:A]", "[00:01][b:1]a"].into_iter()),
        Err(LrcParseError::InvalidTimestamp(1))
    );
}

#[test]
fn skipped_lines_count_as_lines() {
    assert_eq!(
        parse(["[zz:q]", "", "[ar:A]", "oops"].into_iter()),
        Err(LrcParseError::NoTagInNonEmptyLine(3))
    );
}

#[test]
fn lines_after_the_first_error_are_not_read() {
    let mut read = 0;
    let lines = ["[ar:A]", "bad", "[ti:T]", "worse"];
    let counted = lines.into_iter().inspect(|_| read += 1);
    assert_eq!(parse(counted), Err(LrcParseError::NoTagInNonEmptyLine(1)));
    assert_eq!(read, 2);
}

#[test]
fn parsing_twice_gives_the_same() {
    let text = "[ar:A]\n[00:12.34][00:15]x\n[:] note\n";
    assert_eq!(parse(text.lines()), parse(text.lines()));
    let bad = "[ar:A]\nbad\n";
    assert_eq!(parse(bad.lines()), parse(bad.lines()));
}

#[test]
fn carriage_returns_are_left_to_the_caller() {
    assert_eq!(
        parse("[ar:A]\r\n[00:01]x\r\n".split('\n')),
        Ok(vec![
            LrcItem::Metadata(LrcMetadata::Artist("A")),
            LrcItem::Lyric("x\r", vec![1000]),
        ])
    );
}
