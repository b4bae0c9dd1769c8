//! One line at a time: metadata, comments, lyrics, and the lines that are
//! skipped or refused.

use lrc_parser::{parse_single, LrcItem, LrcMetadata, LrcParseError};

fn metadata(m: LrcMetadata<'_>) -> Result<Option<LrcItem<'_>>, LrcParseError> {
    Ok(Some(LrcItem::Metadata(m)))
}

fn lyric(text: &str, stamps: Vec<i64>) -> Result<Option<LrcItem<'_>>, LrcParseError> {
    Ok(Some(LrcItem::Lyric(text, stamps)))
}

#[test]
fn artist_tag() {
    assert_eq!(parse_single("[ar:Some Artist]", 0), metadata(LrcMetadata::Artist("Some Artist")));
}

#[test]
fn album_tag() {
    assert_eq!(parse_single("[al:An Album]", 0), metadata(LrcMetadata::Album("An Album")));
}

#[test]
fn title_tag() {
    assert_eq!(parse_single("[ti:A Title]", 0), metadata(LrcMetadata::Title("A Title")));
}

#[test]
fn lyricist_tag() {
    assert_eq!(parse_single("[au:A Writer]", 0), metadata(LrcMetadata::Lyricist("A Writer")));
}

#[test]
fn length_tag() {
    assert_eq!(parse_single("[length:03:21]", 0), metadata(LrcMetadata::Length("03:21")));
}

#[test]
fn author_tag() {
    assert_eq!(parse_single("[by:Somebody]", 0), metadata(LrcMetadata::Author("Somebody")));
}

#[test]
fn application_tag() {
    assert_eq!(parse_single("[re:An Editor]", 0), metadata(LrcMetadata::Application("An Editor")));
}

#[test]
fn app_version_tag() {
    assert_eq!(parse_single("[ve:1.2.3]", 0), metadata(LrcMetadata::AppVersion("1.2.3")));
}

#[test]
fn hash_tag_is_a_comment() {
    assert_eq!(parse_single("[#:a remark]", 0), metadata(LrcMetadata::Comment("a remark")));
}

#[test]
fn metadata_value_is_trimmed() {
    assert_eq!(parse_single("[ar:  Spaced Out \t]", 0), metadata(LrcMetadata::Artist("Spaced Out")));
    assert_eq!(parse_single("[ti:\u{3000}題名\u{a0}]", 0), metadata(LrcMetadata::Title("題名")));
    assert_eq!(parse_single("[al:   ]", 0), metadata(LrcMetadata::Album("")));
    assert_eq!(parse_single("[al:]", 0), metadata(LrcMetadata::Album("")));
}

#[test]
fn metadata_key_is_trimmed() {
    assert_eq!(parse_single("[ ar :X]", 0), metadata(LrcMetadata::Artist("X")));
    assert_eq!(parse_single("[\tlength\u{2003}: 1:00 ]", 0), metadata(LrcMetadata::Length("1:00")));
    assert_eq!(parse_single("[ offset : 12 ]", 0), metadata(LrcMetadata::Offset(12)));
}

#[test]
fn metadata_ignores_what_follows_the_tag() {
    assert_eq!(parse_single("[ar:X] trailing", 0), metadata(LrcMetadata::Artist("X")));
    assert_eq!(parse_single("[ar:X][al:Y]", 0), metadata(LrcMetadata::Artist("X")));
}

#[test]
fn codes_are_case_sensitive() {
    assert_eq!(parse_single("[AR:X]", 0), Ok(None));
    assert_eq!(parse_single("[Ti:X]", 0), Ok(None));
    assert_eq!(parse_single("[Offset:1]", 0), Ok(None));
}

#[test]
fn blank_lines_yield_nothing() {
    assert_eq!(parse_single("", 0), Ok(None));
    assert_eq!(parse_single(" ", 1), Ok(None));
    assert_eq!(parse_single(" \t \r", 2), Ok(None));
    assert_eq!(parse_single("\u{3000}\u{2028}\u{85}", 3), Ok(None));
}

#[test]
fn zero_width_space_is_not_blank() {
    assert_eq!(parse_single("\u{200b}", 4), Err(LrcParseError::NoTagInNonEmptyLine(4)));
}

#[test]
fn unknown_key_yields_nothing() {
    assert_eq!(parse_single("[zz:anything]", 0), Ok(None));
    assert_eq!(parse_single("[id:1234]", 0), Ok(None));
    assert_eq!(parse_single("[ar2:X]", 0), Ok(None));
    assert_eq!(parse_single("[:x]", 0), Ok(None));
    assert_eq!(parse_single("[ :]", 0), Ok(None));
    assert_eq!(parse_single("[1.5:00]", 0), Ok(None));
    assert_eq!(parse_single("[zz:anything] and text", 0), Ok(None));
}

#[test]
fn lyric_with_one_timestamp() {
    assert_eq!(parse_single("[00:12.34]Hello", 0), lyric("Hello", vec![12340]));
}

#[test]
fn lyric_with_two_timestamps() {
    assert_eq!(
        parse_single("[00:12.00][00:45.00]Shared", 0),
        lyric("Shared", vec![12000, 45000])
    );
}

#[test]
fn lyric_timestamps_keep_their_order() {
    assert_eq!(
        parse_single("[01:00.00][00:30.00][02:00]la", 0),
        lyric("la", vec![60000, 30000, 120000])
    );
}

#[test]
fn lyric_text_is_kept_as_it_stands() {
    assert_eq!(parse_single("[00:01.00]  spaced  ", 0), lyric("  spaced  ", vec![1000]));
    assert_eq!(parse_single("[00:01.00]", 0), lyric("", vec![1000]));
    assert_eq!(parse_single("[00:01.00]こんにちは", 0), lyric("こんにちは", vec![1000]));
}

#[test]
fn lyric_text_begins_where_the_groups_end() {
    assert_eq!(parse_single("[00:01.00] [00:02.00]x", 0), lyric(" [00:02.00]x", vec![1000]));
    assert_eq!(parse_single("[00:01.00][00:02.00 x", 0), lyric("[00:02.00 x", vec![1000]));
    assert_eq!(parse_single("[00:01.00][no colon]", 0), lyric("[no colon]", vec![1000]));
}

#[test]
fn colon_as_fraction_separator() {
    assert_eq!(parse_single("[00:12:34]Hello", 0), lyric("Hello", vec![12340]));
    assert_eq!(parse_single("[01:02:5]x", 0), lyric("x", vec![62500]));
}

#[test]
fn minutes_are_not_bounded() {
    assert_eq!(parse_single("[90:00.000]x", 0), lyric("x", vec![5_400_000]));
    assert_eq!(parse_single("[1234567:01]x", 0), lyric("x", vec![74_074_021_000]));
    assert_eq!(parse_single("[-1:00]x", 0), lyric("x", vec![-60_000]));
    assert_eq!(parse_single("[+2:00]x", 0), lyric("x", vec![120_000]));
}

#[test]
fn fraction_is_cut_to_whole_milliseconds() {
    assert_eq!(parse_single("[00:01.2345]x", 0), lyric("x", vec![1234]));
    assert_eq!(parse_single("[00:01.9999]x", 0), lyric("x", vec![1999]));
    assert_eq!(parse_single("[00:00.0009]x", 0), lyric("x", vec![0]));
    assert_eq!(parse_single("[00:-1.9999]x", 0), lyric("x", vec![-1999]));
    assert_eq!(parse_single("[00:-0.0009]x", 0), lyric("x", vec![0]));
    assert_eq!(parse_single("[00:5]x", 0), lyric("x", vec![5000]));
    assert_eq!(parse_single("[00:.5]x", 0), lyric("x", vec![500]));
}

#[test]
fn long_fractions_are_exact() {
    assert_eq!(
        parse_single("[00:7.9228162514264337593543950335]x", 0),
        lyric("x", vec![7922])
    );
    assert_eq!(
        parse_single("[00:0.0000000000000000000000000001]x", 0),
        lyric("x", vec![0])
    );
    assert_eq!(
        parse_single("[00:59.999999999999999999999999]x", 0),
        lyric("x", vec![59999])
    );
}

#[test]
fn invalid_seconds() {
    assert_eq!(parse_single("[00:ab]x", 5), Err(LrcParseError::InvalidTimestamp(5)));
    assert_eq!(parse_single("[00:]x", 5), Err(LrcParseError::InvalidTimestamp(5)));
    assert_eq!(parse_single("[00:1:2:3]x", 5), Err(LrcParseError::InvalidTimestamp(5)));
    assert_eq!(parse_single("[00: 12.34]x", 5), Err(LrcParseError::InvalidTimestamp(5)));
    assert_eq!(
        parse_single("[00:0.00000000000000000000000000001]x", 5),
        Err(LrcParseError::InvalidTimestamp(5))
    );
}

#[test]
fn minutes_of_a_timestamp_are_not_trimmed() {
    assert_eq!(parse_single("[ 00:12.34]x", 6), Err(LrcParseError::InvalidTimestamp(6)));
    assert_eq!(parse_single("[00 :12.34]x", 6), Err(LrcParseError::InvalidTimestamp(6)));
}

#[test]
fn later_group_that_is_no_timestamp() {
    assert_eq!(parse_single("[00:01.00][ar:X]text", 7), Err(LrcParseError::InvalidTimestamp(7)));
    assert_eq!(parse_single("[00:01.00][:]text", 7), Err(LrcParseError::InvalidTimestamp(7)));
}

#[test]
fn milliseconds_that_are_no_i64() {
    assert_eq!(
        parse_single("[00:9223372036854775.808]x", 8),
        Err(LrcParseError::InvalidTimestamp(8))
    );
    assert_eq!(
        parse_single("[00:79228162514264337593543950335]x", 8),
        Err(LrcParseError::InvalidTimestamp(8))
    );
    assert_eq!(
        parse_single("[9223372036854775807:00]x", 8),
        Err(LrcParseError::InvalidTimestamp(8))
    );
    assert_eq!(
        parse_single("[153722867280912:56]x", 8),
        Err(LrcParseError::InvalidTimestamp(8))
    );
}

#[test]
fn largest_and_smallest_timestamp() {
    assert_eq!(
        parse_single("[00:9223372036854775.807]x", 0),
        lyric("x", vec![i64::MAX])
    );
    assert_eq!(
        parse_single("[153722867280912:55.807]x", 0),
        lyric("x", vec![i64::MAX])
    );
    assert_eq!(
        parse_single("[00:-9223372036854775.808]x", 0),
        lyric("x", vec![i64::MIN])
    );
    assert_eq!(
        parse_single("[-153722867280912:-55.808]x", 0),
        lyric("x", vec![i64::MIN])
    );
}

#[test]
fn offset_tag() {
    assert_eq!(parse_single("[offset:-250]", 0), metadata(LrcMetadata::Offset(-250)));
    assert_eq!(parse_single("[offset:+250]", 0), metadata(LrcMetadata::Offset(250)));
    assert_eq!(parse_single("[offset:0]", 0), metadata(LrcMetadata::Offset(0)));
    assert_eq!(parse_single("[offset: 0042 ]", 0), metadata(LrcMetadata::Offset(42)));
    assert_eq!(
        parse_single("[offset:9223372036854775807]", 0),
        metadata(LrcMetadata::Offset(i64::MAX))
    );
    assert_eq!(
        parse_single("[offset:-9223372036854775808]", 0),
        metadata(LrcMetadata::Offset(i64::MIN))
    );
}

#[test]
fn invalid_offset() {
    assert_eq!(parse_single("[offset:abc]", 9), Err(LrcParseError::InvalidOffset(9)));
    assert_eq!(parse_single("[offset:]", 9), Err(LrcParseError::InvalidOffset(9)));
    assert_eq!(parse_single("[offset:1.5]", 9), Err(LrcParseError::InvalidOffset(9)));
    assert_eq!(parse_single("[offset:- 1]", 9), Err(LrcParseError::InvalidOffset(9)));
    assert_eq!(parse_single("[offset:+]", 9), Err(LrcParseError::InvalidOffset(9)));
    assert_eq!(parse_single("[offset:1_000]", 9), Err(LrcParseError::InvalidOffset(9)));
    assert_eq!(
        parse_single("[offset:9223372036854775808]", 9),
        Err(LrcParseError::InvalidOffset(9))
    );
    assert_eq!(
        parse_single("[offset:-9223372036854775809]", 9),
        Err(LrcParseError::InvalidOffset(9))
    );
}

#[test]
fn empty_tag_is_a_comment() {
    assert_eq!(parse_single("[:]", 0), metadata(LrcMetadata::Comment("")));
    assert_eq!(parse_single("[:] trailing", 0), metadata(LrcMetadata::Comment(" trailing")));
    assert_eq!(parse_single("[:][ar:X] after", 0), metadata(LrcMetadata::Comment(" after")));
}

#[test]
fn line_without_tag() {
    assert_eq!(parse_single("plain text", 11), Err(LrcParseError::NoTagInNonEmptyLine(11)));
    assert_eq!(parse_single("  [ar:X]", 11), Err(LrcParseError::NoTagInNonEmptyLine(11)));
    assert_eq!(parse_single("[ar X]", 11), Err(LrcParseError::NoTagInNonEmptyLine(11)));
    assert_eq!(parse_single("[ar:X", 11), Err(LrcParseError::NoTagInNonEmptyLine(11)));
    assert_eq!(parse_single("[ar]X:", 11), Err(LrcParseError::NoTagInNonEmptyLine(11)));
    assert_eq!(parse_single("]ar:X[", 11), Err(LrcParseError::NoTagInNonEmptyLine(11)));
}

#[test]
fn key_runs_to_the_first_colon_and_value_to_the_next_bracket() {
    assert_eq!(parse_single("[ar]x: y]", 0), Ok(None));
    assert_eq!(parse_single("[ar:[x:y]z]", 0), metadata(LrcMetadata::Artist("[x:y")));
    assert_eq!(parse_single("[ti:a:b]", 0), metadata(LrcMetadata::Title("a:b")));
}

#[test]
fn same_line_same_item_at_any_line_number() {
    let lines = ["[ar:X]", "[00:12.34]Hello", "[zz:q]", "", "[:] c", "[offset:7]"];
    for line in lines {
        assert_eq!(parse_single(line, 0), parse_single(line, 0));
        assert_eq!(parse_single(line, 0), parse_single(line, 41));
    }
    assert_eq!(parse_single("nothing", 3), Err(LrcParseError::NoTagInNonEmptyLine(3)));
    assert_eq!(parse_single("nothing", 4), Err(LrcParseError::NoTagInNonEmptyLine(4)));
}

#[test]
fn error_knows_its_line() {
    assert_eq!(LrcParseError::NoTagInNonEmptyLine(3).line_number(), 3);
    assert_eq!(LrcParseError::InvalidTimestamp(4).line_number(), 4);
    assert_eq!(LrcParseError::InvalidOffset(5).line_number(), 5);
    assert_eq!(parse_single("[offset:x]", 17).unwrap_err().line_number(), 17);
}
