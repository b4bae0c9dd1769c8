//! What holds of every line and of every document, proved from the
//! definitions of the other modules.

use crate::decimal::{is_decimal, pow10, whole_part, MAX_MANTISSA};
use crate::document::{document_outcome, lemma_error_stays, lines_view};
use crate::integer::parse_i64;
use crate::line::{line_outcome, text_tag_of};
use crate::scan::{
    first_index, leading_group, lemma_first_index, lemma_first_index_at,
    lemma_leading_group_shrinks, scan, Segment,
};
use crate::text::{is_blank, is_space, trim, trim_end, trim_start};
use crate::timestamp::{segment_millis, timestamp_millis, timestamps, MILLIS_PER_MINUTE};
use crate::types::{ItemView, LrcParseError, MetadataView};
use vstd::prelude::*;

verus! {

/// The text of one bracket group: `[`, the key, `:`, the value, `]`.
pub open spec fn bracket(key: Seq<char>, value: Seq<char>) -> Seq<char> {
    seq!['['] + key + seq![':'] + value + seq![']']
}

/// The same kind of error, about line `line_num`.
pub open spec fn error_at(e: LrcParseError, line_num: usize) -> LrcParseError {
    match e {
        LrcParseError::NoTagInNonEmptyLine(_) => LrcParseError::NoTagInNonEmptyLine(line_num),
        LrcParseError::InvalidTimestamp(_) => LrcParseError::InvalidTimestamp(line_num),
        LrcParseError::InvalidOffset(_) => LrcParseError::InvalidOffset(line_num),
    }
}

/// Trimming on the left cuts off whitespace and nothing else: what is left is
/// the end of the text, and begins with no whitespace.
pub proof fn lemma_trim_start(s: Seq<char>)
    ensures
        trim_start(s).len() <= s.len(),
        trim_start(s) == s.skip(s.len() - trim_start(s).len()),
        is_blank(s.take(s.len() - trim_start(s).len())),
        trim_start(s).len() > 0 ==> !is_space(trim_start(s)[0]),
    decreases s.len(),
{
    if s.len() > 0 && is_space(s[0]) {
        let t = s.drop_first();
        lemma_trim_start(t);
        let k = t.len() - trim_start(t).len();
        assert forall|i: int| 0 <= i < k + 1 implies is_space(#[trigger] s.take(k + 1)[i]) by {
            if i > 0 {
                assert(s.take(k + 1)[i] == t.take(k)[i - 1]);
            }
        }
    }
}

/// Trimming on the right cuts off whitespace and nothing else: what is left
/// is the beginning of the text, and ends with no whitespace.
pub proof fn lemma_trim_end(s: Seq<char>)
    ensures
        trim_end(s).len() <= s.len(),
        trim_end(s) == s.take(trim_end(s).len() as int),
        is_blank(s.skip(trim_end(s).len() as int)),
        trim_end(s).len() > 0 ==> !is_space(trim_end(s).last()),
    decreases s.len(),
{
    if s.len() > 0 && is_space(s.last()) {
        let t = s.drop_last();
        lemma_trim_end(t);
        let k = trim_end(t).len() as int;
        assert forall|i: int| 0 <= i < s.len() - k implies is_space(#[trigger] s.skip(k)[i]) by {
            if i < t.len() - k {
                assert(s.skip(k)[i] == t.skip(k)[i]);
            }
        }
    }
}

/// A text trims to nothing exactly where it is blank; and what it trims to
/// is no longer than the text, and begins and ends with no whitespace.
pub proof fn lemma_trim(s: Seq<char>)
    ensures
        trim(s).len() <= s.len(),
        trim(s).len() == 0 <==> is_blank(s),
        trim(s).len() > 0 ==> !is_space(trim(s)[0]) && !is_space(trim(s).last()),
{
    let t = trim_start(s);
    lemma_trim_start(s);
    lemma_trim_end(t);
    let k = s.len() - t.len();
    if trim(s).len() == 0 {
        assert forall|i: int| 0 <= i < s.len() implies is_space(#[trigger] s[i]) by {
            if i < k {
                assert(s[i] == s.take(k)[i]);
            } else {
                assert(s[i] == t.skip(0)[i - k]);
            }
        }
    }
}

/// Text without whitespace at either end trims to itself.
pub proof fn lemma_trim_of_trimmed(s: Seq<char>)
    requires
        s.len() > 0 ==> !is_space(s[0]) && !is_space(s.last()),
    ensures
        trim(s) == s,
{
}

/// Trimming twice is trimming once.
pub proof fn lemma_trim_idempotent(s: Seq<char>)
    ensures
        trim(trim(s)) == trim(s),
{
    lemma_trim(s);
    lemma_trim_of_trimmed(trim(s));
}

/// A key without a colon and a value without `]`, written as a bracket
/// group, are read back as they are, whatever follows the group.
pub proof fn lemma_leading_group_of_bracket(key: Seq<char>, value: Seq<char>, rest: Seq<char>)
    requires
        !key.contains(':'),
        !value.contains(']'),
    ensures
        leading_group(bracket(key, value) + rest) == Some((Segment { key, value }, rest)),
{
    let inner = (bracket(key, value) + rest).drop_first();
    assert(forall|j: int| 0 <= j < key.len() ==> inner[j] == key[j]);
    lemma_first_index_at(inner, ':', key.len() as int);
    let after_colon = inner.skip(key.len() as int + 1);
    assert(forall|j: int| 0 <= j < value.len() ==> after_colon[j] == value[j]);
    lemma_first_index_at(after_colon, ']', value.len() as int);
    assert(inner.take(key.len() as int) == key);
    assert(after_colon.take(value.len() as int) == value);
}

/// The scan of a line that begins with a bracket group: that group first,
/// then the scan of what follows it.
pub proof fn lemma_scan_of_bracket(key: Seq<char>, value: Seq<char>, rest: Seq<char>)
    requires
        !key.contains(':'),
        !value.contains(']'),
    ensures
        scan(bracket(key, value) + rest).segments == seq![Segment { key, value }] + scan(
            rest,
        ).segments,
        scan(bracket(key, value) + rest).rest == scan(rest).rest,
        !is_blank(bracket(key, value) + rest),
{
    lemma_leading_group_of_bracket(key, value, rest);
}

/// The trailing text of a scan is the end of the line, and every scanned
/// group took at least its three delimiters from the line.
pub proof fn lemma_scan_rest(s: Seq<char>)
    ensures
        scan(s).rest.len() + 3 * scan(s).segments.len() <= s.len(),
        scan(s).rest == s.skip(s.len() - scan(s).rest.len()),
        leading_group(scan(s).rest) is None,
    decreases s.len(),
{
    match leading_group(s) {
        Some((segment, rest)) => {
            lemma_leading_group_shrinks(s);
            lemma_scan_rest(rest);
            let inner = s.drop_first();
            let i = first_index(inner, ':').unwrap();
            lemma_first_index(inner, ':');
            lemma_first_index(inner.skip(i + 1), ']');
        },
        None => {},
    }
}

/// A blank line yields nothing: no item and no error.
pub proof fn lemma_blank_line(line: Seq<char>, line_num: usize)
    requires
        is_blank(line),
    ensures
        line_outcome(line, line_num) == Ok::<Option<ItemView>, LrcParseError>(None),
{
}

/// A line that is not blank and does not begin with a complete bracket
/// group is refused, with its own number in the error.
pub proof fn lemma_line_without_group(line: Seq<char>, line_num: usize)
    requires
        !is_blank(line),
        leading_group(line) is None,
    ensures
        line_outcome(line, line_num) == Err::<Option<ItemView>, LrcParseError>(
            LrcParseError::NoTagInNonEmptyLine(line_num),
        ),
{
}

/// A line begins with no bracket group where it does not begin with `[`, or
/// holds no colon after it, or no `]` after that colon. So a line with no
/// `[`, no `:` or no `]` at all begins with none.
pub proof fn lemma_no_group(line: Seq<char>)
    requires
        !line.contains('[') || !line.contains(':') || !line.contains(']'),
    ensures
        leading_group(line) is None,
{
    if line.len() > 0 && line[0] == '[' {
        let inner = line.drop_first();
        lemma_first_index(inner, ':');
        if let Some(i) = first_index(inner, ':') {
            lemma_first_index(inner.skip(i + 1), ']');
        }
    }
}

/// A line that is not blank and holds no bracket at all is refused, with its
/// own number in the error.
pub proof fn lemma_line_without_brackets(line: Seq<char>, line_num: usize)
    requires
        !is_blank(line),
        !line.contains('['),
    ensures
        line_outcome(line, line_num) == Err::<Option<ItemView>, LrcParseError>(
            LrcParseError::NoTagInNonEmptyLine(line_num),
        ),
{
    lemma_no_group(line);
}

/// The code of a text tag is not empty, is not `offset` and is no integer.
pub proof fn lemma_text_tag_codes(code: Seq<char>)
    requires
        text_tag_of(code) is Some,
    ensures
        code.len() > 0,
        code != "offset"@,
        parse_i64(code) is None,
{
    reveal_strlit("ar");
    reveal_strlit("al");
    reveal_strlit("ti");
    reveal_strlit("au");
    reveal_strlit("length");
    reveal_strlit("by");
    reveal_strlit("re");
    reveal_strlit("ve");
    reveal_strlit("#");
    reveal_strlit("offset");
}

/// A line that begins with a well-formed text tag yields that tag's
/// metadata, its value trimmed, whatever follows the tag on the line.
pub proof fn lemma_text_tag_line(
    key: Seq<char>,
    value: Seq<char>,
    rest: Seq<char>,
    line_num: usize,
)
    requires
        !key.contains(':'),
        !value.contains(']'),
        text_tag_of(trim(key)) is Some,
    ensures
        line_outcome(bracket(key, value) + rest, line_num) == Ok::<
            Option<ItemView>,
            LrcParseError,
        >(Some(ItemView::Metadata(text_tag_of(trim(key)).unwrap().with(trim(value))))),
{
    lemma_scan_of_bracket(key, value, rest);
    lemma_text_tag_codes(trim(key));
    lemma_trim(key);
}

/// A line that begins with an offset tag yields the offset that its trimmed
/// value spells, and is refused where that is no integer.
pub proof fn lemma_offset_line(key: Seq<char>, value: Seq<char>, rest: Seq<char>, line_num: usize)
    requires
        !key.contains(':'),
        !value.contains(']'),
        trim(key) == "offset"@,
    ensures
        line_outcome(bracket(key, value) + rest, line_num) == (match parse_i64(trim(value)) {
            Some(offset) => Ok::<Option<ItemView>, LrcParseError>(
                Some(ItemView::Metadata(MetadataView::Offset(offset))),
            ),
            None => Err(LrcParseError::InvalidOffset(line_num)),
        }),
{
    lemma_scan_of_bracket(key, value, rest);
    lemma_trim(key);
    reveal_strlit("ar");
    reveal_strlit("al");
    reveal_strlit("ti");
    reveal_strlit("au");
    reveal_strlit("length");
    reveal_strlit("by");
    reveal_strlit("re");
    reveal_strlit("ve");
    reveal_strlit("#");
    reveal_strlit("offset");
}

/// A line whose first key is not empty and is neither a known code nor an
/// integer yields nothing: no item and no error.
pub proof fn lemma_unknown_key_line(
    key: Seq<char>,
    value: Seq<char>,
    rest: Seq<char>,
    line_num: usize,
)
    requires
        !key.contains(':'),
        !value.contains(']'),
        key.len() > 0 || value.len() > 0,
        text_tag_of(trim(key)) is None,
        trim(key) != "offset"@,
        parse_i64(trim(key)) is None,
    ensures
        line_outcome(bracket(key, value) + rest, line_num) == Ok::<
            Option<ItemView>,
            LrcParseError,
        >(None),
{
    lemma_scan_of_bracket(key, value, rest);
}

/// The line `[:]` with any text after it yields that text as a comment,
/// as it stands.
pub proof fn lemma_empty_tag_line(rest: Seq<char>, line_num: usize)
    ensures
        line_outcome(bracket(Seq::empty(), Seq::empty()) + rest, line_num) == Ok::<
            Option<ItemView>,
            LrcParseError,
        >(Some(ItemView::Metadata(MetadataView::Comment(scan(rest).rest)))),
        leading_group(rest) is None ==> scan(rest).rest == rest,
{
    lemma_scan_of_bracket(Seq::empty(), Seq::empty(), rest);
}

/// A line that is one timestamp and a text that begins with no bracket group
/// yields a lyric with that text, as it stands, and that one timestamp; it
/// is refused where the timestamp cannot be decoded.
pub proof fn lemma_single_timestamp_line(
    key: Seq<char>,
    value: Seq<char>,
    text: Seq<char>,
    line_num: usize,
)
    requires
        !key.contains(':'),
        !value.contains(']'),
        parse_i64(trim(key)) is Some,
        leading_group(text) is None,
    ensures
        line_outcome(bracket(key, value) + text, line_num) == (match segment_millis(
            Segment { key, value },
        ) {
            Some(millis) => Ok::<Option<ItemView>, LrcParseError>(
                Some(ItemView::Lyric(text, seq![millis])),
            ),
            None => Err(LrcParseError::InvalidTimestamp(line_num)),
        }),
{
    lemma_scan_of_bracket(key, value, text);
    lemma_trim(key);
    if text_tag_of(trim(key)) is Some {
        lemma_text_tag_codes(trim(key));
    }
    reveal_strlit("offset");
    if let Some(millis) = segment_millis(Segment { key, value }) {
        assert(timestamps(seq![Segment { key, value }]).unwrap() == seq![millis]);
    }
}

/// On a timestamp line every bracket group is decoded: the lyric has as
/// many timestamps as the line has groups, the `i`-th that of the `i`-th
/// group, and the line is refused where one group cannot be decoded.
pub proof fn lemma_timestamps(segments: Seq<Segment>)
    ensures
        match timestamps(segments) {
            Some(stamps) => stamps.len() == segments.len() && forall|i: int|
                0 <= i < segments.len() ==> segment_millis(#[trigger] segments[i]) == Some(
                    stamps[i],
                ),
            None => exists|i: int|
                0 <= i < segments.len() && segment_millis(#[trigger] segments[i]) is None,
        },
{
}

/// Every item that a line yields is well formed: a lyric has at least one
/// timestamp.
pub proof fn lemma_item_well_formed(line: Seq<char>, line_num: usize)
    ensures
        line_outcome(line, line_num) matches Ok(Some(item)) ==> item.well_formed(),
{
}

/// The number of a line shows in its error and nowhere else: at another
/// number the line yields the same item, or the same kind of error about
/// that other number.
pub proof fn lemma_line_number(line: Seq<char>, first: usize, second: usize)
    ensures
        match line_outcome(line, first) {
            Ok(item) => line_outcome(line, second) == Ok::<Option<ItemView>, LrcParseError>(item),
            Err(e) => e.line() == first && line_outcome(line, second) == Err::<
                Option<ItemView>,
                LrcParseError,
            >(error_at(e, second)),
        },
{
}

/// Where line `k` is the first that raises an error, the document's outcome
/// is that error, which is about line `k`, whatever the lines after `k` hold.
pub proof fn lemma_first_error(lines: Seq<Seq<char>>, k: int)
    requires
        0 <= k < lines.len(),
        k <= usize::MAX,
        line_outcome(lines[k], k as usize) is Err,
        forall|j: int| 0 <= j < k ==> line_outcome(#[trigger] lines[j], j as usize) is Ok,
    ensures
        document_outcome(lines) == Err::<Seq<ItemView>, LrcParseError>(
            line_outcome(lines[k], k as usize)->Err_0,
        ),
        document_outcome(lines)->Err_0.line() == k,
{
    lemma_no_error(lines.take(k));
    assert(lines.take(k + 1).drop_last() == lines.take(k));
    lemma_error_stays(lines, k + 1);
    lemma_line_number(lines[k], k as usize, k as usize);
}

/// A document yields items exactly where none of its lines raises an error.
pub proof fn lemma_no_error(lines: Seq<Seq<char>>)
    requires
        lines.len() <= usize::MAX,
    ensures
        document_outcome(lines) is Ok <==> forall|j: int|
            0 <= j < lines.len() ==> line_outcome(#[trigger] lines[j], j as usize) is Ok,
    decreases lines.len(),
{
    if lines.len() > 0 {
        let front = lines.drop_last();
        lemma_no_error(front);
        assert(forall|j: int| 0 <= j < front.len() ==> front[j] == lines[j]);
    }
}

/// A document that ends with one more line: an earlier error stands; else
/// the new line adds its item, if it yields one, or is the first error.
pub proof fn lemma_document_push(lines: Seq<Seq<char>>, line: Seq<char>)
    ensures
        document_outcome(lines.push(line)) == (match document_outcome(lines) {
            Ok(items) => match line_outcome(line, lines.len() as usize) {
                Ok(Some(item)) => Ok(items.push(item)),
                Ok(None) => Ok(items),
                Err(e) => Err(e),
            },
            Err(e) => Err(e),
        }),
{
    assert(lines.push(line).drop_last() == lines);
}

/// What a line yields depends on its characters and its number alone: two
/// lines with the same characters yield the same at the same number.
pub proof fn lemma_line_determined(first: &str, second: &str, line_num: usize)
    requires
        first@ == second@,
    ensures
        line_outcome(first@, line_num) == line_outcome(second@, line_num),
{
}

/// What a document yields depends on the characters of its lines alone.
pub proof fn lemma_document_determined(first: Seq<&str>, second: Seq<&str>)
    requires
        first.len() == second.len(),
        forall|i: int| 0 <= i < first.len() ==> first[i]@ == second[i]@,
    ensures
        document_outcome(lines_view(first)) == document_outcome(lines_view(second)),
{
    assert(lines_view(first) == lines_view(second));
}

/// Every power of ten is positive.
pub proof fn lemma_pow10_positive(n: nat)
    ensures
        pow10(n) > 0,
    decreases n,
{
    if n > 0 {
        lemma_pow10_positive((n - 1) as nat);
    }
}

/// The formula of a timestamp. Where the mantissa of the seconds, times one
/// thousand, fits in 96 bits, the timestamp is `minutes * 60000` plus the
/// whole part of `seconds * 1000`, the fraction of a millisecond cut off;
/// and there is none where that whole part or the sum is no `i64`.
pub proof fn lemma_timestamp_formula(minutes: i64, mantissa: i128, scale: u32)
    requires
        is_decimal(mantissa, scale),
        -MAX_MANTISSA <= mantissa * 1000 <= MAX_MANTISSA,
    ensures
        ({
            let millis = whole_part(mantissa * 1000, scale as nat);
            let total = minutes * MILLIS_PER_MINUTE + millis;
            timestamp_millis(minutes, (mantissa, scale)) == if i64::MIN <= millis <= i64::MAX
                && i64::MIN <= total <= i64::MAX {
                Some(total as i64)
            } else {
                None
            }
        }),
{
    lemma_pow10_positive(scale as nat);
}

} // verus!
