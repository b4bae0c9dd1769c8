//! The timestamp decoder: from the minutes and the seconds of a bracket
//! group to milliseconds.

use crate::decimal::{
    decimal_checked_mul, decimal_from_str_exact, decimal_from_text, decimal_product,
    decimal_to_i64, is_decimal, plain_product, product_is_plain, whole_i64,
};
use crate::integer::{parse_i64, read_i64};
use crate::scan::{segments_of, Segment, Span};
use vstd::prelude::*;

verus! {

/// Milliseconds in a second, as a decimal.
pub const THOUSAND: (i128, u32) = (1000, 0);

/// Milliseconds in a minute.
pub const MILLIS_PER_MINUTE: i64 = 60_000;

/// `String::push` of std.
///
/// Trusted: it appends the character to the end of the string and changes
/// nothing else of it.
pub assume_specification[ String::push ](s: &mut String, ch: char)
    ensures
        final(s)@ == old(s)@.push(ch),
;

/// The seconds of a timestamp with every colon turned into a full stop, so
/// that `12:34` reads as `12.34`.
pub open spec fn normalize_seconds(value: Seq<char>) -> Seq<char> {
    value.map_values(
        |c: char|
            if c == ':' {
                '.'
            } else {
                c
            },
    )
}

/// Seconds, given as a decimal, times one thousand. Where the mantissa times
/// one thousand fits in 96 bits this is the exact product; beyond that it is
/// what `rust_decimal` computes, which may round or overflow.
pub open spec fn seconds_times_thousand(mantissa: i128, scale: u32) -> Option<(i128, u32)> {
    if product_is_plain((mantissa, scale), THOUSAND) {
        Some(plain_product((mantissa, scale), THOUSAND))
    } else {
        decimal_checked_mul(mantissa, scale, THOUSAND.0, THOUSAND.1)
    }
}

/// Minutes and a count of milliseconds, given as a decimal, put together:
/// `minutes * 60000` plus the whole part of the decimal. `None` where there
/// is no decimal, or where its whole part or the sum is no `i64`.
pub open spec fn total_millis(minutes: i64, product: Option<(i128, u32)>) -> Option<i64> {
    match product {
        Some((mantissa, scale)) => match whole_i64(mantissa, scale) {
            Some(millis) => {
                let total = minutes * MILLIS_PER_MINUTE + millis;
                if i64::MIN <= total <= i64::MAX {
                    Some(total as i64)
                } else {
                    None
                }
            },
            None => None,
        },
        None => None,
    }
}

/// The timestamp that minutes and seconds stand for, in milliseconds:
/// `minutes * 60000 + whole part of (seconds * 1000)`.
pub open spec fn timestamp_millis(minutes: i64, seconds: (i128, u32)) -> Option<i64> {
    total_millis(minutes, seconds_times_thousand(seconds.0, seconds.1))
}

/// The timestamp that a bracket group stands for: its key read as minutes,
/// its value, colons normalized, read as an exact decimal of seconds. `None`
/// where either cannot be read or the milliseconds are no `i64`.
pub open spec fn segment_millis(segment: Segment) -> Option<i64> {
    match (parse_i64(segment.key), decimal_from_str_exact(normalize_seconds(segment.value))) {
        (Some(minutes), Some(seconds)) => timestamp_millis(minutes, seconds),
        _ => None,
    }
}

/// The timestamps of a line: those of all its bracket groups, in order;
/// `None` where one of them has none.
pub open spec fn timestamps(segments: Seq<Segment>) -> Option<Seq<i64>> {
    if forall|i: int| 0 <= i < segments.len() ==> segment_millis(#[trigger] segments[i]) is Some {
        Some(segments.map_values(|segment: Segment| segment_millis(segment).unwrap()))
    } else {
        None
    }
}

/// Puts minutes and a decimal count of milliseconds together.
pub fn millis_from_product(minutes: i64, product: Option<(i128, u32)>) -> (r: Option<i64>)
    requires
        product matches Some((mantissa, scale)) ==> is_decimal(mantissa, scale),
    ensures
        r == total_millis(minutes, product),
{
    match product {
        Some((mantissa, scale)) => match decimal_to_i64(mantissa, scale) {
            Some(millis) => {
                let total: i128 = (minutes as i128) * (MILLIS_PER_MINUTE as i128) + (
                millis as i128);
                if total < i64::MIN as i128 || total > i64::MAX as i128 {
                    None
                } else {
                    Some(total as i64)
                }
            },
            None => None,
        },
        None => None,
    }
}

/// Computes a timestamp from minutes and from seconds given as a decimal.
pub fn millis_from_seconds(minutes: i64, seconds: (i128, u32)) -> (r: Option<i64>)
    requires
        is_decimal(seconds.0, seconds.1),
    ensures
        r == timestamp_millis(minutes, seconds),
{
    millis_from_product(minutes, decimal_product(seconds, THOUSAND))
}

/// Writes `chars[from..to]` out with its colons normalized.
pub fn normalized_seconds(chars: &[char], from: usize, to: usize) -> (r: String)
    requires
        from <= to <= chars.len(),
    ensures
        r@ == normalize_seconds(chars@.subrange(from as int, to as int)),
{
    let mut out = String::new();
    let mut i: usize = from;
    while i < to
        invariant
            from <= i <= to <= chars.len(),
            out@ == normalize_seconds(chars@.subrange(from as int, i as int)),
        decreases to - i,
    {
        let c: char = chars[i];
        out.push(
            if c == ':' {
                '.'
            } else {
                c
            },
        );
        i += 1;
    }
    out
}

/// Decodes the timestamp of one bracket group of a line.
pub fn decode_segment(chars: &[char], span: Span) -> (r: Option<i64>)
    requires
        span.within(chars@),
    ensures
        r == segment_millis(span.segment(chars@)),
{
    let text = normalized_seconds(chars, span.colon + 1, span.close);
    let seconds = match decimal_from_text(text.as_str()) {
        Some(seconds) => seconds,
        None => {
            return None;
        },
    };
    match read_i64(chars, span.open + 1, span.colon) {
        Some(minutes) => millis_from_seconds(minutes, seconds),
        None => None,
    }
}

/// Decodes the timestamps of all the bracket groups of a line.
pub fn decode_segments(chars: &[char], spans: &Vec<Span>) -> (r: Option<Vec<i64>>)
    requires
        forall|i: int| 0 <= i < spans.len() ==> (#[trigger] spans[i]).within(chars@),
    ensures
        match r {
            Some(v) => timestamps(segments_of(chars@, spans@)) == Some(v@),
            None => timestamps(segments_of(chars@, spans@)) is None,
        },
{
    let ghost segments = segments_of(chars@, spans@);
    let mut out: Vec<i64> = Vec::with_capacity(spans.len());
    let mut i: usize = 0;
    while i < spans.len()
        invariant
            i <= spans.len(),
            segments == segments_of(chars@, spans@),
            forall|j: int| 0 <= j < spans.len() ==> (#[trigger] spans[j]).within(chars@),
            out.len() == i,
            forall|j: int| 0 <= j < i ==> segment_millis(#[trigger] segments[j]) == Some(out[j]),
        decreases spans.len() - i,
    {
        match decode_segment(chars, spans[i]) {
            Some(millis) => {
                out.push(millis);
            },
            None => {
                assert(segment_millis(segments[i as int]) is None);
                return None;
            },
        }
        i += 1;
    }
    Some(out)
}

} // verus!
