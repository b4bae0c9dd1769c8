//! The tag scanner: the bracket groups `[key:value]` that a line begins
//! with, and the text that follows the last of them.

use vstd::prelude::*;

verus! {

/// One bracket group: the raw text before and after its first colon.
pub struct Segment {
    pub key: Seq<char>,
    pub value: Seq<char>,
}

/// What scanning a line yields: its leading bracket groups, in order, and the
/// text after the last of them.
pub struct Scan {
    pub segments: Seq<Segment>,
    pub rest: Seq<char>,
}

/// The position of the first `c` in `s`, if `c` occurs in `s`.
pub open spec fn first_index(s: Seq<char>, c: char) -> Option<int>
    decreases s.len(),
{
    if s.len() == 0 {
        None
    } else if s[0] == c {
        Some(0)
    } else {
        match first_index(s.drop_first(), c) {
            Some(i) => Some(i + 1),
            None => None,
        }
    }
}

/// `first_index` finds an occurrence that no other precedes, and finds one
/// wherever there is one.
pub proof fn lemma_first_index(s: Seq<char>, c: char)
    ensures
        match first_index(s, c) {
            Some(i) => 0 <= i < s.len() && s[i] == c && forall|j: int| 0 <= j < i ==> s[j] != c,
            None => forall|j: int| 0 <= j < s.len() ==> s[j] != c,
        },
    decreases s.len(),
{
    if s.len() > 0 && s[0] != c {
        let t = s.drop_first();
        lemma_first_index(t, c);
        match first_index(t, c) {
            Some(i) => {
                assert forall|j: int| 0 <= j < i + 1 implies s[j] != c by {
                    if j > 0 {
                        assert(s[j] == t[j - 1]);
                    }
                }
            },
            None => {
                assert forall|j: int| 0 <= j < s.len() implies s[j] != c by {
                    if j > 0 {
                        assert(s[j] == t[j - 1]);
                    }
                }
            },
        }
    }
}

/// An occurrence that no other precedes is the one that `first_index` finds.
pub proof fn lemma_first_index_at(s: Seq<char>, c: char, i: int)
    requires
        0 <= i < s.len(),
        s[i] == c,
        forall|j: int| 0 <= j < i ==> s[j] != c,
    ensures
        first_index(s, c) == Some(i),
{
    lemma_first_index(s, c);
}

/// Where `c` does not occur, `first_index` finds nothing.
pub proof fn lemma_first_index_none(s: Seq<char>, c: char)
    requires
        forall|j: int| 0 <= j < s.len() ==> s[j] != c,
    ensures
        first_index(s, c) is None,
{
    lemma_first_index(s, c);
}

/// The bracket group that `s` begins with, and the text after it: `[`, the
/// key up to the first colon, the value up to the first `]` after that colon.
pub open spec fn leading_group(s: Seq<char>) -> Option<(Segment, Seq<char>)> {
    if s.len() > 0 && s[0] == '[' {
        let inner = s.drop_first();
        match first_index(inner, ':') {
            Some(i) => {
                let after_colon = inner.skip(i + 1);
                match first_index(after_colon, ']') {
                    Some(j) => Some(
                        (
                            Segment { key: inner.take(i), value: after_colon.take(j) },
                            after_colon.skip(j + 1),
                        ),
                    ),
                    None => None,
                }
            },
            None => None,
        }
    } else {
        None
    }
}

/// What follows a leading group is shorter than the text it was taken from.
pub proof fn lemma_leading_group_shrinks(s: Seq<char>)
    ensures
        leading_group(s) matches Some((_, rest)) ==> rest.len() + 3 <= s.len(),
{
    if s.len() > 0 && s[0] == '[' {
        let inner = s.drop_first();
        lemma_first_index(inner, ':');
        if let Some(i) = first_index(inner, ':') {
            lemma_first_index(inner.skip(i + 1), ']');
        }
    }
}

/// The scan of `s`: bracket groups are taken from the front for as long as
/// one follows the other directly.
pub open spec fn scan(s: Seq<char>) -> Scan
    decreases s.len(),
{
    match leading_group(s) {
        Some((segment, rest)) => {
            proof {
                lemma_leading_group_shrinks(s);
            }
            let tail = scan(rest);
            Scan { segments: seq![segment] + tail.segments, rest: tail.rest }
        },
        None => Scan { segments: Seq::empty(), rest: s },
    }
}

/// Where a bracket group lies in a line: the positions of its `[`, of its
/// first colon, and of the `]` that closes it.
#[derive(Clone, Copy, Debug)]
pub struct Span {
    pub open: usize,
    pub colon: usize,
    pub close: usize,
}

impl Span {
    /// Whether the span lies within `s`, its three positions in order.
    pub open spec fn within(self, s: Seq<char>) -> bool {
        self.open < self.colon < self.close < s.len()
    }

    /// The segment that the span marks in `s`.
    pub open spec fn segment(self, s: Seq<char>) -> Segment {
        Segment {
            key: s.subrange(self.open + 1, self.colon as int),
            value: s.subrange(self.colon + 1, self.close as int),
        }
    }
}

/// The segments that `spans` mark in `s`.
pub open spec fn segments_of(s: Seq<char>, spans: Seq<Span>) -> Seq<Segment> {
    spans.map_values(|span: Span| span.segment(s))
}

/// Finds the first `c` in `chars[from..]`.
pub fn find_char(chars: &[char], c: char, from: usize) -> (r: Option<usize>)
    requires
        from <= chars.len(),
    ensures
        match r {
            Some(i) => from <= i < chars.len() && first_index(chars@.skip(from as int), c) == Some(
                i - from,
            ),
            None => first_index(chars@.skip(from as int), c) is None,
        },
{
    let mut i: usize = from;
    while i < chars.len()
        invariant
            from <= i <= chars.len(),
            forall|j: int| from <= j < i ==> chars@[j] != c,
        decreases chars.len() - i,
    {
        if chars[i] == c {
            proof {
                lemma_first_index_at(chars@.skip(from as int), c, i - from);
            }
            return Some(i);
        }
        i += 1;
    }
    proof {
        lemma_first_index_none(chars@.skip(from as int), c);
    }
    None
}

/// Finds the bracket group that begins at `pos`, if one does.
pub fn group_at(chars: &[char], pos: usize) -> (r: Option<Span>)
    requires
        pos <= chars.len(),
    ensures
        match r {
            Some(span) => span.open == pos && span.within(chars@) && leading_group(
                chars@.skip(pos as int),
            ) == Some((span.segment(chars@), chars@.skip(span.close + 1))),
            None => leading_group(chars@.skip(pos as int)) is None,
        },
{
    if pos >= chars.len() || chars[pos] != '[' {
        return None;
    }
    let ghost inner = chars@.skip(pos as int).drop_first();
    assert(inner == chars@.skip(pos + 1));
    let colon: usize = match find_char(chars, ':', pos + 1) {
        Some(i) => i,
        None => {
            return None;
        },
    };
    let ghost after_colon = inner.skip(colon - pos);
    assert(after_colon == chars@.skip(colon + 1));
    let close: usize = match find_char(chars, ']', colon + 1) {
        Some(j) => j,
        None => {
            return None;
        },
    };
    let span = Span { open: pos, colon, close };
    assert(inner.take(colon - pos - 1) == span.segment(chars@).key);
    assert(after_colon.take(close - colon - 1) == span.segment(chars@).value);
    Some(span)
}

/// Scans a line: the spans of its leading bracket groups, in order, and the
/// position at which its trailing text begins.
pub fn scan_spans(chars: &[char]) -> (r: (Vec<Span>, usize))
    ensures
        r.1 <= chars.len(),
        scan(chars@).rest == chars@.skip(r.1 as int),
        scan(chars@).segments == segments_of(chars@, r.0@),
        forall|i: int| 0 <= i < r.0.len() ==> (#[trigger] r.0[i]).within(chars@),
{
    let mut spans: Vec<Span> = Vec::new();
    let mut pos: usize = 0;
    assert(chars@.skip(0) == chars@);
    loop
        invariant
            pos <= chars.len(),
            scan(chars@).rest == scan(chars@.skip(pos as int)).rest,
            scan(chars@).segments == segments_of(chars@, spans@) + scan(
                chars@.skip(pos as int),
            ).segments,
            forall|i: int| 0 <= i < spans.len() ==> (#[trigger] spans[i]).within(chars@),
        decreases chars.len() - pos,
    {
        match group_at(chars, pos) {
            Some(span) => {
                spans.push(span);
                pos = span.close + 1;
            },
            None => {
                return (spans, pos);
            },
        }
    }
}

} // verus!
