//! The document parser: the lines of a file, in order, to its items.

use crate::line::{line_outcome, parse_single};
use crate::types::{items_view, ItemView, LrcItem, LrcParseError};
use vstd::prelude::*;
use vstd::std_specs::iter::IteratorSpec;

verus! {

/// What the lines of a document yield, the lines numbered from zero: the
/// items of all the lines, in order, or the error of the first line that
/// raises one.
pub open spec fn document_outcome(lines: Seq<Seq<char>>) -> Result<Seq<ItemView>, LrcParseError>
    decreases lines.len(),
{
    if lines.len() == 0 {
        Ok(Seq::empty())
    } else {
        match document_outcome(lines.drop_last()) {
            Ok(items) => match line_outcome(lines.last(), (lines.len() - 1) as usize) {
                Ok(Some(item)) => Ok(items.push(item)),
                Ok(None) => Ok(items),
                Err(e) => Err(e),
            },
            Err(e) => Err(e),
        }
    }
}

/// The result of parsing a document as a mathematical value.
pub open spec fn document_result_view(r: Result<Vec<LrcItem<'_>>, LrcParseError>) -> Result<
    Seq<ItemView>,
    LrcParseError,
> {
    match r {
        Ok(items) => Ok(items_view(items@)),
        Err(e) => Err(e),
    }
}

/// The characters of each line.
pub open spec fn lines_view(lines: Seq<&str>) -> Seq<Seq<char>> {
    lines.map_values(|line: &str| line@)
}

/// Parses the lines of a document, numbering them from zero, and collects
/// the items they yield, in order. The first line that raises an error ends
/// the parse: that error is returned, and no item with it. No line after
/// that one is taken from the iterator.
///
/// The iterator has to end, and to yield no more lines than a `usize` can
/// number. The contract speaks of the lines that it is going to yield.
pub fn parse<'a>(lyric_lines: impl Iterator<Item = &'a str>) -> (r: Result<
    Vec<LrcItem<'a>>,
    LrcParseError,
>)
    requires
        lyric_lines.obeys_prophetic_iter_laws(),
        lyric_lines.decrease() is Some,
        lyric_lines.remaining().len() <= usize::MAX,
    ensures
        document_result_view(r) == document_outcome(lines_view(lyric_lines.remaining())),
{
    let mut lines = lyric_lines;
    let ghost all = lyric_lines.remaining();
    let mut items: Vec<LrcItem<'a>> = Vec::new();
    let mut line_num: usize = 0;
    assert(items_view(items@) == Seq::<ItemView>::empty());
    loop
        invariant
            lines.obeys_prophetic_iter_laws(),
            lines.decrease() is Some,
            all == lyric_lines.remaining(),
            all.len() <= usize::MAX,
            line_num <= all.len(),
            lines.remaining() == all.skip(line_num as int),
            document_outcome(lines_view(all).take(line_num as int)) == Ok::<
                Seq<ItemView>,
                LrcParseError,
            >(items_view(items@)),
        decreases lines.decrease()->0,
    {
        match lines.next() {
            Some(line) => {
                let ghost before = items@;
                assert(lines_view(all).take(line_num + 1).drop_last() == lines_view(all).take(
                    line_num as int,
                ));
                match parse_single(line, line_num) {
                    Ok(Some(item)) => {
                        items.push(item);
                        assert(items_view(items@) == items_view(before).push(item@));
                    },
                    Ok(None) => {},
                    Err(e) => {
                        proof {
                            lemma_error_stays(lines_view(all), line_num + 1);
                        }
                        return Err(e);
                    },
                }
                line_num += 1;
            },
            None => {
                assert(lines_view(all).take(line_num as int) == lines_view(all));
                return Ok(items);
            },
        }
    }
}

/// An error among the first `k` lines is the error of the whole document.
pub proof fn lemma_error_stays(lines: Seq<Seq<char>>, k: int)
    requires
        0 <= k <= lines.len(),
        document_outcome(lines.take(k)) is Err,
    ensures
        document_outcome(lines) == document_outcome(lines.take(k)),
    decreases lines.len(),
{
    if k < lines.len() {
        assert(lines.drop_last().take(k) == lines.take(k));
        lemma_error_stays(lines.drop_last(), k);
    } else {
        assert(lines.take(k) == lines);
    }
}

} // verus!
