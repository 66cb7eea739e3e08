//! Splitting captured text into lines, the way the verdict rule reads it:
//! lines end at a line feed or at a carriage return followed by a line feed,
//! and a final line ending is optional.

use vstd::prelude::*;

verus! {

pub const LINE_FEED: u8 = 10;

pub const CARRIAGE_RETURN: u8 = 13;

/// Index of the first line feed in `s`, or `s.len()` if there is none.
pub open spec fn line_feed_index(s: Seq<u8>) -> int
    decreases s.len(),
{
    if s.len() == 0 {
        0
    } else if s[0] == LINE_FEED {
        0
    } else {
        1 + line_feed_index(s.skip(1))
    }
}

/// `line_feed_index` points at the first line feed: everything before it is
/// not a line feed, and it is a line feed unless it is the end of `s`.
pub proof fn lemma_line_feed_index(s: Seq<u8>)
    ensures
        0 <= line_feed_index(s) <= s.len(),
        forall|j: int| 0 <= j < line_feed_index(s) ==> s[j] != LINE_FEED,
        line_feed_index(s) < s.len() ==> s[line_feed_index(s)] == LINE_FEED,
    decreases s.len(),
{
    if s.len() != 0 && s[0] != LINE_FEED {
        lemma_line_feed_index(s.skip(1));
        assert forall|j: int| 0 <= j < line_feed_index(s) implies s[j] != LINE_FEED by {
            if j > 0 {
                assert(s.skip(1)[j - 1] == s[j]);
            }
        }
        if line_feed_index(s) < s.len() {
            assert(s.skip(1)[line_feed_index(s) - 1] == s[line_feed_index(s)]);
        }
    }
}

/// Any position with no line feed before it, and a line feed at it (or the
/// end of `s` at it), is `line_feed_index(s)`.
pub proof fn lemma_line_feed_index_unique(s: Seq<u8>, i: int)
    requires
        0 <= i <= s.len(),
        forall|j: int| 0 <= j < i ==> s[j] != LINE_FEED,
        i < s.len() ==> s[i] == LINE_FEED,
    ensures
        line_feed_index(s) == i,
    decreases s.len(),
{
    if s.len() != 0 && s[0] != LINE_FEED {
        assert forall|j: int| 0 <= j < i - 1 implies s.skip(1)[j] != LINE_FEED by {
            assert(s.skip(1)[j] == s[j + 1]);
        }
        assert(i >= 1);
        if i - 1 < s.len() - 1 {
            assert(s.skip(1)[i - 1] == s[i]);
        }
        lemma_line_feed_index_unique(s.skip(1), i - 1);
    }
}

/// A line-feed-terminated line with a trailing carriage return has that
/// carriage return removed.
pub open spec fn strip_carriage_return(line: Seq<u8>) -> Seq<u8> {
    if line.len() > 0 && line[line.len() - 1] == CARRIAGE_RETURN {
        line.take(line.len() - 1)
    } else {
        line
    }
}

/// The lines of `s`: split at each line feed, stripping a carriage return
/// that stands just before a line feed; text after the last line feed forms a
/// final line only if it is non-empty.
pub open spec fn line_seq(s: Seq<u8>) -> Seq<Seq<u8>>
    decreases s.len() via line_seq_decreases
{
    if s.len() == 0 {
        Seq::empty()
    } else {
        let i = line_feed_index(s);
        if i == s.len() {
            seq![s]
        } else {
            seq![strip_carriage_return(s.take(i))] + line_seq(s.skip(i + 1))
        }
    }
}

#[via_fn]
proof fn line_seq_decreases(s: Seq<u8>) {
    lemma_line_feed_index(s);
}

/// Index of the first line feed in `text` at or after `start`, or
/// `text.len()` if there is none.
fn find_line_feed(text: &Vec<u8>, start: usize) -> (r: usize)
    requires
        start <= text@.len(),
    ensures
        start <= r <= text@.len(),
        r == start + line_feed_index(text@.skip(start as int)),
{
    let mut i: usize = start;
    while i < text.len()
        invariant
            start <= i <= text@.len(),
            forall|j: int| start <= j < i ==> text@[j] != LINE_FEED,
        decreases text.len() - i,
    {
        if text[i] == LINE_FEED {
            proof {
                assert forall|j: int| 0 <= j < i - start implies text@.skip(start as int)[j]
                    != LINE_FEED by {
                    assert(text@.skip(start as int)[j] == text@[start + j]);
                }
                assert(text@.skip(start as int)[i - start] == text@[i as int]);
                lemma_line_feed_index_unique(text@.skip(start as int), i - start);
            }
            return i;
        }
        i += 1;
    }
    proof {
        assert forall|j: int| 0 <= j < text@.len() - start implies text@.skip(start as int)[j]
            != LINE_FEED by {
            assert(text@.skip(start as int)[j] == text@[start + j]);
        }
        lemma_line_feed_index_unique(text@.skip(start as int), text@.len() - start);
    }
    i
}

/// Copy of `text[start..end]`.
fn copy_range(text: &Vec<u8>, start: usize, end: usize) -> (r: Vec<u8>)
    requires
        start <= end <= text@.len(),
    ensures
        r@ == text@.subrange(start as int, end as int),
{
    let mut out: Vec<u8> = Vec::new();
    let mut i: usize = start;
    while i < end
        invariant
            start <= i <= end <= text@.len(),
            out@ =~= text@.subrange(start as int, i as int),
        decreases end - i,
    {
        out.push(text[i]);
        i += 1;
    }
    out
}

/// Split `text` into its lines.
pub fn split_lines(text: &Vec<u8>) -> (r: Vec<Vec<u8>>)
    ensures
        r.deep_view() == line_seq(text@),
{
    let mut out: Vec<Vec<u8>> = Vec::new();
    let mut start: usize = 0;
    proof {
        assert(text@.skip(0) =~= text@);
        assert(out.deep_view() =~= Seq::<Seq<u8>>::empty());
        assert(Seq::<Seq<u8>>::empty() + line_seq(text@) =~= line_seq(text@));
    }
    while start < text.len()
        invariant
            start <= text@.len(),
            line_seq(text@) =~= out.deep_view() + line_seq(text@.skip(start as int)),
        decreases text.len() - start,
    {
        let next = find_line_feed(text, start);
        let ghost rest = text@.skip(start as int);
        let ghost dv = out.deep_view();
        proof {
            lemma_line_feed_index(rest);
        }
        if next == text.len() {
            // No further line feed: the remaining non-empty text is one line,
            // with no carriage-return stripping.
            let line = copy_range(text, start, next);
            proof {
                assert(rest =~= text@.subrange(start as int, next as int));
                assert(line_seq(rest) == seq![rest]);
            }
            out.push(line);
            proof {
                assert(out.deep_view() =~~= dv.push(line@));
                assert(dv.push(line@) =~= dv + seq![rest]);
            }
            start = next;
        } else {
            let raw = copy_range(text, start, next);
            let line = if raw.len() > 0 && raw[raw.len() - 1] == CARRIAGE_RETURN {
                copy_range(text, start, next - 1)
            } else {
                raw
            };
            let ghost head = rest.take(line_feed_index(rest));
            proof {
                assert(head =~= text@.subrange(start as int, next as int));
                if head.len() > 0 && head[head.len() - 1] == CARRIAGE_RETURN {
                    assert(line@ =~= strip_carriage_return(head));
                } else {
                    assert(line@ =~= strip_carriage_return(head));
                }
                assert(line_seq(rest) == seq![line@] + line_seq(
                    rest.skip(line_feed_index(rest) + 1),
                ));
                assert(rest.skip(line_feed_index(rest) + 1) =~= text@.skip(next + 1));
            }
            out.push(line);
            proof {
                assert(out.deep_view() =~~= dv.push(line@));
                assert(line_seq(text@) =~= out.deep_view() + line_seq(text@.skip(next + 1)));
            }
            start = next + 1;
        }
    }
    proof {
        assert(line_seq(text@.skip(start as int)) =~= Seq::<Seq<u8>>::empty());
        assert(out.deep_view() =~= out.deep_view() + line_seq(text@.skip(start as int)));
    }
    out
}

} // verus!
