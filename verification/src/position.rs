//! Line and column positions in a byte buffer.
//!
//! A position names a byte offset by the one-based number of its line and the
//! number of bytes between the start of that line and the offset. Lines end
//! with a line feed.

use vstd::prelude::*;

verus! {

/// The byte that ends a line.
pub const LINE_FEED: u8 = 10;

/// The offset just past the `n`-th line feed at or after `from`, or `None` if
/// `buf` holds fewer than `n` line feeds from there on.
pub open spec fn after_line_feeds(buf: Seq<u8>, from: int, n: nat) -> Option<int>
    decreases buf.len() - from,
{
    if n == 0 {
        Some(from)
    } else if from < 0 || from >= buf.len() {
        None
    } else if buf[from] == LINE_FEED {
        after_line_feeds(buf, from + 1, (n - 1) as nat)
    } else {
        after_line_feeds(buf, from + 1, n)
    }
}

/// The byte offset that `line` and `column` name in `buf`: `column` bytes
/// past the start of the one-based `line`. `None` if there is no such line or
/// the offset lies beyond the end of `buf`. The end itself is an offset.
pub open spec fn offset_of(buf: Seq<u8>, line: nat, column: nat) -> Option<int> {
    if line == 0 {
        None
    } else {
        match after_line_feeds(buf, 0, (line - 1) as nat) {
            Some(start) => if start + column <= buf.len() {
                Some(start + column)
            } else {
                None
            },
            None => None,
        }
    }
}

/// A line start that is found in `buf` lies inside it.
pub proof fn lemma_after_line_feeds_bounds(buf: Seq<u8>, from: int, n: nat)
    requires
        0 <= from <= buf.len(),
    ensures
        after_line_feeds(buf, from, n) matches Some(s) ==> from <= s <= buf.len(),
    decreases buf.len() - from,
{
    if n != 0 && from < buf.len() {
        if buf[from] == LINE_FEED {
            lemma_after_line_feeds_bounds(buf, from + 1, (n - 1) as nat);
        } else {
            lemma_after_line_feeds_bounds(buf, from + 1, n);
        }
    }
}

/// A line start that is found in `buf` is found at the same place in every
/// buffer that begins with `buf`.
pub proof fn lemma_after_line_feeds_extend(buf: Seq<u8>, more: Seq<u8>, from: int, n: nat)
    requires
        0 <= from <= buf.len(),
        after_line_feeds(buf, from, n) is Some,
    ensures
        after_line_feeds(buf + more, from, n) == after_line_feeds(buf, from, n),
    decreases buf.len() - from,
{
    if n != 0 {
        assert(from < buf.len());
        assert((buf + more)[from] == buf[from]);
        if buf[from] == LINE_FEED {
            lemma_after_line_feeds_extend(buf, more, from + 1, (n - 1) as nat);
        } else {
            lemma_after_line_feeds_extend(buf, more, from + 1, n);
        }
    }
}

/// A position that names an offset of `buf` names the same offset in every
/// buffer that begins with `buf`.
pub proof fn lemma_offset_of_extend(buf: Seq<u8>, more: Seq<u8>, line: nat, column: nat)
    requires
        offset_of(buf, line, column) is Some,
    ensures
        offset_of(buf + more, line, column) == offset_of(buf, line, column),
{
    lemma_after_line_feeds_extend(buf, more, 0, (line - 1) as nat);
}

/// The offset that a position names is an offset of the buffer.
pub proof fn lemma_offset_of_bounds(buf: Seq<u8>, line: nat, column: nat)
    ensures
        offset_of(buf, line, column) matches Some(e) ==> 0 <= e <= buf.len(),
{
    if line != 0 {
        lemma_after_line_feeds_bounds(buf, 0, (line - 1) as nat);
    }
}

/// Finds the byte offset that `line` and `column` name in `buf`.
pub fn locate(buf: &[u8], line: usize, column: usize) -> (r: Option<usize>)
    ensures
        match r {
            Some(e) => offset_of(buf@, line as nat, column as nat) == Some(e as int),
            None => offset_of(buf@, line as nat, column as nat).is_none(),
        },
{
    if line == 0 {
        return None;
    }
    let mut at: usize = 0;
    let mut left: usize = line - 1;
    while left > 0
        invariant
            at <= buf.len(),
            after_line_feeds(buf@, 0, (line - 1) as nat) == after_line_feeds(
                buf@,
                at as int,
                left as nat,
            ),
        decreases buf.len() - at,
    {
        if at >= buf.len() {
            return None;
        }
        if buf[at] == LINE_FEED {
            left = left - 1;
        }
        at = at + 1;
    }
    if column <= buf.len() - at {
        Some(at + column)
    } else {
        None
    }
}

} // verus!
