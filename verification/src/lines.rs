//! Mathematical model of the line structure of a text.
//!
//! A text is a sequence of characters; a newline character ends a line, and
//! the character after a newline starts the next line. A text always has at
//! least one line: a text without newlines is all of line `0`, and a text
//! that ends in a newline has a final empty line. Lines are numbered from
//! `0`; the length of a line includes its terminating newline, if any.

use vstd::prelude::*;

verus! {

/// Number of newline characters in `t`.
pub open spec fn newline_count(t: Seq<char>) -> int
    decreases t.len(),
{
    if t.len() == 0 {
        0
    } else {
        (if t[0] == '\n' {
            1int
        } else {
            0int
        }) + newline_count(t.skip(1))
    }
}

/// Number of lines of `t`: one more than the number of newlines.
pub open spec fn line_count(t: Seq<char>) -> int {
    newline_count(t) + 1
}

/// Character index of the first character of line `l`.
///
/// For `l == line_count(t)` (one past the last line) this is `t.len()`,
/// the conventional one-past-the-end index.
pub open spec fn line_start(t: Seq<char>, l: int) -> int
    decreases t.len(),
{
    if l <= 0 || t.len() == 0 {
        0
    } else if t[0] == '\n' {
        1 + line_start(t.skip(1), l - 1)
    } else {
        1 + line_start(t.skip(1), l)
    }
}

/// Line containing character index `i`: the number of newlines before `i`.
///
/// The one-past-the-end index `t.len()` belongs to the last line.
pub open spec fn line_of(t: Seq<char>, i: int) -> int
    decreases t.len(),
{
    if i <= 0 || t.len() == 0 {
        0
    } else {
        (if t[0] == '\n' {
            1int
        } else {
            0int
        }) + line_of(t.skip(1), i - 1)
    }
}

/// Length in characters of line `l`, including its terminating newline.
pub open spec fn line_len(t: Seq<char>, l: int) -> int {
    line_start(t, l + 1) - line_start(t, l)
}

/// There is no negative number of newlines.
pub proof fn lemma_newline_count_nonneg(t: Seq<char>)
    ensures
        newline_count(t) >= 0,
    decreases t.len(),
{
    if t.len() > 0 {
        lemma_newline_count_nonneg(t.skip(1));
    }
}

/// Every line starts within `[0, t.len()]`.
pub proof fn lemma_line_start_bounds(t: Seq<char>, l: int)
    ensures
        0 <= line_start(t, l) <= t.len(),
    decreases t.len(),
{
    if !(l <= 0 || t.len() == 0) {
        if t[0] == '\n' {
            lemma_line_start_bounds(t.skip(1), l - 1);
        } else {
            lemma_line_start_bounds(t.skip(1), l);
        }
    }
}

/// A later line starts no earlier.
pub proof fn lemma_line_start_monotone(t: Seq<char>, l1: int, l2: int)
    requires
        l1 <= l2,
    ensures
        line_start(t, l1) <= line_start(t, l2),
    decreases t.len(),
{
    if l1 <= 0 {
        lemma_line_start_bounds(t, l2);
    } else if t.len() > 0 {
        if t[0] == '\n' {
            lemma_line_start_monotone(t.skip(1), l1 - 1, l2 - 1);
        } else {
            lemma_line_start_monotone(t.skip(1), l1, l2);
        }
    }
}

/// The line of any index is one of the text's lines.
pub proof fn lemma_line_of_bounds(t: Seq<char>, i: int)
    ensures
        0 <= line_of(t, i) <= newline_count(t),
    decreases t.len(),
{
    if t.len() == 0 {
        lemma_newline_count_nonneg(t);
    } else if i <= 0 {
        lemma_newline_count_nonneg(t);
    } else {
        lemma_line_of_bounds(t.skip(1), i - 1);
    }
}

/// An index lies between the start of its line and the start of the next.
pub proof fn lemma_line_of_start(t: Seq<char>, i: int)
    requires
        0 <= i <= t.len(),
    ensures
        line_start(t, line_of(t, i)) <= i <= line_start(t, line_of(t, i) + 1),
    decreases t.len(),
{
    if i <= 0 || t.len() == 0 {
        lemma_line_start_bounds(t, line_of(t, i) + 1);
    } else {
        lemma_line_of_start(t.skip(1), i - 1);
        lemma_line_of_bounds(t.skip(1), i - 1);
    }
}

/// An index strictly inside the span of line `l` lies on line `l`.
pub proof fn lemma_line_of_within(t: Seq<char>, l: int, c: int)
    requires
        0 <= l <= newline_count(t),
        0 <= c,
        line_start(t, l) + c < line_start(t, l + 1),
    ensures
        line_of(t, line_start(t, l) + c) == l,
    decreases t.len(),
{
    if t.len() == 0 {
        lemma_line_start_bounds(t, l + 1);
    } else if l == 0 {
        if c > 0 {
            if t[0] == '\n' {
                assert(line_start(t, 1) == 1 + line_start(t.skip(1), 0));
            } else {
                lemma_line_of_within(t.skip(1), 0, c - 1);
            }
        }
    } else {
        if t[0] == '\n' {
            lemma_line_of_within(t.skip(1), l - 1, c);
        } else {
            lemma_line_of_within(t.skip(1), l, c);
        }
    }
}

} // verus!
