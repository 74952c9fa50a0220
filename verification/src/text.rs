//! Symbolic addresses, selections, and the buffer that owns the text.
//!
//! An [`Addr`] names a position in a buffer symbolically; it is resolved to
//! an absolute character index (or to a line/column pair) against the
//! buffer's current contents. A [`Dot`] is a selection: an ordered pair of
//! resolved indices denoting the half-open span `[from, to)`. The [`Buffer`]
//! owns the text and answers reads and replacements over a dot's span.
//!
//! Resolved indices are meaningful only for the buffer state they were
//! resolved against; a dot stores absolute indices, so an edit through one
//! dot does not re-anchor any other dot over the same buffer.

use vstd::prelude::*;

use crate::TextError;
use crate::body;
use crate::body::rope_chars;
use crate::lines::{
    lemma_line_of_bounds, lemma_line_of_start, lemma_line_of_within, lemma_line_start_bounds,
    lemma_line_start_monotone, line_count, line_len, line_of, line_start,
};

verus! {

/// A symbolic position in a buffer, resolved against the buffer's current
/// contents at the moment it is used.
#[derive(Clone, Copy, Debug, PartialEq, Eq, Structural)]
pub enum Addr {
    /// An absolute character offset, taken as is; whether it lies within the
    /// buffer is checked by whatever consumes it.
    Index(usize),
    /// A column within a line: resolves to the line's start plus the column.
    /// The column is not checked against the line's length.
    Coordinates(usize, usize),
    /// The offset of the first character of a line.
    LineStart(usize),
    /// The offset one past the last character of a line, including the
    /// line's terminating newline if it has one.
    LineEnd(usize),
    /// Offset `0`.
    BufferStart,
    /// The buffer's total character count: the exclusive upper bound of the
    /// whole buffer.
    BufferEnd,
}

/// The index an address stands for against text `t`, or the error resolving
/// it reports.
///
/// A line number is valid up to the line count for `Coordinates` and
/// `LineStart` (one past the last line names the one-past-the-end index, as
/// an empty final line would), and strictly below it for `LineEnd`. A
/// line-start-plus-column sum that no machine index can hold is a bounds
/// error.
pub open spec fn resolve_index(a: Addr, t: Seq<char>) -> Result<int, TextError> {
    match a {
        Addr::Index(i) => Ok(i as int),
        Addr::Coordinates(line, col) => (if line as int > line_count(t) {
            Err(TextError::LineOutOfRange)
        } else if line_start(t, line as int) + col as int > usize::MAX as int {
            Err(TextError::BoundsError)
        } else {
            Ok(line_start(t, line as int) + col as int)
        }),
        Addr::LineStart(line) => (if line as int > line_count(t) {
            Err(TextError::LineOutOfRange)
        } else {
            Ok(line_start(t, line as int))
        }),
        Addr::LineEnd(line) => (if line as int >= line_count(t) {
            Err(TextError::LineOutOfRange)
        } else {
            Ok(line_start(t, line as int + 1))
        }),
        Addr::BufferStart => Ok(0),
        Addr::BufferEnd => Ok(t.len() as int),
    }
}

/// The line/column pair an address stands for against text `t`, or the
/// error resolving it reports.
///
/// For an absolute index the pair is the unique one whose line start plus
/// column gives the index back; symbolic line/column forms pass through.
pub open spec fn resolve_coordinates(a: Addr, t: Seq<char>) -> Result<(int, int), TextError> {
    match a {
        Addr::Index(i) => (if i as int > t.len() {
            Err(TextError::BoundsError)
        } else {
            Ok((line_of(t, i as int), i - line_start(t, line_of(t, i as int))))
        }),
        Addr::Coordinates(line, col) => Ok((line as int, col as int)),
        Addr::LineStart(line) => Ok((line as int, 0int)),
        Addr::LineEnd(line) => (if line as int >= line_count(t) {
            Err(TextError::LineOutOfRange)
        } else {
            Ok((line as int, line_len(t, line as int)))
        }),
        Addr::BufferStart => Ok((0int, 0int)),
        Addr::BufferEnd => Ok(
            (line_of(t, t.len() as int), t.len() - line_start(t, line_of(t, t.len() as int))),
        ),
    }
}

impl Addr {
    /// Resolve this address to an absolute character index in `buf`.
    pub fn as_index(&self, buf: &Buffer) -> (r: Result<usize, TextError>)
        ensures
            (match resolve_index(*self, buf@) {
                Ok(i) => r == Ok::<usize, TextError>(i as usize) && 0 <= i <= usize::MAX,
                Err(e) => r == Err::<usize, TextError>(e),
            }),
    {
        match self {
            Addr::Index(i) => Ok(*i),
            Addr::Coordinates(line, col) => {
                let lc = body::rope_len_lines(&buf.text);
                if *line > lc {
                    Err(TextError::LineOutOfRange)
                } else {
                    let start = body::rope_line_to_char(&buf.text, *line);
                    proof {
                        lemma_line_start_bounds(buf@, *line as int);
                    }
                    match start.checked_add(*col) {
                        Some(i) => Ok(i),
                        None => Err(TextError::BoundsError),
                    }
                }
            },
            Addr::LineStart(line) => {
                let lc = body::rope_len_lines(&buf.text);
                if *line > lc {
                    Err(TextError::LineOutOfRange)
                } else {
                    Ok(body::rope_line_to_char(&buf.text, *line))
                }
            },
            Addr::LineEnd(line) => {
                let lc = body::rope_len_lines(&buf.text);
                if *line >= lc {
                    Err(TextError::LineOutOfRange)
                } else {
                    Ok(body::rope_line_to_char(&buf.text, *line + 1))
                }
            },
            Addr::BufferStart => Ok(0),
            Addr::BufferEnd => Ok(body::rope_len_chars(&buf.text)),
        }
    }

    /// Resolve this address to a line/column pair in `buf`.
    pub fn as_coordinates(&self, buf: &Buffer) -> (r: Result<(usize, usize), TextError>)
        ensures
            (match resolve_coordinates(*self, buf@) {
                Ok(p) => r matches Ok(q) && q.0 as int == p.0 && q.1 as int == p.1,
                Err(e) => r == Err::<(usize, usize), TextError>(e),
            }),
    {
        match self {
            Addr::Index(i) => {
                let len = body::rope_len_chars(&buf.text);
                if *i > len {
                    Err(TextError::BoundsError)
                } else {
                    let line = body::rope_char_to_line(&buf.text, *i);
                    proof {
                        lemma_line_of_bounds(buf@, *i as int);
                        lemma_line_of_start(buf@, *i as int);
                    }
                    let start = body::rope_line_to_char(&buf.text, line);
                    Ok((line, *i - start))
                }
            },
            Addr::Coordinates(line, col) => Ok((*line, *col)),
            Addr::LineStart(line) => Ok((*line, 0)),
            Addr::LineEnd(line) => {
                let lc = body::rope_len_lines(&buf.text);
                if *line >= lc {
                    Err(TextError::LineOutOfRange)
                } else {
                    let start = body::rope_line_to_char(&buf.text, *line);
                    let next = body::rope_line_to_char(&buf.text, *line + 1);
                    proof {
                        lemma_line_start_monotone(buf@, *line as int, *line as int + 1);
                    }
                    Ok((*line, next - start))
                }
            },
            Addr::BufferStart => Ok((0, 0)),
            Addr::BufferEnd => {
                let len = body::rope_len_chars(&buf.text);
                let line = body::rope_char_to_line(&buf.text, len);
                proof {
                    lemma_line_of_bounds(buf@, len as int);
                    lemma_line_of_start(buf@, len as int);
                }
                let start = body::rope_line_to_char(&buf.text, line);
                Ok((line, len - start))
            },
        }
    }
}

/// The address `n` characters to the left of `a` against text `t`: the
/// resolved index less `n`, as an absolute address. Resolution errors pass
/// through; stepping past offset zero is a bounds error.
pub open spec fn addr_moved_left(a: Addr, t: Seq<char>, n: usize) -> Result<Addr, TextError> {
    match resolve_index(a, t) {
        Ok(i) => (if n as int <= i {
            Ok(Addr::Index((i - n) as usize))
        } else {
            Err(TextError::BoundsError)
        }),
        Err(e) => Err(e),
    }
}

/// The address `n` characters to the right of `a` against text `t`.
/// Resolution errors pass through; stepping past the one-past-the-end
/// index is a bounds error.
pub open spec fn addr_moved_right(a: Addr, t: Seq<char>, n: usize) -> Result<Addr, TextError> {
    match resolve_index(a, t) {
        Ok(i) => (if i + n as int <= t.len() {
            Ok(Addr::Index((i + n) as usize))
        } else {
            Err(TextError::BoundsError)
        }),
        Err(e) => Err(e),
    }
}

impl Addr {
    /// Replace this address by the absolute address `n` characters to its
    /// left in `buf`; on any error the address is left unchanged.
    pub fn move_left(&mut self, buf: &Buffer, n: usize) -> (r: Result<(), TextError>)
        ensures
            (match addr_moved_left(*old(self), buf@, n) {
                Ok(a) => r == Ok::<(), TextError>(()) && *final (self) == a,
                Err(e) => r == Err::<(), TextError>(e) && *final (self) == *old(self),
            }),
    {
        let i = match self.as_index(buf) {
            Ok(i) => i,
            Err(e) => {
                return Err(e);
            },
        };
        if n <= i {
            *self = Addr::Index(i - n);
            Ok(())
        } else {
            Err(TextError::BoundsError)
        }
    }

    /// Replace this address by the absolute address `n` characters to its
    /// right in `buf`; on any error the address is left unchanged.
    pub fn move_right(&mut self, buf: &Buffer, n: usize) -> (r: Result<(), TextError>)
        ensures
            (match addr_moved_right(*old(self), buf@, n) {
                Ok(a) => r == Ok::<(), TextError>(()) && *final (self) == a,
                Err(e) => r == Err::<(), TextError>(e) && *final (self) == *old(self),
            }),
    {
        let i = match self.as_index(buf) {
            Ok(i) => i,
            Err(e) => {
                return Err(e);
            },
        };
        let len = buf.len_chars();
        if i <= len && n <= len - i {
            *self = Addr::Index(i + n);
            Ok(())
        } else {
            Err(TextError::BoundsError)
        }
    }
}

/// A buffer owning the text that addresses and dots are interpreted
/// against. Its view is the sequence of characters it holds.
pub struct Buffer {
    text: ropey::Rope,
}

impl View for Buffer {
    type V = Seq<char>;

    closed spec fn view(&self) -> Seq<char> {
        rope_chars(self.text)
    }
}

impl Buffer {
    /// An empty buffer.
    pub fn new() -> (b: Buffer)
        ensures
            b@ == Seq::<char>::empty(),
    {
        Buffer { text: body::rope_new() }
    }

    /// A buffer holding the given text.
    pub fn from_text(s: &str) -> (b: Buffer)
        ensures
            b@ == s@,
    {
        Buffer { text: body::rope_from_str(s) }
    }

    /// A buffer holding the text the given bytes encode, or a decode error
    /// if they are not valid UTF-8.
    pub fn from_bytes(bytes: &[u8]) -> (r: Result<Buffer, TextError>)
        ensures
            (r matches Ok(b) ==> b@ == vstd::utf8::decode_utf8(bytes@)),
            (r is Ok <==> vstd::utf8::valid_utf8(bytes@)),
            (r is Err ==> r == Err::<Buffer, TextError>(TextError::DecodeError)),
    {
        match body::utf8_to_str(bytes) {
            Some(s) => Ok(Buffer::from_text(s)),
            None => Err(TextError::DecodeError),
        }
    }

    /// The buffer's total character count.
    pub fn len_chars(&self) -> (n: usize)
        ensures
            n as nat == self@.len(),
    {
        body::rope_len_chars(&self.text)
    }
}

/// A selection over a buffer: the half-open span `[from, to)` of resolved
/// character indices. Operations that could leave `from > to` swap the
/// endpoints instead; construction stores what was asked for.
#[derive(Clone, Copy, Debug, PartialEq, Eq, Structural)]
pub struct Dot {
    /// Lower endpoint (inclusive).
    pub from: usize,
    /// Upper endpoint (exclusive).
    pub to: usize,
}

/// The dot both of whose endpoints resolve as given, left then right, or
/// the first resolution error.
pub open spec fn left_right_resolved(t: Seq<char>, left: Addr, right: Addr) -> Result<
    Dot,
    TextError,
> {
    match resolve_index(left, t) {
        Err(e) => Err(e),
        Ok(a) => match resolve_index(right, t) {
            Err(e) => Err(e),
            Ok(b) => Ok(Dot { from: a as usize, to: b as usize }),
        },
    }
}

/// The dot starting at `anchor` and extending `width` characters to the
/// right; `width` is resolved like any address and used as a length. A
/// right endpoint no machine index can hold is a bounds error.
pub open spec fn anchored_left(t: Seq<char>, anchor: Addr, width: Addr) -> Result<Dot, TextError> {
    match resolve_index(anchor, t) {
        Err(e) => Err(e),
        Ok(a) => match resolve_index(width, t) {
            Err(e) => Err(e),
            Ok(w) => (if a + w <= usize::MAX as int {
                Ok(Dot { from: a as usize, to: (a + w) as usize })
            } else {
                Err(TextError::BoundsError)
            }),
        },
    }
}

/// The dot ending at `anchor` and extending `width` characters to the
/// left; a left endpoint below zero is a bounds error.
pub open spec fn anchored_right(t: Seq<char>, width: Addr, anchor: Addr) -> Result<Dot, TextError> {
    match resolve_index(anchor, t) {
        Err(e) => Err(e),
        Ok(a) => match resolve_index(width, t) {
            Err(e) => Err(e),
            Ok(w) => (if w <= a {
                Ok(Dot { from: (a - w) as usize, to: a as usize })
            } else {
                Err(TextError::BoundsError)
            }),
        },
    }
}

/// Both endpoints shifted `n` characters to the left, or a bounds error if
/// either would fall below zero.
pub open spec fn moved_left(d: Dot, n: usize) -> Result<Dot, TextError> {
    if n <= d.from && n <= d.to {
        Ok(Dot { from: (d.from - n) as usize, to: (d.to - n) as usize })
    } else {
        Err(TextError::BoundsError)
    }
}

/// Both endpoints shifted `n` characters to the right, or a bounds error if
/// either would pass the one-past-the-end index of `t`.
pub open spec fn moved_right(d: Dot, t: Seq<char>, n: usize) -> Result<Dot, TextError> {
    if d.from + n <= t.len() && d.to + n <= t.len() {
        Ok(Dot { from: (d.from + n) as usize, to: (d.to + n) as usize })
    } else {
        Err(TextError::BoundsError)
    }
}

/// The upper endpoint pulled `n` characters toward lower indices, the
/// endpoints swapped if they would cross, or a bounds error below zero.
pub open spec fn extended_left(d: Dot, n: usize) -> Result<Dot, TextError> {
    if n <= d.to {
        let t2 = (d.to - n) as usize;
        if t2 < d.from {
            Ok(Dot { from: t2, to: d.from })
        } else {
            Ok(Dot { from: d.from, to: t2 })
        }
    } else {
        Err(TextError::BoundsError)
    }
}

/// The lower endpoint pushed `n` characters toward higher indices, the
/// endpoints swapped if they would cross, or a bounds error past the end.
pub open spec fn extended_right(d: Dot, t: Seq<char>, n: usize) -> Result<Dot, TextError> {
    if d.from + n <= t.len() {
        let f2 = (d.from + n) as usize;
        if f2 > d.to {
            Ok(Dot { from: d.to, to: f2 })
        } else {
            Ok(Dot { from: f2, to: d.to })
        }
    } else {
        Err(TextError::BoundsError)
    }
}

/// The upper endpoint moved `n` characters rightward, the endpoints swapped
/// if they would cross, or a bounds error past the end.
pub open spec fn trimmed_left(d: Dot, t: Seq<char>, n: usize) -> Result<Dot, TextError> {
    if d.to + n <= t.len() {
        let t2 = (d.to + n) as usize;
        if t2 < d.from {
            Ok(Dot { from: t2, to: d.from })
        } else {
            Ok(Dot { from: d.from, to: t2 })
        }
    } else {
        Err(TextError::BoundsError)
    }
}

/// The lower endpoint moved `n` characters leftward, the endpoints swapped
/// if they would cross, or a bounds error below zero.
pub open spec fn trimmed_right(d: Dot, n: usize) -> Result<Dot, TextError> {
    if n <= d.from {
        let f2 = (d.from - n) as usize;
        if f2 > d.to {
            Ok(Dot { from: d.to, to: f2 })
        } else {
            Ok(Dot { from: f2, to: d.to })
        }
    } else {
        Err(TextError::BoundsError)
    }
}

impl Dot {
    /// A dot spanning all of `buf`, from its start to its end.
    pub fn new(buf: &Buffer) -> (d: Dot)
        ensures
            d.from == 0,
            d.to as nat == buf@.len(),
    {
        Dot { from: 0, to: buf.len_chars() }
    }

    /// Set the endpoints by resolving `left` and `right` against `buf`, in
    /// that order and as given: the pair is not reordered. On any error the
    /// dot is left unchanged.
    pub fn left_right(&mut self, buf: &Buffer, left: Addr, right: Addr) -> (r: Result<
        (),
        TextError,
    >)
        ensures
            (match left_right_resolved(buf@, left, right) {
                Ok(d) => r == Ok::<(), TextError>(()) && *final (self) == d,
                Err(e) => r == Err::<(), TextError>(e) && *final (self) == *old(self),
            }),
    {
        let a = match left.as_index(buf) {
            Ok(v) => v,
            Err(e) => {
                return Err(e);
            },
        };
        let b = match right.as_index(buf) {
            Ok(v) => v,
            Err(e) => {
                return Err(e);
            },
        };
        self.from = a;
        self.to = b;
        Ok(())
    }

    /// Anchor the dot's lower endpoint at `anchor` and let it span `width`
    /// characters rightward. On any error the dot is left unchanged.
    pub fn anchor_left(&mut self, buf: &Buffer, anchor: Addr, width: Addr) -> (r: Result<
        (),
        TextError,
    >)
        ensures
            (match anchored_left(buf@, anchor, width) {
                Ok(d) => r == Ok::<(), TextError>(()) && *final (self) == d,
                Err(e) => r == Err::<(), TextError>(e) && *final (self) == *old(self),
            }),
    {
        let a = match anchor.as_index(buf) {
            Ok(v) => v,
            Err(e) => {
                return Err(e);
            },
        };
        let w = match width.as_index(buf) {
            Ok(v) => v,
            Err(e) => {
                return Err(e);
            },
        };
        match a.checked_add(w) {
            Some(b) => {
                self.from = a;
                self.to = b;
                Ok(())
            },
            None => Err(TextError::BoundsError),
        }
    }

    /// Anchor the dot's upper endpoint at `anchor` and let it span `width`
    /// characters leftward. On any error the dot is left unchanged.
    pub fn anchor_right(&mut self, buf: &Buffer, width: Addr, anchor: Addr) -> (r: Result<
        (),
        TextError,
    >)
        ensures
            (match anchored_right(buf@, width, anchor) {
                Ok(d) => r == Ok::<(), TextError>(()) && *final (self) == d,
                Err(e) => r == Err::<(), TextError>(e) && *final (self) == *old(self),
            }),
    {
        let a = match anchor.as_index(buf) {
            Ok(v) => v,
            Err(e) => {
                return Err(e);
            },
        };
        let w = match width.as_index(buf) {
            Ok(v) => v,
            Err(e) => {
                return Err(e);
            },
        };
        if w <= a {
            self.from = a - w;
            self.to = a;
            Ok(())
        } else {
            Err(TextError::BoundsError)
        }
    }

    /// Shift both endpoints `n` characters to the left, keeping the dot's
    /// width. Fails, leaving the dot unchanged, if either endpoint would
    /// fall below zero; a left shift is bounded below by zero alone.
    pub fn move_left(&mut self, n: usize) -> (r: Result<(), TextError>)
        ensures
            (match moved_left(*old(self), n) {
                Ok(d) => r == Ok::<(), TextError>(()) && *final (self) == d,
                Err(e) => r == Err::<(), TextError>(e) && *final (self) == *old(self),
            }),
    {
        if n <= self.from && n <= self.to {
            self.from = self.from - n;
            self.to = self.to - n;
            Ok(())
        } else {
            Err(TextError::BoundsError)
        }
    }

    /// Shift both endpoints `n` characters to the right, keeping the dot's
    /// width. Fails, leaving the dot unchanged, if either endpoint would
    /// pass the end of `buf`.
    pub fn move_right(&mut self, buf: &Buffer, n: usize) -> (r: Result<(), TextError>)
        ensures
            (match moved_right(*old(self), buf@, n) {
                Ok(d) => r == Ok::<(), TextError>(()) && *final (self) == d,
                Err(e) => r == Err::<(), TextError>(e) && *final (self) == *old(self),
            }),
    {
        let len = buf.len_chars();
        if self.from <= len && n <= len - self.from && self.to <= len && n <= len - self.to {
            self.from = self.from + n;
            self.to = self.to + n;
            Ok(())
        } else {
            Err(TextError::BoundsError)
        }
    }

    /// Pull the upper endpoint `n` characters toward lower indices,
    /// shrinking the dot, and swap the endpoints if they cross. Fails,
    /// leaving the dot unchanged, if the endpoint would fall below zero.
    pub fn extend_left(&mut self, n: usize) -> (r: Result<(), TextError>)
        ensures
            (match extended_left(*old(self), n) {
                Ok(d) => r == Ok::<(), TextError>(()) && *final (self) == d,
                Err(e) => r == Err::<(), TextError>(e) && *final (self) == *old(self),
            }),
    {
        if n <= self.to {
            let t2 = self.to - n;
            if t2 < self.from {
                self.to = self.from;
                self.from = t2;
            } else {
                self.to = t2;
            }
            Ok(())
        } else {
            Err(TextError::BoundsError)
        }
    }

    /// Push the lower endpoint `n` characters toward higher indices,
    /// shrinking the dot, and swap the endpoints if they cross. Fails,
    /// leaving the dot unchanged, if the endpoint would pass the end of
    /// `buf`.
    pub fn extend_right(&mut self, buf: &Buffer, n: usize) -> (r: Result<(), TextError>)
        ensures
            (match extended_right(*old(self), buf@, n) {
                Ok(d) => r == Ok::<(), TextError>(()) && *final (self) == d,
                Err(e) => r == Err::<(), TextError>(e) && *final (self) == *old(self),
            }),
    {
        let len = buf.len_chars();
        if self.from <= len && n <= len - self.from {
            let f2 = self.from + n;
            if f2 > self.to {
                self.from = self.to;
                self.to = f2;
            } else {
                self.from = f2;
            }
            Ok(())
        } else {
            Err(TextError::BoundsError)
        }
    }

    /// Move the upper endpoint `n` characters rightward, growing the dot on
    /// its upper edge, and swap the endpoints if they cross. Fails, leaving
    /// the dot unchanged, if the endpoint would pass the end of `buf`.
    pub fn trim_left(&mut self, buf: &Buffer, n: usize) -> (r: Result<(), TextError>)
        ensures
            (match trimmed_left(*old(self), buf@, n) {
                Ok(d) => r == Ok::<(), TextError>(()) && *final (self) == d,
                Err(e) => r == Err::<(), TextError>(e) && *final (self) == *old(self),
            }),
            r is Ok ==> final (self).from <= final (self).to,
    {
        let len = buf.len_chars();
        if self.to <= len && n <= len - self.to {
            let t2 = self.to + n;
            if t2 < self.from {
                self.to = self.from;
                self.from = t2;
            } else {
                self.to = t2;
            }
            Ok(())
        } else {
            Err(TextError::BoundsError)
        }
    }

    /// Move the lower endpoint `n` characters leftward, growing the dot on
    /// its lower edge, and swap the endpoints if they cross. Fails, leaving
    /// the dot unchanged, if the endpoint would fall below zero.
    pub fn trim_right(&mut self, n: usize) -> (r: Result<(), TextError>)
        ensures
            (match trimmed_right(*old(self), n) {
                Ok(d) => r == Ok::<(), TextError>(()) && *final (self) == d,
                Err(e) => r == Err::<(), TextError>(e) && *final (self) == *old(self),
            }),
            r is Ok ==> final (self).from <= final (self).to,
    {
        if n <= self.from {
            let f2 = self.from - n;
            if f2 > self.to {
                self.from = self.to;
                self.to = f2;
            } else {
                self.from = f2;
            }
            Ok(())
        } else {
            Err(TextError::BoundsError)
        }
    }
}

impl Buffer {
    /// The text the dot's span denotes, or a bounds error if the span is
    /// inverted or reaches past the end of the buffer.
    pub fn get(&self, dot: &Dot) -> (r: Result<String, TextError>)
        ensures
            dot.from <= dot.to && dot.to as nat <= self@.len() ==> (r matches Ok(s) && s@
                == self@.subrange(dot.from as int, dot.to as int)),
            !(dot.from <= dot.to && dot.to as nat <= self@.len()) ==> r == Err::<
                String,
                TextError,
            >(TextError::BoundsError),
    {
        let len = body::rope_len_chars(&self.text);
        if dot.from <= dot.to && dot.to <= len {
            Ok(body::rope_slice_string(&self.text, dot.from, dot.to))
        } else {
            Err(TextError::BoundsError)
        }
    }

    /// Replace the text the dot's span denotes by `s`, atomically: the span
    /// is removed and `s` inserted in its place. Afterwards the dot bounds
    /// exactly the inserted text. Other dots over this buffer are not
    /// re-anchored. Fails, changing nothing, if the span is inverted or
    /// reaches past the end of the buffer.
    pub fn set(&mut self, dot: &mut Dot, s: &str) -> (r: Result<(), TextError>)
        ensures
            old(dot).from <= old(dot).to && old(dot).to as nat <= old(self)@.len() ==> (r == Ok::<
                (),
                TextError,
            >(()) && final (self)@ == old(self)@.take(old(dot).from as int) + s@ + old(
                self,
            )@.skip(old(dot).to as int) && final (dot).from == old(dot).from && final (dot).to
                as nat == old(dot).from as nat + s@.len()),
            !(old(dot).from <= old(dot).to && old(dot).to as nat <= old(self)@.len()) ==> (r
                == Err::<(), TextError>(TextError::BoundsError) && *final (self) == *old(self)
                && *final (dot) == *old(dot)),
    {
        let len = body::rope_len_chars(&self.text);
        if dot.from <= dot.to && dot.to <= len {
            let ghost t0 = self@;
            body::rope_remove(&mut self.text, dot.from, dot.to);
            body::rope_insert(&mut self.text, dot.from, s);
            proof {
                assert(self@ =~= t0.take(dot.from as int) + s@ + t0.skip(dot.to as int));
            }
            let new_len = body::rope_len_chars(&self.text);
            dot.to = new_len - (len - dot.to);
            Ok(())
        } else {
            Err(TextError::BoundsError)
        }
    }
}

impl Default for Buffer {
    /// An empty buffer.
    fn default() -> (b: Buffer)
        ensures
            b@ == Seq::<char>::empty(),
    {
        Buffer::new()
    }
}

/// Resolving a line/column pair to an index and resolving that index back
/// to coordinates returns the same pair, for any column inside the line.
pub proof fn lemma_coordinates_round_trip(t: Seq<char>, line: usize, col: usize)
    requires
        (line as int) < line_count(t),
        (col as int) < line_len(t, line as int),
        t.len() <= usize::MAX,
    ensures
        resolve_index(Addr::Coordinates(line, col), t) matches Ok(i) && resolve_coordinates(
            Addr::Index(i as usize),
            t,
        ) == Ok::<(int, int), TextError>((line as int, col as int)),
{
    lemma_line_start_bounds(t, line as int + 1);
    lemma_line_start_bounds(t, line as int);
    lemma_line_of_within(t, line as int, col as int);
}

/// An index's coordinates point back at the index: the line's start plus
/// the column gives the index again, and the index lies within that line's
/// span.
pub proof fn lemma_index_round_trip(t: Seq<char>, i: usize)
    requires
        i as nat <= t.len(),
    ensures
        resolve_coordinates(Addr::Index(i), t) matches Ok(p) && line_start(t, p.0) + p.1 == i as int
            && line_start(t, p.0) <= i as int <= line_start(t, p.0 + 1),
{
    lemma_line_of_start(t, i as int);
}

/// Moving a dot left by `n` and then right by `n`, both moves succeeding,
/// restores its original endpoints.
pub proof fn lemma_move_round_trip(d: Dot, t: Seq<char>, n: usize)
    requires
        moved_left(d, n) matches Ok(d1) && moved_right(d1, t, n) is Ok,
    ensures
        moved_left(d, n) matches Ok(d1) && moved_right(d1, t, n) == Ok::<Dot, TextError>(d),
{
}

/// Trimming never leaves an inverted dot: endpoints that would cross are
/// swapped, so `from <= to` holds of every successful trim.
pub proof fn lemma_trim_keeps_order(d: Dot, t: Seq<char>, n: usize)
    ensures
        trimmed_left(d, t, n) matches Ok(d2) ==> d2.from <= d2.to,
        trimmed_right(d, n) matches Ok(d2) ==> d2.from <= d2.to,
{
}

/// A left move by more than either endpoint's index is a bounds error; by
/// the contract of `Dot::move_left`, the dot is then left unchanged.
pub proof fn lemma_move_left_past_start(d: Dot, n: usize)
    requires
        n > d.from || n > d.to,
    ensures
        moved_left(d, n) == Err::<Dot, TextError>(TextError::BoundsError),
{
}

/// A right move carrying either endpoint past the buffer's end is a bounds
/// error; by the contract of `Dot::move_right`, the dot is then left
/// unchanged.
pub proof fn lemma_move_right_past_end(d: Dot, t: Seq<char>, n: usize)
    requires
        d.from + n > t.len() || d.to + n > t.len(),
    ensures
        moved_right(d, t, n) == Err::<Dot, TextError>(TextError::BoundsError),
{
}

} // verus!
