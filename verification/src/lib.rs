//! Addressing-and-selection core of a structural text editor.
//!
//! Positions in a text buffer are named symbolically (by character index,
//! line/column pair, line boundary, or buffer boundary) and resolved to
//! absolute character indices against the buffer's current contents. A
//! selection (a "dot") is an ordered pair of resolved indices denoting a
//! half-open span of text, with movement, extension, trimming, read and
//! replace operations.

use vstd::prelude::*;

pub mod body;
pub mod lines;
pub mod text;

verus! {

/// Failures reported by address resolution and dot operations.
#[derive(Clone, Copy, Debug, PartialEq, Eq, Structural)]
pub enum TextError {
    /// A requested line lies beyond the buffer's lines.
    LineOutOfRange,
    /// A resolved or shifted index falls outside `[0, length]`.
    BoundsError,
    /// Bytes handed to the loader are not valid text.
    DecodeError,
}

} // verus!
