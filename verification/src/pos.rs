//! Source positions: a `(line, column)` cursor attached to every token
//! and AST node for diagnostics.

use vstd::prelude::*;

verus! {

/// A position in the source text. Lines and columns are 1-based; the
/// position recorded for a token is that of its first character.
#[derive(Debug, Clone, Copy, PartialEq, Eq, Structural, Hash)]
pub struct Pos {
    pub line: usize,
    pub col: usize,
}

impl Pos {
    /// The position of the very first character of a source buffer.
    pub fn start() -> (p: Pos)
        ensures
            p.line == 1,
            p.col == 1,
    {
        Pos { line: 1, col: 1 }
    }
}

} // verus!
