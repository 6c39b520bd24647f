//! The static types of the language. Integers double as booleans in
//! `if`/`while` conditions; there is no boolean type.

use vstd::prelude::*;

verus! {

/// The closed set of static types a declaration or expression can have.
#[derive(Debug, Clone, Copy, PartialEq, Eq, Structural, Hash)]
pub enum Type {
    Int,
    Float,
    String,
}

} // verus!
