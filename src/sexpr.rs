use vstd::prelude::*;

verus! {

/// A value read from S-expression text.
#[derive(Debug)]
pub enum SExpr {
    /// An integer that fits in 64 bits.
    Number(i64),
    Bool(bool),
    Str(String),
    Symbol(String),
    /// A proper list.
    List(Vec<SExpr>),
    /// Anything else: an improper list, the empty list, another atom.
    Other,
}

} // verus!
