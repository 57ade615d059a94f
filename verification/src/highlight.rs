//! The syntax-token categories a highlighter assigns to source text.
use vstd::prelude::*;

verus! {

/// A highlighted token's category.
#[derive(Debug, Clone, Copy, PartialEq, Eq, Hash)]
pub enum TokenKind {
    Keyword,
    Function,
    Type,
    String,
    Number,
    Comment,
    Constant,
    Property,
    Operator,
    Punctuation,
    Variable,
    Attribute,
    Embedded,
    Other,
}

} // verus!
