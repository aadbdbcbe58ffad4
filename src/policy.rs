//! The delimiter and dispatch policies, chosen once per run.
use vstd::prelude::*;

verus! {

/// How a line is cut into tokens.
#[derive(Clone, Copy, Debug, PartialEq, Eq, Structural)]
pub enum Delimiter {
    /// Split on every occurrence of the character; empty segments count.
    Fixed(char),
    /// Split on maximal runs of whitespace; empty segments are dropped.
    Whitespace,
}

/// How the tokenizer is bound before the lines are processed.
#[derive(Clone, Copy, Debug, PartialEq, Eq, Structural)]
pub enum Dispatch {
    /// A concrete tokenizer type, through a generic parameter.
    Static,
    /// A tokenizer behind a trait object, called through it for each line.
    Dynamic,
}

impl Delimiter {
    /// The policy that splits on the tab character.
    pub fn tab() -> (r: Delimiter)
        ensures
            r == Delimiter::Fixed('\t'),
    {
        Delimiter::Fixed('\t')
    }
}

} // verus!
