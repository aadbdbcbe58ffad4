//! Binding a tokenizer once, statically or behind a trait object, and
//! counting a batch of lines through it.
use vstd::prelude::*;

use crate::policy::{Delimiter, Dispatch};
use crate::tokenize::{count_fixed, count_whitespace_runs, countable, token_count};

verus! {

/// A splitting strategy behind a common signature.
pub trait Tokenizer {
    /// The policy by which this tokenizer splits.
    spec fn delimiter(&self) -> Delimiter;

    /// Counts the tokens of `line`.
    fn count_tokens(&self, line: &str) -> (r: usize)
        requires
            countable(line@),
        ensures
            r == token_count(line@, self.delimiter()),
    ;
}

/// Splits on every occurrence of one character.
pub struct FixedSplitter {
    pub sep: char,
}

/// Splits on runs of whitespace.
pub struct WhitespaceSplitter;

impl Tokenizer for FixedSplitter {
    open spec fn delimiter(&self) -> Delimiter {
        Delimiter::Fixed(self.sep)
    }

    fn count_tokens(&self, line: &str) -> (r: usize) {
        count_fixed(line, self.sep)
    }
}

impl Tokenizer for WhitespaceSplitter {
    open spec fn delimiter(&self) -> Delimiter {
        Delimiter::Whitespace
    }

    fn count_tokens(&self, line: &str) -> (r: usize) {
        count_whitespace_runs(line)
    }
}

/// The characters of each line.
pub open spec fn line_views(lines: Seq<String>) -> Seq<Seq<char>> {
    lines.map_values(|l: String| l@)
}

/// Every line is short enough to be counted.
pub open spec fn all_countable(lines: Seq<Seq<char>>) -> bool {
    forall|i: int| 0 <= i < lines.len() ==> countable(#[trigger] lines[i])
}

/// The token count of each line under `delim`, in order.
pub open spec fn line_counts(lines: Seq<Seq<char>>, delim: Delimiter) -> Seq<nat> {
    lines.map_values(|l: Seq<char>| token_count(l, delim))
}

/// Counts the tokens of each line with one tokenizer, bound by the type
/// parameter (or, for `dyn Tokenizer`, by the trait object).
pub fn static_dispatcher<T: Tokenizer + ?Sized>(tokenizer: &T, lines: &Vec<String>) -> (r: Vec<
    usize,
>)
    requires
        all_countable(line_views(lines@)),
    ensures
        r@.map_values(|n: usize| n as nat) == line_counts(line_views(lines@), tokenizer.delimiter()),
{
    let mut r: Vec<usize> = Vec::new();
    for i in 0..lines.len()
        invariant
            all_countable(line_views(lines@)),
            r.len() == i,
            forall|j: int|
                0 <= j < i ==> r[j] as nat == token_count(
                    #[trigger] lines@[j]@,
                    tokenizer.delimiter(),
                ),
    {
        assert(countable(line_views(lines@)[i as int]));
        let n = tokenizer.count_tokens(lines[i].as_str());
        r.push(n);
    }
    assert(r@.map_values(|n: usize| n as nat) =~= line_counts(
        line_views(lines@),
        tokenizer.delimiter(),
    ));
    r
}

/// Picks the concrete tokenizer for `delim` once, then counts every line
/// through it.
pub fn run_static_dispatch(delim: Delimiter, lines: &Vec<String>) -> (r: Vec<usize>)
    requires
        all_countable(line_views(lines@)),
    ensures
        r@.map_values(|n: usize| n as nat) == line_counts(line_views(lines@), delim),
{
    match delim {
        Delimiter::Fixed(sep) => static_dispatcher(&FixedSplitter { sep }, lines),
        Delimiter::Whitespace => static_dispatcher(&WhitespaceSplitter, lines),
    }
}

/// Boxes the tokenizer for `delim` once, then counts every line through the
/// trait object.
pub fn run_dynamic_dispatch(delim: Delimiter, lines: &Vec<String>) -> (r: Vec<usize>)
    requires
        all_countable(line_views(lines@)),
    ensures
        r@.map_values(|n: usize| n as nat) == line_counts(line_views(lines@), delim),
{
    // Bound by assignment: what is known of each boxed value survives it,
    // while a `match` that yields the trait object loses it.
    let mut tokenizer: Box<dyn Tokenizer> = Box::new(WhitespaceSplitter);
    if let Delimiter::Fixed(sep) = delim {
        tokenizer = Box::new(FixedSplitter { sep });
    }
    static_dispatcher(&*tokenizer, lines)
}

} // verus!
