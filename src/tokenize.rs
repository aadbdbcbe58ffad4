//! Token counting of a single line: the splitting rules and their loops.
use vstd::prelude::*;

use crate::policy::Delimiter;

verus! {

broadcast use vstd::string::group_string_axioms;

/// The Unicode `White_Space` property, the set that `char::is_whitespace`
/// tests for.
pub open spec fn is_white_space(c: char) -> bool {
    let u = c as u32;
    ||| 0x9 <= u <= 0xD
    ||| u == 0x20
    ||| u == 0x85
    ||| u == 0xA0
    ||| u == 0x1680
    ||| 0x2000 <= u <= 0x200A
    ||| u == 0x2028
    ||| u == 0x2029
    ||| u == 0x202F
    ||| u == 0x205F
    ||| u == 0x3000
}

/// How many times `c` occurs in `s`.
pub open spec fn occurrences(s: Seq<char>, c: char) -> nat
    decreases s.len(),
{
    if s.len() == 0 {
        0
    } else {
        occurrences(s.drop_last(), c) + if s.last() == c {
            1nat
        } else {
            0nat
        }
    }
}

/// A whitespace-separated token begins at position `i` of `s`.
pub open spec fn starts_token(s: Seq<char>, i: int) -> bool {
    &&& !is_white_space(s[i])
    &&& (i == 0 || is_white_space(s[i - 1]))
}

/// The number of maximal runs of non-whitespace characters in `s`.
pub open spec fn whitespace_tokens(s: Seq<char>) -> nat
    decreases s.len(),
{
    if s.len() == 0 {
        0
    } else {
        whitespace_tokens(s.drop_last()) + if starts_token(s, s.len() - 1) {
            1nat
        } else {
            0nat
        }
    }
}

/// The number of tokens of line `s` under `delim`.
pub open spec fn token_count(s: Seq<char>, delim: Delimiter) -> nat {
    match delim {
        Delimiter::Fixed(c) => occurrences(s, c) + 1,
        Delimiter::Whitespace => whitespace_tokens(s),
    }
}

/// A line short enough that its token count fits in a `usize`.
pub open spec fn countable(s: Seq<char>) -> bool {
    s.len() < usize::MAX
}

/// Tests `c` for the Unicode `White_Space` property.
pub fn is_whitespace(c: char) -> (r: bool)
    ensures
        r == is_white_space(c),
{
    let u = c as u32;
    (0x9 <= u && u <= 0xD) || u == 0x20 || u == 0x85 || u == 0xA0 || u == 0x1680 || (0x2000 <= u
        && u <= 0x200A) || u == 0x2028 || u == 0x2029 || u == 0x202F || u == 0x205F || u == 0x3000
}

/// Splits `line` on every `sep` and counts the segments, empty ones included.
pub fn count_fixed(line: &str, sep: char) -> (r: usize)
    requires
        countable(line@),
    ensures
        r == occurrences(line@, sep) + 1,
{
    let mut n: usize = 1;
    for c in it: line.chars()
        invariant
            it.seq() == line@,
            countable(line@),
            n == occurrences(line@.take(it.index() as int), sep) + 1,
            n <= it.index() + 1,
    {
        let ghost i = it.index() as int;
        assert(line@.take(i + 1).drop_last() =~= line@.take(i));
        if c == sep {
            n = n + 1;
        }
    }
    assert(line@.take(line@.len() as int) =~= line@);
    n
}

/// Splits `line` on runs of whitespace and counts the non-empty segments.
pub fn count_whitespace_runs(line: &str) -> (r: usize)
    requires
        countable(line@),
    ensures
        r == whitespace_tokens(line@),
{
    let mut n: usize = 0;
    let mut after_space = true;
    for c in it: line.chars()
        invariant
            it.seq() == line@,
            countable(line@),
            n == whitespace_tokens(line@.take(it.index() as int)),
            n <= it.index(),
            after_space == (it.index() == 0 || is_white_space(line@[it.index() - 1])),
    {
        let ghost i = it.index() as int;
        assert(line@.take(i + 1).drop_last() =~= line@.take(i));
        let space = is_whitespace(c);
        if !space && after_space {
            n = n + 1;
        }
        after_space = space;
    }
    assert(line@.take(line@.len() as int) =~= line@);
    n
}

} // verus!
