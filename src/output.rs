//! Rendering counts as decimal lines, the whole run, and the laws of its
//! output.
use vstd::prelude::*;

use crate::dispatch::{
    all_countable,
    line_counts,
    line_views,
    run_dynamic_dispatch,
    run_static_dispatch,
    Tokenizer,
};
use crate::policy::{Delimiter, Dispatch};
use crate::tokenize::{countable, token_count};

verus! {

/// The ASCII decimal digits of `n`, most significant first, without leading
/// zeros.
pub open spec fn decimal(n: nat) -> Seq<u8>
    decreases n,
{
    if n < 10 {
        seq![(n + 48) as u8]
    } else {
        decimal(n / 10).push((n % 10 + 48) as u8)
    }
}

/// The output line for one count: its digits and a newline.
pub open spec fn output_line(n: nat) -> Seq<u8> {
    decimal(n).push(10u8)
}

/// The output lines for `counts`, one after the other.
pub open spec fn render_all(counts: Seq<nat>) -> Seq<u8>
    decreases counts.len(),
{
    if counts.len() == 0 {
        seq![]
    } else {
        render_all(counts.drop_last()) + output_line(counts.last())
    }
}

/// What the counter writes for `lines` under `delim`.
pub open spec fn program_output(lines: Seq<Seq<char>>, delim: Delimiter) -> Seq<u8> {
    render_all(line_counts(lines, delim))
}

/// How many newline bytes `s` holds.
pub open spec fn newlines(s: Seq<u8>) -> nat
    decreases s.len(),
{
    if s.len() == 0 {
        0
    } else {
        newlines(s.drop_last()) + if s.last() == 10u8 {
            1nat
        } else {
            0nat
        }
    }
}

proof fn lemma_newlines_concat(a: Seq<u8>, b: Seq<u8>)
    ensures
        newlines(a + b) == newlines(a) + newlines(b),
    decreases b.len(),
{
    if b.len() == 0 {
        assert(a + b =~= a);
    } else {
        assert((a + b).drop_last() =~= a + b.drop_last());
        lemma_newlines_concat(a, b.drop_last());
    }
}

/// A number's decimal form is a non-empty run of ASCII digits.
pub proof fn lemma_decimal_digits(n: nat)
    ensures
        decimal(n).len() >= 1,
        forall|j: int| 0 <= j < decimal(n).len() ==> 48 <= #[trigger] decimal(n)[j] <= 57,
        newlines(decimal(n)) == 0,
    decreases n,
{
    if n >= 10 {
        lemma_decimal_digits(n / 10);
        assert(decimal(n).drop_last() =~= decimal(n / 10));
        assert(decimal(n).last() == (n % 10 + 48) as u8);
    } else {
        assert(decimal(n).drop_last() =~= Seq::<u8>::empty());
        assert(newlines(Seq::<u8>::empty()) == 0);
    }
}

proof fn lemma_render_newlines(counts: Seq<nat>)
    ensures
        newlines(render_all(counts)) == counts.len(),
    decreases counts.len(),
{
    if counts.len() > 0 {
        let n = counts.last();
        lemma_render_newlines(counts.drop_last());
        lemma_decimal_digits(n);
        assert(output_line(n).drop_last() =~= decimal(n));
        lemma_newlines_concat(render_all(counts.drop_last()), output_line(n));
    }
}

proof fn lemma_render_split(counts: Seq<nat>, k: int)
    requires
        0 <= k <= counts.len(),
    ensures
        render_all(counts) == render_all(counts.take(k)) + render_all(counts.skip(k)),
    decreases counts.len(),
{
    if k == counts.len() {
        assert(counts.take(k) =~= counts);
        assert(render_all(counts.skip(k)) =~= Seq::<u8>::empty());
        assert(render_all(counts) + Seq::<u8>::empty() =~= render_all(counts));
    } else {
        let front = counts.drop_last();
        lemma_render_split(front, k);
        assert(front.take(k) =~= counts.take(k));
        assert(counts.skip(k).drop_last() =~= front.skip(k));
        assert(counts.skip(k).last() == counts.last());
        let a = render_all(counts.take(k));
        let b = render_all(front.skip(k));
        let c = output_line(counts.last());
        assert((a + b) + c =~= a + (b + c));
    }
}

/// The output holds exactly one line per input line, and it keeps their
/// order: the output for all lines is the output for the first `k` followed
/// by the output for the rest, and the output for a single line is its token
/// count in decimal digits and a newline.
pub proof fn lemma_line_per_input(lines: Seq<Seq<char>>, delim: Delimiter)
    ensures
        newlines(program_output(lines, delim)) == lines.len(),
        forall|k: int|
            0 <= k <= lines.len() ==> program_output(lines, delim) == #[trigger] program_output(
                lines.take(k),
                delim,
            ) + program_output(lines.skip(k), delim),
        forall|i: int|
            0 <= i < lines.len() ==> #[trigger] program_output(seq![lines[i]], delim)
                == output_line(token_count(lines[i], delim)),
{
    let counts = line_counts(lines, delim);
    lemma_render_newlines(counts);
    assert forall|k: int| 0 <= k <= lines.len() implies program_output(lines, delim)
        == #[trigger] program_output(lines.take(k), delim) + program_output(
        lines.skip(k),
        delim,
    ) by {
        lemma_render_split(counts, k);
        assert(line_counts(lines.take(k), delim) =~= counts.take(k));
        assert(line_counts(lines.skip(k), delim) =~= counts.skip(k));
    }
    assert forall|i: int| 0 <= i < lines.len() implies #[trigger] program_output(
        seq![lines[i]],
        delim,
    ) == output_line(token_count(lines[i], delim)) by {
        let one = line_counts(seq![lines[i]], delim);
        assert(one.drop_last() =~= Seq::<nat>::empty());
        assert(render_all(one.drop_last()) + output_line(one.last()) =~= output_line(
            one.last(),
        ));
    }
}

/// Appends the decimal digits of `n` to `out`.
fn push_decimal(out: &mut Vec<u8>, n: usize)
    ensures
        final(out)@ == old(out)@ + decimal(n as nat),
    decreases n,
{
    if n >= 10 {
        push_decimal(out, n / 10);
    }
    let digit: u8 = (n % 10) as u8;
    out.push(digit + 48);
}

/// Appends the output line for count `n` to `out`.
pub fn write_count(out: &mut Vec<u8>, n: usize)
    ensures
        final(out)@ == old(out)@ + output_line(n as nat),
{
    push_decimal(out, n);
    out.push(10u8);
}

/// The output line for count `n`.
pub fn render_count(n: usize) -> (r: Vec<u8>)
    ensures
        r@ == output_line(n as nat),
{
    let mut r: Vec<u8> = Vec::new();
    write_count(&mut r, n);
    r
}

/// Counts the tokens of one line through `tokenizer` and renders the count.
pub fn process_line<T: Tokenizer + ?Sized>(tokenizer: &T, line: &str) -> (r: Vec<u8>)
    requires
        countable(line@),
    ensures
        r@ == output_line(token_count(line@, tokenizer.delimiter())),
{
    render_count(tokenizer.count_tokens(line))
}

/// The output lines for `counts`, in order.
pub fn render_counts(counts: &Vec<usize>) -> (r: Vec<u8>)
    ensures
        r@ == render_all(counts@.map_values(|n: usize| n as nat)),
{
    let ghost nats = counts@.map_values(|n: usize| n as nat);
    let mut r: Vec<u8> = Vec::new();
    for i in 0..counts.len()
        invariant
            nats == counts@.map_values(|n: usize| n as nat),
            r@ == render_all(nats.take(i as int)),
    {
        assert(nats.take(i + 1).drop_last() =~= nats.take(i as int));
        write_count(&mut r, counts[i]);
    }
    assert(nats.take(counts.len() as int) =~= nats);
    r
}

/// Counts the tokens of every line under `delim`, binding the tokenizer as
/// `dispatch` says, and renders one output line per input line.
pub fn run(lines: &Vec<String>, delim: Delimiter, dispatch: Dispatch) -> (r: Vec<u8>)
    requires
        all_countable(line_views(lines@)),
    ensures
        r@ == program_output(line_views(lines@), delim),
{
    let counts = match dispatch {
        Dispatch::Static => run_static_dispatch(delim, lines),
        Dispatch::Dynamic => run_dynamic_dispatch(delim, lines),
    };
    render_counts(&counts)
}

} // verus!
