//! Per-record nucleotide statistics: length, counts and whole percentages.
use crate::{BASE_A, BASE_C, BASE_G, BASE_N, BASE_T};
use vstd::prelude::*;

verus! {

/// How many times `b` occurs in `s`.
pub open spec fn count_of(s: Seq<u8>, b: u8) -> nat
    decreases s.len(),
{
    if s.len() == 0 {
        0
    } else {
        count_of(s.drop_last(), b) + if s.last() == b { 1nat } else { 0nat }
    }
}

/// The whole percentage that `part` is of `whole`, rounded down; zero of nothing.
pub open spec fn percent(part: nat, whole: nat) -> nat {
    if whole == 0 { 0 } else { part * 100 / whole }
}

/// No byte occurs more often than the sequence is long, and two different
/// bytes together occur no more often than that either.
pub proof fn lemma_counts_bounded(s: Seq<u8>, x: u8, y: u8)
    requires
        x != y,
    ensures
        count_of(s, x) <= s.len(),
        count_of(s, x) + count_of(s, y) <= s.len(),
    decreases s.len(),
{
    if s.len() > 0 {
        lemma_counts_bounded(s.drop_last(), x, y);
    }
}

proof fn lemma_percent_bounded(part: nat, whole: nat)
    requires
        part <= whole,
    ensures
        percent(part, whole) <= 100,
{
    if whole > 0 {
        assert(part * 100 / whole <= 100) by (nonlinear_arith)
            requires
                part <= whole,
                whole > 0,
        ;
    }
}

/// The length of a sequence.
pub fn gather_length(seq: &[u8]) -> (r: usize)
    ensures
        r == seq@.len(),
{
    seq.len()
}

/// The summed count of G and C.
pub fn calculate_gc(g: usize, c: usize) -> (r: usize)
    requires
        g + c <= usize::MAX,
    ensures
        r == g + c,
{
    g + c
}

/// The whole percentage that `element` is of `length`, rounded down; zero
/// when `length` is zero.
pub fn turn_to_perc(element: usize, length: usize) -> (r: usize)
    requires
        percent(element as nat, length as nat) <= usize::MAX,
    ensures
        r == percent(element as nat, length as nat),
        element <= length ==> r <= 100,
{
    if length == 0 {
        0
    } else {
        let scaled: u128 = element as u128 * 100;
        let p: u128 = scaled / (length as u128);
        assert(element <= length ==> p <= 100) by (nonlinear_arith)
            requires
                p == scaled / (length as u128),
                scaled == element * 100,
                length > 0,
        ;
        p as usize
    }
}

/// Counts of A, T, G, C and N, in that order.
pub fn gather_freq(seq: &[u8]) -> (r: [usize; 5])
    ensures
        r@ == seq![
            count_of(seq@, BASE_A) as usize,
            count_of(seq@, BASE_T) as usize,
            count_of(seq@, BASE_G) as usize,
            count_of(seq@, BASE_C) as usize,
            count_of(seq@, BASE_N) as usize,
        ],
{
    let mut a: usize = 0;
    let mut t: usize = 0;
    let mut g: usize = 0;
    let mut c: usize = 0;
    let mut n: usize = 0;
    let mut i: usize = 0;
    while i < seq.len()
        invariant
            i <= seq@.len(),
            a == count_of(seq@.take(i as int), BASE_A),
            t == count_of(seq@.take(i as int), BASE_T),
            g == count_of(seq@.take(i as int), BASE_G),
            c == count_of(seq@.take(i as int), BASE_C),
            n == count_of(seq@.take(i as int), BASE_N),
            a <= i && t <= i && g <= i && c <= i && n <= i,
        decreases seq@.len() - i,
    {
        let nucl = seq[i];
        assert(seq@.take(i + 1).drop_last() =~= seq@.take(i as int));
        if nucl == BASE_A {
            a += 1;
        }
        if nucl == BASE_T {
            t += 1;
        }
        if nucl == BASE_G {
            g += 1;
        }
        if nucl == BASE_C {
            c += 1;
        }
        if nucl == BASE_N {
            n += 1;
        }
        i += 1;
    }
    assert(seq@.take(i as int) =~= seq@);
    [a, t, g, c, n]
}

/// Length, GC percentage, the counts of A, T, G, C, N and their percentages.
pub fn gather_info(seq: &[u8]) -> (r: (usize, usize, [usize; 5], [usize; 5]))
    ensures
        r.0 == seq@.len(),
        r.1 == percent(count_of(seq@, BASE_G) + count_of(seq@, BASE_C), seq@.len()),
        r.2@ == seq![
            count_of(seq@, BASE_A) as usize,
            count_of(seq@, BASE_T) as usize,
            count_of(seq@, BASE_G) as usize,
            count_of(seq@, BASE_C) as usize,
            count_of(seq@, BASE_N) as usize,
        ],
        r.3@ == seq![
            percent(count_of(seq@, BASE_A), seq@.len()) as usize,
            percent(count_of(seq@, BASE_T), seq@.len()) as usize,
            percent(count_of(seq@, BASE_G), seq@.len()) as usize,
            percent(count_of(seq@, BASE_C), seq@.len()) as usize,
            percent(count_of(seq@, BASE_N), seq@.len()) as usize,
        ],
{
    let length = gather_length(seq);
    let freq = gather_freq(seq);
    proof {
        lemma_counts_bounded(seq@, BASE_G, BASE_C);
        lemma_counts_bounded(seq@, BASE_A, BASE_C);
        lemma_counts_bounded(seq@, BASE_T, BASE_C);
        lemma_counts_bounded(seq@, BASE_N, BASE_C);
        lemma_percent_bounded(count_of(seq@, BASE_G) + count_of(seq@, BASE_C), seq@.len());
        lemma_percent_bounded(count_of(seq@, BASE_A), seq@.len());
        lemma_percent_bounded(count_of(seq@, BASE_T), seq@.len());
        lemma_percent_bounded(count_of(seq@, BASE_G), seq@.len());
        lemma_percent_bounded(count_of(seq@, BASE_C), seq@.len());
        lemma_percent_bounded(count_of(seq@, BASE_N), seq@.len());
    }
    let gc = calculate_gc(freq[2], freq[3]);
    let gc = turn_to_perc(gc, length);
    let perc_freq: [usize; 5] = [
        turn_to_perc(freq[0], length),
        turn_to_perc(freq[1], length),
        turn_to_perc(freq[2], length),
        turn_to_perc(freq[3], length),
        turn_to_perc(freq[4], length),
    ];
    (length, gc, freq, perc_freq)
}

} // verus!
