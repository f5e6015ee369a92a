//! Random sequences, point mutations of a reference, and named records.
use crate::rng::{draw_index, draw_u64, seeded};
use crate::{BASE_A, BASE_C, BASE_G, BASE_T};
use vstd::prelude::*;
use vstd::string::StringExecFns;

verus! {

/// The generator's alphabet, in the order in which a draw picks from it.
pub open spec fn alphabet() -> Seq<u8> {
    seq![BASE_A, BASE_C, BASE_T, BASE_G]
}

/// `b` is one of the four symbols that the generator produces.
pub open spec fn is_symbol(b: u8) -> bool {
    b == BASE_A || b == BASE_C || b == BASE_T || b == BASE_G
}

/// Every position of `s` holds a symbol of the alphabet.
pub open spec fn all_symbols(s: Seq<u8>) -> bool {
    forall|i: int| 0 <= i < s.len() ==> is_symbol(#[trigger] s[i])
}

/// A per-site mutation probability of `hits / out_of`. At or above one,
/// every site is redrawn; at zero, none is.
#[derive(Clone, Copy, Debug, PartialEq, Eq, Structural)]
pub struct MutationRate {
    pub hits: u64,
    pub out_of: u64,
}

impl MutationRate {
    /// The denominator is positive.
    pub open spec fn wf(self) -> bool {
        self.out_of > 0
    }
}

/// An identifier paired with a sequence of bytes.
pub struct SeqRecord {
    pub id: String,
    pub seq: Vec<u8>,
}

/// The symbol at position `pick` of the alphabet.
pub fn symbol_of(pick: usize) -> (r: u8)
    requires
        pick < 4,
    ensures
        r == alphabet()[pick as int],
        is_symbol(r),
{
    if pick == 0 {
        BASE_A
    } else if pick == 1 {
        BASE_C
    } else if pick == 2 {
        BASE_T
    } else {
        BASE_G
    }
}

/// What one site becomes: a roll below `rate.hits` (out of `rate.out_of`)
/// redraws the site as the picked symbol, which may equal the old one.
pub open spec fn site_outcome(nucl: u8, roll: u64, pick: usize, rate: MutationRate) -> u8 {
    if roll < rate.hits {
        alphabet()[pick as int]
    } else {
        nucl
    }
}

/// `m` can come out of mutating `reference` at `rate`: each site is kept or
/// redrawn as a symbol; nothing changes at rate zero; everything is redrawn
/// at rate one.
pub open spec fn is_mutant_of(m: Seq<u8>, reference: Seq<u8>, rate: MutationRate) -> bool {
    &&& m.len() == reference.len()
    &&& forall|i: int| 0 <= i < m.len() ==> (#[trigger] m[i] == reference[i] || is_symbol(m[i]))
    &&& rate.hits == 0 ==> m == reference
    &&& rate.hits >= rate.out_of ==> all_symbols(m)
}

/// A sequence of `seqlen` symbols, each drawn uniformly from the alphabet.
pub fn create_seq(seqlen: usize, rng: &mut fastrand::Rng) -> (r: Vec<u8>)
    ensures
        r@.len() == seqlen,
        all_symbols(r@),
{
    let mut s: Vec<u8> = Vec::new();
    let mut i: usize = 0;
    while i < seqlen
        invariant
            i <= seqlen,
            s@.len() == i,
            all_symbols(s@),
        decreases seqlen - i,
    {
        let pick = draw_index(rng, 4);
        s.push(symbol_of(pick));
        i += 1;
    }
    s
}

/// One site under mutation, given the roll and the picked symbol.
pub fn mutate_site(nucl: u8, roll: u64, pick: usize, rate: MutationRate) -> (r: u8)
    requires
        pick < 4,
    ensures
        r == site_outcome(nucl, roll, pick, rate),
{
    if roll < rate.hits {
        symbol_of(pick)
    } else {
        nucl
    }
}

/// A new sequence in which each site of `refseq` is independently redrawn
/// with probability `rate`; `refseq` itself is left as it was.
pub fn mutate_reference(refseq: &Vec<u8>, rate: MutationRate, rng: &mut fastrand::Rng) -> (r: Vec<
    u8,
>)
    requires
        rate.wf(),
    ensures
        is_mutant_of(r@, refseq@, rate),
{
    let mut m: Vec<u8> = Vec::new();
    let mut i: usize = 0;
    while i < refseq.len()
        invariant
            rate.wf(),
            i <= refseq@.len(),
            m@.len() == i,
            forall|j: int| 0 <= j < i ==> (#[trigger] m@[j] == refseq@[j] || is_symbol(m@[j])),
            rate.hits == 0 ==> m@ == refseq@.take(i as int),
            rate.hits >= rate.out_of ==> all_symbols(m@),
        decreases refseq@.len() - i,
    {
        let roll = draw_u64(rng, rate.out_of);
        let pick = draw_index(rng, 4);
        let nucl = mutate_site(refseq[i], roll, pick, rate);
        m.push(nucl);
        proof {
            assert(refseq@.take(i + 1) =~= refseq@.take(i as int).push(refseq@[i as int]));
        }
        i += 1;
    }
    proof {
        assert(refseq@.take(i as int) =~= refseq@);
    }
    m
}

/// The character of a decimal digit.
pub open spec fn digit_char(d: nat) -> char {
    seq!['0', '1', '2', '3', '4', '5', '6', '7', '8', '9'][d as int]
}

/// The decimal digits of `n`, without sign or leading zeros.
pub open spec fn decimal(n: nat) -> Seq<char>
    decreases n,
{
    if n < 10 {
        seq![digit_char(n)]
    } else {
        decimal(n / 10).push(digit_char(n % 10))
    }
}

/// The identifier of generated record `i`: `seq` and its decimal digits.
pub open spec fn seq_label(i: nat) -> Seq<char> {
    seq!['s', 'e', 'q'] + decimal(i)
}

/// The identifier of the reference record.
pub open spec fn reference_label() -> Seq<char> {
    seq!['R', 'e', 'f', 's', 'e', 'q']
}

/// Relies on std's `ToString` for `usize` (its `Display`): the decimal
/// digits of the value, without sign or padding.
#[verifier::external_body]
fn decimal_digits(i: usize) -> (r: String)
    ensures
        r@ == decimal(i as nat),
{
    i.to_string()
}

/// The identifier of generated record `i`, as a `String`.
fn seq_name(i: usize) -> (r: String)
    ensures
        r@ == seq_label(i as nat),
{
    let prefix = "seq".to_owned();
    proof {
        reveal_strlit("seq");
    }
    let digits = decimal_digits(i);
    prefix.concat(digits.as_str())
}

/// The identifier of the reference record, as a `String`.
fn reference_name() -> (r: String)
    ensures
        r@ == reference_label(),
{
    let r = "Refseq".to_owned();
    proof {
        reveal_strlit("Refseq");
    }
    r
}

/// The seed of the generator that produces record `index`: each record has
/// a generator of its own, so records may be produced in any order, and in
/// parallel, with the same outcome.
fn task_seed(seed: u64, index: usize) -> (r: u64)
    ensures
        r == (seed + index + 1) % 0x1_0000_0000_0000_0000,
{
    seed.wrapping_add(index as u64).wrapping_add(1)
}

/// The reference sequence of a run: `seqlen` symbols drawn from `seed`.
pub fn reference_sequence(seqlen: usize, seed: u64) -> (r: Vec<u8>)
    ensures
        r@.len() == seqlen,
        all_symbols(r@),
{
    let mut rng = seeded(seed);
    create_seq(seqlen, &mut rng)
}

/// The first record of a run with mutation: `Refseq` and the run's
/// reference sequence.
pub fn reference_record(seqlen: usize, seed: u64) -> (r: SeqRecord)
    ensures
        r.id@ == reference_label(),
        r.seq@.len() == seqlen,
        all_symbols(r.seq@),
{
    SeqRecord { id: reference_name(), seq: reference_sequence(seqlen, seed) }
}

/// Record `index` of a run without mutation: `seq{index}` and `seqlen`
/// fresh symbols.
pub fn random_record(seqlen: usize, seed: u64, index: usize) -> (r: SeqRecord)
    ensures
        r.id@ == seq_label(index as nat),
        r.seq@.len() == seqlen,
        all_symbols(r.seq@),
{
    let mut rng = seeded(task_seed(seed, index));
    let seq = create_seq(seqlen, &mut rng);
    SeqRecord { id: seq_name(index), seq }
}

/// Record `index` of a run with mutation: `seq{index}` and a mutant of
/// `refseq`.
pub fn mutant_record(refseq: &Vec<u8>, rate: MutationRate, seed: u64, index: usize) -> (r:
    SeqRecord)
    requires
        rate.wf(),
    ensures
        r.id@ == seq_label(index as nat),
        is_mutant_of(r.seq@, refseq@, rate),
{
    let mut rng = seeded(task_seed(seed, index));
    let seq = mutate_reference(refseq, rate, &mut rng);
    SeqRecord { id: seq_name(index), seq }
}

/// What a run of `generate_sequences` yields. Without a rate: `maxseqs`
/// records `seq0, seq1, ...` of `seqlen` symbols. With a rate: the reference
/// `Refseq` first, then `maxseqs - 1` mutants of it named `seq0, seq1, ...`.
pub open spec fn is_generated(
    r: Seq<SeqRecord>,
    seqlen: nat,
    maxseqs: nat,
    mut_rate: Option<MutationRate>,
) -> bool {
    match mut_rate {
        None => {
            &&& r.len() == maxseqs
            &&& forall|i: int|
                0 <= i < r.len() ==> {
                    &&& (#[trigger] r[i]).id@ == seq_label(i as nat)
                    &&& r[i].seq@.len() == seqlen
                    &&& all_symbols(r[i].seq@)
                }
        },
        Some(rate) => {
            &&& r.len() == if maxseqs == 0 { 1 } else { maxseqs }
            &&& r[0].id@ == reference_label()
            &&& r[0].seq@.len() == seqlen
            &&& all_symbols(r[0].seq@)
            &&& forall|i: int|
                1 <= i < r.len() ==> {
                    &&& (#[trigger] r[i]).id@ == seq_label((i - 1) as nat)
                    &&& is_mutant_of(r[i].seq@, r[0].seq@, rate)
                }
        },
    }
}

/// The records of one generation run, in their logical order.
pub fn generate_sequences(seqlen: usize, maxseqs: usize, mut_rate: Option<MutationRate>, seed: u64) -> (r: Vec<SeqRecord>)
    requires
        match mut_rate {
            Some(rate) => rate.wf(),
            None => true,
        },
    ensures
        is_generated(r@, seqlen as nat, maxseqs as nat, mut_rate),
{
    let mut out: Vec<SeqRecord> = Vec::new();
    match mut_rate {
        None => {
            let mut i: usize = 0;
            while i < maxseqs
                invariant
                    i <= maxseqs,
                    is_generated(out@, seqlen as nat, i as nat, None),
                decreases maxseqs - i,
            {
                let rec = random_record(seqlen, seed, i);
                out.push(rec);
                i += 1;
            }
        },
        Some(rate) => {
            let reference = reference_record(seqlen, seed);
            let count: usize = if maxseqs == 0 { 0 } else { maxseqs - 1 };
            let mut i: usize = 0;
            let mut mutants: Vec<SeqRecord> = Vec::new();
            while i < count
                invariant
                    rate.wf(),
                    i <= count,
                    mutants@.len() == i,
                    forall|j: int|
                        0 <= j < i ==> {
                            &&& (#[trigger] mutants@[j]).id@ == seq_label(j as nat)
                            &&& is_mutant_of(mutants@[j].seq@, reference.seq@, rate)
                        },
                decreases count - i,
            {
                let rec = mutant_record(&reference.seq, rate, seed, i);
                mutants.push(rec);
                i += 1;
            }
            out.push(reference);
            out.append(&mut mutants);
        },
    }
    out
}

} // verus!
