//! Subsets of a record collection: a random sample of positions, or the
//! records whose identifiers a list names.
use crate::rng::{choose_positions, seeded};
use vstd::prelude::*;
use vstd::set::group_set_axioms;
use vstd::seq_lib::seq_to_set_is_finite;
use vstd::set_lib::lemma_set_subset_finite;

verus! {

/// Why a sample could not be drawn.
#[derive(Clone, Copy, Debug, PartialEq, Eq, Structural)]
pub enum SampleError {
    /// More records were requested than the collection holds.
    InvalidSampleSize { requested: usize, available: usize },
}

/// How many positions of `s` are marked.
pub open spec fn count_true(s: Seq<bool>) -> nat
    decreases s.len(),
{
    if s.len() == 0 {
        0
    } else {
        count_true(s.drop_last()) + if s.last() { 1nat } else { 0nat }
    }
}

/// `mask` marks exactly the positions that `chosen` holds.
pub open spec fn marks_exactly(mask: Seq<bool>, chosen: Seq<usize>) -> bool {
    forall|i: int| 0 <= i < mask.len() ==> #[trigger] mask[i] == chosen.contains(i as usize)
}

/// The values of `chosen` below `j`, as a set.
pub open spec fn chosen_below(chosen: Seq<usize>, j: int) -> Set<usize> {
    chosen.to_set().filter(|x: usize| (x as int) < j)
}

proof fn lemma_count_prefix(mask: Seq<bool>, chosen: Seq<usize>, j: int)
    requires
        0 <= j <= mask.len(),
        mask.len() <= usize::MAX + 1,
        marks_exactly(mask, chosen),
    ensures
        chosen_below(chosen, j).finite(),
        count_true(mask.take(j)) == chosen_below(chosen, j).len(),
    decreases j,
{
    broadcast use group_set_axioms, seq_to_set_is_finite;

    let below = chosen_below(chosen, j);
    lemma_set_subset_finite(chosen.to_set(), below);
    if j == 0 {
        assert(below =~= Set::empty());
    } else {
        lemma_count_prefix(mask, chosen, j - 1);
        let prev = chosen_below(chosen, j - 1);
        assert(mask.take(j).drop_last() =~= mask.take(j - 1));
        if mask[j - 1] {
            assert(below =~= prev.insert((j - 1) as usize));
        } else {
            assert(below =~= prev);
        }
    }
}

/// A mask that marks exactly the positions held by `chosen`, which are
/// distinct and all inside the mask, marks as many positions as `chosen`
/// holds values.
pub proof fn lemma_mask_count(mask: Seq<bool>, chosen: Seq<usize>)
    requires
        mask.len() <= usize::MAX + 1,
        chosen.no_duplicates(),
        forall|i: int| 0 <= i < chosen.len() ==> (#[trigger] chosen[i] as int) < mask.len(),
        marks_exactly(mask, chosen),
    ensures
        count_true(mask) == chosen.len(),
{
    broadcast use group_set_axioms;

    lemma_count_prefix(mask, chosen, mask.len() as int);
    assert(mask.take(mask.len() as int) =~= mask);
    assert(chosen_below(chosen, mask.len() as int) =~= chosen.to_set());
    chosen.unique_seq_to_set();
}

/// `k` distinct positions in `0..total`, drawn uniformly; an error when
/// `k` exceeds `total`.
pub fn choose_k_without_replacement(total: usize, k: usize, rng: &mut fastrand::Rng) -> (r: Result<
    Vec<usize>,
    SampleError,
>)
    ensures
        match r {
            Ok(v) => {
                &&& k <= total
                &&& v@.len() == k
                &&& v@.no_duplicates()
                &&& forall|i: int| 0 <= i < v@.len() ==> #[trigger] v@[i] < total
            },
            Err(e) => k > total && e == (SampleError::InvalidSampleSize {
                requested: k,
                available: total,
            }),
        },
{
    if k > total {
        return Err(SampleError::InvalidSampleSize { requested: k, available: total });
    }
    Ok(choose_positions(rng, total, k))
}

/// Whether `chosen` holds `p`.
pub fn holds_position(chosen: &Vec<usize>, p: usize) -> (r: bool)
    ensures
        r == chosen@.contains(p),
{
    let mut j: usize = 0;
    while j < chosen.len()
        invariant
            j <= chosen@.len(),
            forall|m: int| 0 <= m < j ==> chosen@[m] != p,
        decreases chosen@.len() - j,
    {
        if chosen[j] == p {
            return true;
        }
        j += 1;
    }
    false
}

/// For each position of `0..total`, whether `chosen` holds it.
pub fn positions_mask(total: usize, chosen: &Vec<usize>) -> (r: Vec<bool>)
    ensures
        r@.len() == total,
        marks_exactly(r@, chosen@),
{
    let mut mask: Vec<bool> = Vec::new();
    let mut i: usize = 0;
    while i < total
        invariant
            i <= total,
            mask@.len() == i,
            marks_exactly(mask@, chosen@),
        decreases total - i,
    {
        mask.push(holds_position(chosen, i));
        i += 1;
    }
    mask
}

/// Which of `total` records a random sample of `num_sequences`, drawn from
/// `seed`, keeps: exactly `num_sequences` of them, or an error when more
/// are requested than there are.
pub fn subsample_sequences(total: usize, num_sequences: usize, seed: u64) -> (r: Result<
    Vec<bool>,
    SampleError,
>)
    ensures
        match r {
            Ok(mask) => {
                &&& num_sequences <= total
                &&& mask@.len() == total
                &&& count_true(mask@) == num_sequences
            },
            Err(e) => num_sequences > total && e == (SampleError::InvalidSampleSize {
                requested: num_sequences,
                available: total,
            }),
        },
{
    let mut rng = seeded(seed);
    match choose_k_without_replacement(total, num_sequences, &mut rng) {
        Ok(chosen) => {
            let mask = positions_mask(total, &chosen);
            proof {
                lemma_mask_count(mask@, chosen@);
            }
            Ok(mask)
        },
        Err(e) => Err(e),
    }
}

/// What `str::trim` makes of a line: the line without the whitespace
/// around it.
pub uninterp spec fn trimmed_of(s: Seq<char>) -> Seq<char>;

/// Relies on str::trim: the result depends on the line's characters alone,
/// and is a part of the line, so it is no longer.
#[verifier::external_body]
fn trim_line(s: &String) -> (r: String)
    ensures
        r@ == trimmed_of(s@),
        r@.len() <= s@.len(),
{
    s.trim().to_string()
}

/// The lines of an identifier list, each without its surrounding whitespace.
pub fn read_lines(lines: &Vec<String>) -> (r: Vec<String>)
    ensures
        r@.len() == lines@.len(),
        forall|i: int| 0 <= i < r@.len() ==> (#[trigger] r@[i])@ == trimmed_of(lines@[i]@),
{
    let mut out: Vec<String> = Vec::new();
    let mut i: usize = 0;
    while i < lines.len()
        invariant
            i <= lines@.len(),
            out@.len() == i,
            forall|j: int| 0 <= j < i ==> (#[trigger] out@[j])@ == trimmed_of(lines@[j]@),
        decreases lines@.len() - i,
    {
        out.push(trim_line(&lines[i]));
        i += 1;
    }
    out
}

/// `wanted` holds an entry equal to `id`.
pub open spec fn listed(wanted: Seq<String>, id: Seq<char>) -> bool {
    exists|j: int| 0 <= j < wanted.len() && (#[trigger] wanted[j])@ == id
}

/// Whether `wanted` holds an entry equal to `id`.
pub fn is_listed(wanted: &Vec<String>, id: &String) -> (r: bool)
    ensures
        r == listed(wanted@, id@),
{
    let mut j: usize = 0;
    while j < wanted.len()
        invariant
            j <= wanted@.len(),
            forall|m: int| 0 <= m < j ==> (#[trigger] wanted@[m])@ != id@,
        decreases wanted@.len() - j,
    {
        if wanted[j] == *id {
            return true;
        }
        j += 1;
    }
    false
}

/// For each identifier of a collection, in the collection's order, whether
/// `wanted` lists it. Duplicates in the collection are each tested.
pub fn membership_mask(ids: &Vec<String>, wanted: &Vec<String>) -> (r: Vec<bool>)
    ensures
        r@.len() == ids@.len(),
        forall|i: int| 0 <= i < r@.len() ==> #[trigger] r@[i] == listed(wanted@, ids@[i]@),
{
    let mut mask: Vec<bool> = Vec::new();
    let mut i: usize = 0;
    while i < ids.len()
        invariant
            i <= ids@.len(),
            mask@.len() == i,
            forall|j: int| 0 <= j < i ==> #[trigger] mask@[j] == listed(wanted@, ids@[j]@),
        decreases ids@.len() - i,
    {
        mask.push(is_listed(wanted, &ids[i]));
        i += 1;
    }
    mask
}

/// Which records of a collection, given by their identifiers, the lines of
/// an identifier list name once the lines are trimmed.
pub fn subsample_list(ids: &Vec<String>, list_lines: &Vec<String>) -> (r: Vec<bool>)
    ensures
        r@.len() == ids@.len(),
        forall|i: int|
            0 <= i < r@.len() ==> #[trigger] r@[i] == exists|j: int|
                0 <= j < list_lines@.len() && trimmed_of(list_lines@[j]@) == ids@[i]@,
{
    let wanted = read_lines(list_lines);
    let mask = membership_mask(ids, &wanted);
    assert forall|i: int| 0 <= i < mask@.len() implies #[trigger] mask@[i] == exists|j: int|
        0 <= j < list_lines@.len() && trimmed_of(list_lines@[j]@) == ids@[i]@ by {
        if mask@[i] {
            let j = choose|j: int| 0 <= j < wanted@.len() && (#[trigger] wanted@[j])@ == ids@[i]@;
            assert(trimmed_of(list_lines@[j]@) == ids@[i]@);
        } else {
            assert forall|j: int| 0 <= j < list_lines@.len() implies trimmed_of(list_lines@[j]@) != ids@[i]@ by {
                assert(wanted@[j]@ == trimmed_of(list_lines@[j]@));
            }
        }
    }
    mask
}

} // verus!
