//! Index pickers: where a chromosome is cut.
//!
//! A picker hands out one index, a fixed number of indices, or some indices of
//! a chromosome of a given length. Indices that come in a sequence are cut
//! points: strictly increasing and below the length.

use vstd::prelude::*;
use rand::distributions::Bernoulli;
use rand::rngs::ThreadRng;
use rand::thread_rng;
use crate::ga::error::GaError;
use crate::ga::random::{choose_index, choose_indices, toss};

verus! {

/// Cut points of a chromosome of `length` genes: indices below `length`, in
/// strictly increasing order.
pub open spec fn is_cut_points(cuts: Seq<usize>, length: nat) -> bool {
    &&& forall|i: int| 0 <= i < cuts.len() ==> cuts[i] < length
    &&& forall|i: int, j: int| 0 <= i < j < cuts.len() ==> cuts[i] < cuts[j]
}

/// The indices `0, 1, .., n - 1`.
pub open spec fn first_indices(n: nat) -> Seq<usize> {
    Seq::new(n, |i: int| i as usize)
}

/// What a picker returned, with the indices as a sequence.
pub open spec fn picked_indices(picked: Result<Vec<usize>, GaError>) -> Result<
    Seq<usize>,
    GaError,
> {
    match picked {
        Ok(indices) => Ok(indices@),
        Err(e) => Err(e),
    }
}

/// A picker's answer to a request for one index, as an answer to a request
/// for one cut point.
pub open spec fn as_single_cut(picked: Result<usize, GaError>) -> Result<Seq<usize>, GaError> {
    match picked {
        Ok(index) => Ok(seq![index]),
        Err(e) => Err(e),
    }
}

/// What every picker keeps to when asked for one index: an index below
/// `length`, or `InvalidInput`. So a length of zero is always refused.
pub open spec fn pick_is_valid(length: usize, picked: Result<usize, GaError>) -> bool {
    match picked {
        Ok(index) => index < length,
        Err(e) => e == GaError::InvalidInput,
    }
}

/// What every picker keeps to when asked for `n` indices: exactly `n` cut
/// points, or `InvalidInput`. So `n > length` is always refused.
pub open spec fn pick_n_is_valid(
    length: usize,
    n: usize,
    picked: Result<Seq<usize>, GaError>,
) -> bool {
    match picked {
        Ok(cuts) => n <= length && cuts.len() == n && is_cut_points(cuts, length as nat),
        Err(e) => e == GaError::InvalidInput,
    }
}

/// What every picker keeps to when asked for some indices: cut points of a
/// chromosome that has genes, or `InvalidInput`. So a length of zero is always
/// refused.
pub open spec fn pick_some_is_valid(length: usize, picked: Result<Seq<usize>, GaError>) -> bool {
    match picked {
        Ok(cuts) => length > 0 && is_cut_points(cuts, length as nat),
        Err(e) => e == GaError::InvalidInput,
    }
}

/// A source of cut points.
///
/// The three `may_*` predicates say which answers an implementation can give;
/// a deterministic picker admits exactly one. Whatever the implementation,
/// every answer keeps to `pick_is_valid`, `pick_n_is_valid` and
/// `pick_some_is_valid`.
pub trait IndexPicker {
    /// Whether `pick(length)` can return `picked`.
    spec fn may_pick(&self, length: usize, picked: Result<usize, GaError>) -> bool;

    /// Whether `pick_n(length, n)` can return `picked`.
    spec fn may_pick_n(&self, length: usize, n: usize, picked: Result<Seq<usize>, GaError>) -> bool;

    /// Whether `pick_some(length)` can return `picked`.
    spec fn may_pick_some(&self, length: usize, picked: Result<Seq<usize>, GaError>) -> bool;

    /// One index of a chromosome of `length` genes.
    fn pick(&self, length: usize) -> (picked: Result<usize, GaError>)
        ensures
            pick_is_valid(length, picked),
            self.may_pick(length, picked),
    ;

    /// Exactly `n` cut points of a chromosome of `length` genes.
    fn pick_n(&self, length: usize, n: usize) -> (picked: Result<Vec<usize>, GaError>)
        ensures
            pick_n_is_valid(length, n, picked_indices(picked)),
            self.may_pick_n(length, n, picked_indices(picked)),
    ;

    /// Any number of cut points of a chromosome of `length` genes.
    fn pick_some(&self, length: usize) -> (picked: Result<Vec<usize>, GaError>)
        ensures
            pick_some_is_valid(length, picked_indices(picked)),
            self.may_pick_some(length, picked_indices(picked)),
    ;
}

/// The indices `0, 1, .., n - 1` as a vector.
pub fn index_range(n: usize) -> (indices: Vec<usize>)
    ensures
        indices@ == first_indices(n as nat),
{
    let mut indices: Vec<usize> = Vec::new();
    let mut i: usize = 0;
    while i < n
        invariant
            i <= n,
            indices@ == first_indices(i as nat),
        decreases n - i,
    {
        indices.push(i);
        i += 1;
    }
    indices
}

/// A picker without chance, for runs that must repeat: always the lowest
/// indices.
pub struct SequentialIndexPicker {}

impl IndexPicker for SequentialIndexPicker {
    open spec fn may_pick(&self, length: usize, picked: Result<usize, GaError>) -> bool {
        picked == if length == 0 {
            Err::<usize, GaError>(GaError::InvalidInput)
        } else {
            Ok(0usize)
        }
    }

    open spec fn may_pick_n(
        &self,
        length: usize,
        n: usize,
        picked: Result<Seq<usize>, GaError>,
    ) -> bool {
        picked == if length < n {
            Err::<Seq<usize>, GaError>(GaError::InvalidInput)
        } else {
            Ok(first_indices(n as nat))
        }
    }

    open spec fn may_pick_some(&self, length: usize, picked: Result<Seq<usize>, GaError>) -> bool {
        picked == if length == 0 {
            Err::<Seq<usize>, GaError>(GaError::InvalidInput)
        } else {
            Ok(first_indices((length / 2) as nat))
        }
    }

    /// Index 0, unless the chromosome has no genes.
    fn pick(&self, length: usize) -> (picked: Result<usize, GaError>) {
        match length {
            0 => Err(GaError::InvalidInput),
            _ => Ok(0),
        }
    }

    /// The first `n` indices, unless `n` exceeds `length`.
    fn pick_n(&self, length: usize, n: usize) -> (picked: Result<Vec<usize>, GaError>) {
        match length < n {
            true => Err(GaError::InvalidInput),
            false => Ok(index_range(n)),
        }
    }

    /// The first half of the indices (`length / 2` of them, rounded down),
    /// unless the chromosome has no genes.
    fn pick_some(&self, length: usize) -> (picked: Result<Vec<usize>, GaError>) {
        match length {
            0 => Err(GaError::InvalidInput),
            _ => Ok(index_range(length / 2)),
        }
    }
}

/// The positions at which `flags` holds `true`, in increasing order.
pub open spec fn set_positions(flags: Seq<bool>) -> Seq<usize>
    decreases flags.len(),
{
    if flags.len() == 0 {
        Seq::empty()
    } else if flags.last() {
        set_positions(flags.drop_last()).push((flags.len() - 1) as usize)
    } else {
        set_positions(flags.drop_last())
    }
}

/// The set positions are cut points, and a position is among them exactly
/// when its flag is set.
pub proof fn lemma_set_positions(flags: Seq<bool>)
    requires
        flags.len() <= usize::MAX,
    ensures
        is_cut_points(set_positions(flags), flags.len()),
        forall|p: usize| set_positions(flags).contains(p) <==> (p < flags.len() && flags[p as int]),
    decreases flags.len(),
{
    let positions = set_positions(flags);
    if flags.len() > 0 {
        let front = flags.drop_last();
        let earlier = set_positions(front);
        let last = (flags.len() - 1) as usize;
        lemma_set_positions(front);
        assert forall|p: usize| positions.contains(p) implies p < flags.len()
            && flags[p as int] by {
            let i = choose|i: int| 0 <= i < positions.len() && positions[i] == p;
            if i < earlier.len() {
                assert(front[p as int] == flags[p as int]);
            }
        }
        assert forall|p: usize| p < flags.len() && flags[p as int] implies positions.contains(
            p,
        ) by {
            if p == last {
                assert(positions[positions.len() - 1] == p);
            } else {
                assert(front[p as int]);
                let i = choose|i: int| 0 <= i < earlier.len() && earlier[i] == p;
                assert(positions[i] == p);
            }
        }
    }
}

/// The positions at which `flags` holds `true`, in increasing order.
pub fn selected_positions(flags: &Vec<bool>) -> (positions: Vec<usize>)
    ensures
        positions@ == set_positions(flags@),
        is_cut_points(positions@, flags.len() as nat),
        forall|p: usize| positions@.contains(p) <==> (p < flags.len() && flags[p as int]),
{
    let mut positions: Vec<usize> = Vec::new();
    let mut i: usize = 0;
    while i < flags.len()
        invariant
            i <= flags.len(),
            positions@ == set_positions(flags@.take(i as int)),
        decreases flags.len() - i,
    {
        assert(flags@.take(i + 1).drop_last() =~= flags@.take(i as int));
        if flags[i] {
            positions.push(i);
        }
        i += 1;
    }
    proof {
        assert(flags@.take(i as int) =~= flags@);
        lemma_set_positions(flags@);
    }
    positions
}

/// One flag for each position below `length`, set exactly where the position
/// occurs in `drawn`.
pub fn mark_positions(drawn: &Vec<usize>, length: usize) -> (flags: Vec<bool>)
    ensures
        flags.len() == length,
        forall|p: usize| p < length ==> (flags[p as int] <==> drawn@.contains(p)),
{
    let mut flags: Vec<bool> = vec![false; length];
    let mut k: usize = 0;
    while k < drawn.len()
        invariant
            k <= drawn.len(),
            flags.len() == length,
            forall|p: usize|
                p < length ==> (flags[p as int] <==> drawn@.take(k as int).contains(p)),
        decreases drawn.len() - k,
    {
        let position = drawn[k];
        proof {
            let before = drawn@.take(k as int);
            let after = drawn@.take(k + 1);
            assert forall|p: usize| after.contains(p) <==> (before.contains(p) || p
                == position) by {
                if p == position {
                    assert(after[k as int] == p);
                }
            }
        }
        if position < length {
            flags.set(position, true);
        }
        k += 1;
    }
    assert(drawn@.take(k as int) =~= drawn@);
    flags
}

/// The indices of `drawn` that lie below `length`, each once, in increasing
/// order. Where `drawn` holds indices below `length` without a duplicate, as
/// many come out as went in.
pub fn ascending(drawn: &Vec<usize>, length: usize) -> (cuts: Vec<usize>)
    ensures
        is_cut_points(cuts@, length as nat),
        forall|p: usize| cuts@.contains(p) <==> (p < length && drawn@.contains(p)),
        drawn@.no_duplicates() && (forall|i: int| 0 <= i < drawn.len() ==> drawn[i] < length)
            ==> cuts.len() == drawn.len(),
{
    let flags = mark_positions(drawn, length);
    let cuts = selected_positions(&flags);
    proof {
        if drawn@.no_duplicates() && (forall|i: int| 0 <= i < drawn.len() ==> drawn[i] < length) {
            assert(cuts@.to_set() =~= drawn@.to_set());
            cuts@.unique_seq_to_set();
            drawn@.unique_seq_to_set();
        }
    }
    cuts
}

/// `length` tosses of `coin`, one flag for each.
fn toss_each(coin: &Bernoulli, rng: &mut ThreadRng, length: usize) -> (flags: Vec<bool>)
    ensures
        flags.len() == length,
{
    let mut flags: Vec<bool> = Vec::new();
    let mut i: usize = 0;
    while i < length
        invariant
            i <= length,
            flags.len() == i,
        decreases length - i,
    {
        flags.push(toss(coin, rng));
        i += 1;
    }
    flags
}

/// A picker that draws from the thread's random generator.
pub struct RandomIndexPicker {}

impl IndexPicker for RandomIndexPicker {
    /// Any index below `length`; a refusal only where there is none.
    open spec fn may_pick(&self, length: usize, picked: Result<usize, GaError>) -> bool {
        length > 0 ==> picked is Ok
    }

    /// Any `n` cut points; a refusal only where `n` exceeds `length`.
    open spec fn may_pick_n(
        &self,
        length: usize,
        n: usize,
        picked: Result<Seq<usize>, GaError>,
    ) -> bool {
        n <= length ==> picked is Ok
    }

    /// Any cut points; a refusal only where the chromosome has no genes.
    open spec fn may_pick_some(&self, length: usize, picked: Result<Seq<usize>, GaError>) -> bool {
        length > 0 ==> picked is Ok
    }

    /// An index below `length`, each with the same chance.
    fn pick(&self, length: usize) -> (picked: Result<usize, GaError>) {
        let indices = index_range(length);
        let mut rng = thread_rng();
        match choose_index(&indices, &mut rng) {
            Some(index) => Ok(index),
            None => Err(GaError::InvalidInput),
        }
    }

    /// `n` different indices below `length`, drawn without replacement and
    /// put in increasing order. Where all indices are asked for, nothing is
    /// left to chance and all of them come out.
    fn pick_n(&self, length: usize, n: usize) -> (picked: Result<Vec<usize>, GaError>) {
        match length < n {
            true => Err(GaError::InvalidInput),
            false => match n == length {
                true => Ok(index_range(n)),
                false => {
                    let indices = index_range(length);
                    let mut rng = thread_rng();
                    let drawn = choose_indices(&indices, &mut rng, n);
                    Ok(ascending(&drawn, length))
                },
            },
        }
    }

    /// Each index below `length` with a chance of one half, independently of
    /// the others, in increasing order.
    fn pick_some(&self, length: usize) -> (picked: Result<Vec<usize>, GaError>) {
        match length {
            0 => Err(GaError::InvalidInput),
            _ => match Bernoulli::from_ratio(1, 2) {
                Ok(coin) => {
                    let mut rng = thread_rng();
                    let flags = toss_each(&coin, &mut rng, length);
                    Ok(selected_positions(&flags))
                },
                Err(_) => Err(GaError::InvalidInput),
            },
        }
    }
}

/// An answer is good for one cut point exactly when it is good for one index.
pub proof fn lemma_one_cut_point_is_one_index(length: usize, picked: Result<usize, GaError>)
    ensures
        pick_n_is_valid(length, 1, as_single_cut(picked)) <==> pick_is_valid(length, picked),
{
    if let Ok(index) = picked {
        assert(seq![index][0] == index);
    }
}

/// The sequential picker answers a request for one cut point as it answers a
/// request for one index.
pub proof fn lemma_sequential_picks_alike(
    picker: SequentialIndexPicker,
    length: usize,
    picked: Result<usize, GaError>,
)
    ensures
        picker.may_pick_n(length, 1, as_single_cut(picked)) <==> picker.may_pick(length, picked),
{
    assert(first_indices(1) =~= seq![0usize]);
    if let Ok(index) = picked {
        assert(seq![index][0] == index);
    }
}

/// The random picker can answer a request for one cut point as it can answer
/// a request for one index.
pub proof fn lemma_random_picks_alike(
    picker: RandomIndexPicker,
    length: usize,
    picked: Result<usize, GaError>,
)
    ensures
        picker.may_pick_n(length, 1, as_single_cut(picked)) <==> picker.may_pick(length, picked),
{
}

} // verus!
