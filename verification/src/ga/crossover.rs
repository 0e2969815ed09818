//! Crossover: two parents of equal length give two offspring of that length.
//!
//! Cut points split a chromosome into segments. The genes before the first cut
//! point stay with their own parent; at every cut point the two offspring
//! change sources. So a gene is exchanged exactly when an odd number of cut
//! points lies at or before its position.

use vstd::prelude::*;
use crate::ga::error::GaError;
use crate::ga::picker::{is_cut_points, pick_is_valid, pick_n_is_valid, pick_some_is_valid};
use crate::ga::picker::{as_single_cut, IndexPicker};

verus! {

/// How many of `cuts` lie at or before position `p`.
pub open spec fn cuts_up_to(cuts: Seq<usize>, p: int) -> nat
    decreases cuts.len(),
{
    if cuts.len() == 0 {
        0
    } else {
        cuts_up_to(cuts.drop_last(), p) + if cuts.last() <= p {
            1nat
        } else {
            0nat
        }
    }
}

/// Whether the gene at position `p` comes from the other parent.
pub open spec fn is_exchanged(cuts: Seq<usize>, p: int) -> bool {
    cuts_up_to(cuts, p) % 2 == 1
}

/// The offspring that starts out as `own` and takes the exchanged genes from
/// `other`.
pub open spec fn offspring(own: Seq<bool>, other: Seq<bool>, cuts: Seq<usize>) -> Seq<bool> {
    Seq::new(
        own.len(),
        |p: int|
            if is_exchanged(cuts, p) {
                other[p]
            } else {
                own[p]
            },
    )
}

/// What `recombine` returns for given parents and cut points.
pub open spec fn recombination(a: Seq<bool>, b: Seq<bool>, cuts: Seq<usize>) -> Result<
    (Seq<bool>, Seq<bool>),
    GaError,
> {
    if a.len() != b.len() {
        Err(GaError::LengthMismatch)
    } else if !is_cut_points(cuts, a.len()) {
        Err(GaError::InvalidInput)
    } else {
        Ok((offspring(a, b, cuts), offspring(b, a, cuts)))
    }
}

/// The genes of `head` before position `at`, then the genes of `tail` from
/// `at` on.
pub open spec fn spliced(head: Seq<bool>, tail: Seq<bool>, at: int) -> Seq<bool> {
    head.take(at) + tail.skip(at)
}

/// What `cross_at` returns for given parents and a single cut point: each
/// offspring keeps its own parent's genes before `index` and takes the other
/// parent's genes from `index` on.
pub open spec fn one_point_recombination(a: Seq<bool>, b: Seq<bool>, index: usize) -> Result<
    (Seq<bool>, Seq<bool>),
    GaError,
> {
    if a.len() != b.len() {
        Err(GaError::LengthMismatch)
    } else if index >= a.len() {
        Err(GaError::InvalidInput)
    } else {
        Ok((spliced(a, b, index as int), spliced(b, a, index as int)))
    }
}

/// What a one-point crossover returns once its picker has answered `picked`.
pub open spec fn crossover_at_pick(
    a: Seq<bool>,
    b: Seq<bool>,
    picked: Result<usize, GaError>,
) -> Result<(Seq<bool>, Seq<bool>), GaError> {
    if a.len() != b.len() {
        Err(GaError::LengthMismatch)
    } else {
        match picked {
            Ok(index) => one_point_recombination(a, b, index),
            Err(e) => Err(e),
        }
    }
}

/// What a k-point or uniform crossover returns once its picker has answered
/// `picked`.
pub open spec fn crossover_at_cuts(
    a: Seq<bool>,
    b: Seq<bool>,
    picked: Result<Seq<usize>, GaError>,
) -> Result<(Seq<bool>, Seq<bool>), GaError> {
    if a.len() != b.len() {
        Err(GaError::LengthMismatch)
    } else {
        match picked {
            Ok(cuts) => recombination(a, b, cuts),
            Err(e) => Err(e),
        }
    }
}

/// Offspring `x` and `y` have the parents' length, and at every position they
/// hold the two genes that the parents `a` and `b` hold there, in one order or
/// the other: no gene is invented and none is lost.
pub open spec fn is_exchange_of(a: Seq<bool>, b: Seq<bool>, x: Seq<bool>, y: Seq<bool>) -> bool {
    &&& x.len() == a.len()
    &&& y.len() == a.len()
    &&& b.len() == a.len()
    &&& forall|p: int|
        0 <= p < a.len() ==> (x[p] == a[p] && y[p] == b[p]) || (x[p] == b[p] && y[p] == a[p])
}

/// At every position the offspring hold, as a set, the genes that the parents
/// hold there.
pub proof fn lemma_exchange_keeps_genes(
    a: Seq<bool>,
    b: Seq<bool>,
    x: Seq<bool>,
    y: Seq<bool>,
    p: int,
)
    requires
        is_exchange_of(a, b, x, y),
        0 <= p < a.len(),
    ensures
        set![x[p], y[p]] == set![a[p], b[p]],
{
}

/// The result of a crossover, with the offspring as sequences.
pub open spec fn children_view(children: Result<(Vec<bool>, Vec<bool>), GaError>) -> Result<
    (Seq<bool>, Seq<bool>),
    GaError,
> {
    match children {
        Ok((x, y)) => Ok((x@, y@)),
        Err(e) => Err(e),
    }
}

/// Between two neighbouring cut points, the number of cut points at or before
/// a position is the number of the segment.
pub proof fn lemma_cuts_up_to_in_segment(cuts: Seq<usize>, segment: int, p: int)
    requires
        forall|i: int, j: int| 0 <= i < j < cuts.len() ==> cuts[i] < cuts[j],
        0 <= segment <= cuts.len(),
        segment > 0 ==> cuts[segment - 1] <= p,
        segment < cuts.len() ==> p < cuts[segment],
    ensures
        cuts_up_to(cuts, p) == segment,
    decreases cuts.len(),
{
    if cuts.len() > 0 {
        let front = cuts.drop_last();
        if segment == cuts.len() {
            lemma_cuts_up_to_in_segment(front, segment - 1, p);
        } else {
            lemma_cuts_up_to_in_segment(front, segment, p);
        }
    }
}

/// Recombining at a single cut point is recombining at a list of one cut
/// point: the same offspring, and the same refusals.
pub proof fn lemma_single_cut_is_one_point(a: Seq<bool>, b: Seq<bool>, index: usize)
    ensures
        recombination(a, b, seq![index]) == one_point_recombination(a, b, index),
{
    let cuts = seq![index];
    if a.len() == b.len() {
        if index < a.len() {
            assert forall|p: int| 0 <= p < a.len() implies is_exchanged(cuts, p) == (index
                <= p) by {
                if index <= p {
                    lemma_cuts_up_to_in_segment(cuts, 1, p);
                } else {
                    lemma_cuts_up_to_in_segment(cuts, 0, p);
                }
            }
            assert(offspring(a, b, cuts) =~= spliced(a, b, index as int));
            assert(offspring(b, a, cuts) =~= spliced(b, a, index as int));
        }
    }
}

/// A k-point crossover with `k = 1` and a one-point crossover return the same
/// when their pickers answer alike, the one with the index that is the
/// other's only cut point, or both with the same refusal.
pub proof fn lemma_one_cut_crossovers_agree(
    a: Seq<bool>,
    b: Seq<bool>,
    picked: Result<usize, GaError>,
)
    ensures
        crossover_at_cuts(a, b, as_single_cut(picked)) == crossover_at_pick(a, b, picked),
{
    if let Ok(index) = picked {
        lemma_single_cut_is_one_point(a, b, index);
    }
}

/// Whether `cuts` are cut points of a chromosome of `length` genes.
pub fn are_cut_points(cuts: &Vec<usize>, length: usize) -> (valid: bool)
    ensures
        valid == is_cut_points(cuts@, length as nat),
{
    let mut i: usize = 0;
    while i < cuts.len()
        invariant
            i <= cuts.len(),
            forall|k: int| 0 <= k < i ==> cuts[k] < length,
            forall|k: int, j: int| 0 <= k < j < i ==> cuts[k] < cuts[j],
        decreases cuts.len() - i,
    {
        if cuts[i] >= length || (i > 0 && cuts[i - 1] >= cuts[i]) {
            return false;
        }
        i += 1;
    }
    true
}

/// Recombines two parents at the given cut points.
///
/// Fails with `LengthMismatch` when the parents differ in length, and with
/// `InvalidInput` when `cuts` are not cut points of the parents. Otherwise the
/// first offspring starts out as `a`, the second as `b`, and at every cut
/// point the two change sources.
pub fn recombine(a: &Vec<bool>, b: &Vec<bool>, cuts: &Vec<usize>) -> (children: Result<
    (Vec<bool>, Vec<bool>),
    GaError,
>)
    ensures
        children_view(children) == recombination(a@, b@, cuts@),
        children matches Ok((x, y)) ==> is_exchange_of(a@, b@, x@, y@),
{
    let n = a.len();
    if n != b.len() {
        return Err(GaError::LengthMismatch);
    }
    if !are_cut_points(cuts, n) {
        return Err(GaError::InvalidInput);
    }
    let k = cuts.len();
    let mut new_a: Vec<bool> = Vec::new();
    let mut new_b: Vec<bool> = Vec::new();
    let mut start: usize = 0;
    let mut i: usize = 0;
    while i < k
        invariant
            n == a.len(),
            n == b.len(),
            k == cuts.len(),
            is_cut_points(cuts@, n as nat),
            i <= k,
            start <= n,
            i == 0 ==> start == 0,
            i > 0 ==> start == cuts[i - 1],
            new_a@ == offspring(a@, b@, cuts@).take(start as int),
            new_b@ == offspring(b@, a@, cuts@).take(start as int),
        decreases k - i,
    {
        let end = cuts[i];
        proof {
            assert forall|p: int| start <= p < end implies cuts_up_to(cuts@, p) == i by {
                lemma_cuts_up_to_in_segment(cuts@, i as int, p);
            }
        }
        let (source_a, source_b) = match i % 2 {
            0 => (a, b),
            _ => (b, a),
        };
        new_a.extend_from_slice(&source_a[start..end]);
        new_b.extend_from_slice(&source_b[start..end]);
        start = end;
        i += 1;
    }
    proof {
        assert forall|p: int| start <= p < n implies cuts_up_to(cuts@, p) == k by {
            lemma_cuts_up_to_in_segment(cuts@, k as int, p);
        }
    }
    let (source_a, source_b) = match k % 2 {
        0 => (a, b),
        _ => (b, a),
    };
    new_a.extend_from_slice(&source_a[start..n]);
    new_b.extend_from_slice(&source_b[start..n]);
    assert(new_a@ =~= offspring(a@, b@, cuts@));
    assert(new_b@ =~= offspring(b@, a@, cuts@));
    Ok((new_a, new_b))
}

/// The genes of `head` before position `at`, then the genes of `tail` from
/// `at` on.
fn splice(head: &Vec<bool>, tail: &Vec<bool>, at: usize) -> (child: Vec<bool>)
    requires
        at <= head.len(),
        at <= tail.len(),
    ensures
        child@ == spliced(head@, tail@, at as int),
{
    let mut child: Vec<bool> = Vec::new();
    child.extend_from_slice(&head[0..at]);
    child.extend_from_slice(&tail[at..tail.len()]);
    child
}

/// Recombines two parents at a single cut point.
///
/// Fails with `LengthMismatch` when the parents differ in length, and with
/// `InvalidInput` when `index` is not below that length.
pub fn cross_at(a: &Vec<bool>, b: &Vec<bool>, index: usize) -> (children: Result<
    (Vec<bool>, Vec<bool>),
    GaError,
>)
    ensures
        children_view(children) == one_point_recombination(a@, b@, index),
        children matches Ok((x, y)) ==> is_exchange_of(a@, b@, x@, y@),
{
    let n = a.len();
    if n != b.len() {
        return Err(GaError::LengthMismatch);
    }
    if index >= n {
        return Err(GaError::InvalidInput);
    }
    Ok((splice(a, b, index), splice(b, a, index)))
}

/// A way to recombine two parent chromosomes into two offspring.
///
/// Whatever the strategy: parents of different lengths are refused with
/// `LengthMismatch`, no other failure is a `LengthMismatch`, and offspring
/// have the parents' length and hold, position by position, the parents'
/// genes.
pub trait Crossover {
    /// Recombines the parents `a` and `b` into two offspring.
    fn crossover(&self, a: &Vec<bool>, b: &Vec<bool>) -> (children: Result<
        (Vec<bool>, Vec<bool>),
        GaError,
    >)
        ensures
            a.len() != b.len() ==> (children matches Err(e) && e == GaError::LengthMismatch),
            a.len() == b.len() ==> match children {
                Ok((x, y)) => is_exchange_of(a@, b@, x@, y@),
                Err(e) => e == GaError::InvalidInput,
            },
    ;
}

/// Crossover at one cut point, which the picker chooses.
pub struct OnePointCrossover<P> where P: IndexPicker {
    pub picker: P,
}

impl<P> Crossover for OnePointCrossover<P> where P: IndexPicker {
    /// Asks the picker for one index of the parents and recombines there, as
    /// `cross_at` does. A chromosome without genes has no index, so the
    /// picker's `InvalidInput` is returned.
    fn crossover(&self, a: &Vec<bool>, b: &Vec<bool>) -> (children: Result<
        (Vec<bool>, Vec<bool>),
        GaError,
    >)
        ensures
            a.len() == b.len() ==> exists|picked: Result<usize, GaError>|
                #[trigger] self.picker.may_pick(a.len(), picked) && pick_is_valid(a.len(), picked)
                    && children_view(children) == crossover_at_pick(a@, b@, picked),
    {
        let n = a.len();
        if n != b.len() {
            return Err(GaError::LengthMismatch);
        }
        let index = self.picker.pick(n)?;
        cross_at(a, b, index)
    }
}

/// Crossover at `k` cut points, which the picker chooses. With `k = 0` the
/// offspring are copies of the parents.
pub struct KPointCrossover<P> where P: IndexPicker {
    pub k: usize,
    pub picker: P,
}

impl<P> Crossover for KPointCrossover<P> where P: IndexPicker {
    /// Asks the picker for `k` cut points of the parents and recombines there,
    /// as `recombine` does. With `k` above the parents' length there are no
    /// such cut points, so the picker's `InvalidInput` is returned.
    fn crossover(&self, a: &Vec<bool>, b: &Vec<bool>) -> (children: Result<
        (Vec<bool>, Vec<bool>),
        GaError,
    >)
        ensures
            a.len() == b.len() && self.k > a.len() ==> (children matches Err(e) && e
                == GaError::InvalidInput),
            a.len() == b.len() ==> exists|picked: Result<Seq<usize>, GaError>|
                #[trigger] self.picker.may_pick_n(a.len(), self.k, picked) && pick_n_is_valid(
                    a.len(),
                    self.k,
                    picked,
                ) && children_view(children) == crossover_at_cuts(a@, b@, picked),
    {
        let n = a.len();
        if n != b.len() {
            return Err(GaError::LengthMismatch);
        }
        let indices = self.picker.pick_n(n, self.k)?;
        recombine(a, b, &indices)
    }
}

/// Crossover at as many cut points as the picker chooses. What the picker
/// hands out are cut points, as in a k-point crossover, not genes to be
/// exchanged one by one.
pub struct UniformCrossover<P> where P: IndexPicker {
    pub picker: P,
}

impl<P> Crossover for UniformCrossover<P> where P: IndexPicker {
    /// Asks the picker for some cut points of the parents and recombines
    /// there, as `recombine` does. Without any cut point the offspring are
    /// copies of the parents. A chromosome without genes is refused by the
    /// picker with `InvalidInput`.
    fn crossover(&self, a: &Vec<bool>, b: &Vec<bool>) -> (children: Result<
        (Vec<bool>, Vec<bool>),
        GaError,
    >)
        ensures
            a.len() == b.len() ==> exists|picked: Result<Seq<usize>, GaError>|
                #[trigger] self.picker.may_pick_some(a.len(), picked) && pick_some_is_valid(
                    a.len(),
                    picked,
                ) && children_view(children) == crossover_at_cuts(a@, b@, picked),
    {
        let n = a.len();
        if n != b.len() {
            return Err(GaError::LengthMismatch);
        }
        let indices = self.picker.pick_some(n)?;
        recombine(a, b, &indices)
    }
}

} // verus!
