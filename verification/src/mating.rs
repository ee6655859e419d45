use rand::rngs::ThreadRng;
use rand::seq::SliceRandom;
use rand::Rng;
use vstd::prelude::*;

verus! {

/// The thread-local random number generator of `rand`.
#[verifier::external_type_specification]
#[verifier::external_body]
pub struct ExThreadRng(ThreadRng);

/// `Rng::gen_range(low..=high)` on `usize` (rand): some value from `low` to
/// `high`, both included. Which one is left to chance and not stated.
#[verifier::external_body]
fn draw_parent_count(rng: &mut ThreadRng, low: usize, high: usize) -> (count: usize)
    requires
        low <= high,
    ensures
        low <= count <= high,
{
    rng.gen_range(low..=high)
}

/// `SliceRandom::shuffle` (rand): the same ids in an order left to chance;
/// only that the result is a reordering is stated.
#[verifier::external_body]
fn shuffle_ids(rng: &mut ThreadRng, ids: &mut Vec<u64>)
    ensures
        final(ids)@.len() == old(ids)@.len(),
        final(ids)@.to_multiset() == old(ids)@.to_multiset(),
{
    ids.shuffle(rng);
}

/// The smallest and largest admissible size of a mating group formed by one
/// initiator and `eligible` willing neighbours, or `None` when too few are
/// willing: at least `max(min_parents, 1)` parents are needed, and at most
/// `max(max_parents, that minimum)` are taken, but never more than are
/// available.
pub open spec fn parent_bounds(min_parents: usize, max_parents: usize, eligible: usize) -> Option<
    (usize, usize),
> {
    let min_required: usize = if min_parents < 1 {
        1
    } else {
        min_parents
    };
    let available = eligible + 1;
    let upper: usize = if max_parents < min_required {
        min_required
    } else {
        max_parents
    };
    if available < min_required {
        None
    } else if upper > available {
        Some((min_required, available as usize))
    } else {
        Some((min_required, upper))
    }
}

/// The admissible range of group sizes; see [`parent_bounds`].
pub fn parent_count_range(min_parents: usize, max_parents: usize, eligible: usize) -> (range: Option<
    (usize, usize),
>)
    requires
        eligible < usize::MAX,
    ensures
        range == parent_bounds(min_parents, max_parents, eligible),
{
    let min_required = if min_parents < 1 {
        1
    } else {
        min_parents
    };
    let available = eligible + 1;
    if available < min_required {
        return None;
    }
    let upper = if max_parents < min_required {
        min_required
    } else {
        max_parents
    };
    let max_count = if upper > available {
        available
    } else {
        upper
    };
    Some((min_required, max_count))
}

/// The mating group: the initiator first, then the first `parent_count - 1`
/// of the (already shuffled) willing neighbours.
pub fn assemble_parents(initiator: u64, shuffled: &Vec<u64>, parent_count: usize) -> (parents:
    Vec<u64>)
    requires
        1 <= parent_count <= shuffled@.len() + 1,
    ensures
        parents@ == seq![initiator] + shuffled@.take(parent_count - 1),
{
    let mut parents: Vec<u64> = Vec::new();
    parents.push(initiator);
    let take = parent_count - 1;
    let mut i: usize = 0;
    while i < take
        invariant
            take == parent_count - 1,
            take <= shuffled@.len(),
            i <= take,
            parents@ == seq![initiator] + shuffled@.take(i as int),
        decreases take - i,
    {
        parents.push(shuffled[i]);
        i += 1;
        assert(parents@ =~= seq![initiator] + shuffled@.take(i as int));
    }
    parents
}

/// Forms a mating group around `initiator` from its willing neighbours
/// `eligible`, as the reproduction step does: `None` when too few are
/// willing; otherwise the group size is drawn from the admissible range
/// (no draw when the range holds one size), the neighbours are shuffled, and
/// the initiator is joined by the first ones of them.
pub fn select_parents(
    rng: &mut ThreadRng,
    initiator: u64,
    eligible: Vec<u64>,
    min_parents: usize,
    max_parents: usize,
) -> (group: Option<Vec<u64>>)
    requires
        eligible@.len() < usize::MAX,
    ensures
        group is None <==> parent_bounds(min_parents, max_parents, eligible@.len() as usize) is None,
        group matches Some(parents) ==> {
            let (low, high) = parent_bounds(min_parents, max_parents, eligible@.len() as usize)->0;
            &&& low <= parents@.len() <= high
            &&& parents@[0] == initiator
            &&& parents@.skip(1).to_multiset().subset_of(eligible@.to_multiset())
        },
{
    let range = parent_count_range(min_parents, max_parents, eligible.len());
    match range {
        None => None,
        Some((low, high)) => {
            let parent_count = if low == high {
                high
            } else {
                draw_parent_count(rng, low, high)
            };
            let mut shuffled = eligible;
            let ghost original = shuffled@;
            shuffle_ids(rng, &mut shuffled);
            let parents = assemble_parents(initiator, &shuffled, parent_count);
            proof {
                lemma_group_drawn_from(initiator, original, shuffled@, parent_count as int);
                assert(parents@[0] == initiator);
            }
            Some(parents)
        },
    }
}

proof fn lemma_group_drawn_from(initiator: u64, original: Seq<u64>, shuffled: Seq<u64>, count: int)
    requires
        shuffled.to_multiset() == original.to_multiset(),
        1 <= count <= shuffled.len() + 1,
    ensures
        (seq![initiator] + shuffled.take(count - 1)).skip(1).to_multiset().subset_of(
            original.to_multiset(),
        ),
{
    let head = shuffled.take(count - 1);
    let tail = shuffled.skip(count - 1);
    assert((seq![initiator] + head).skip(1) =~= head);
    assert(shuffled =~= head + tail);
    vstd::seq_lib::lemma_multiset_commutative(head, tail);
    broadcast use vstd::multiset::group_multiset_axioms;
    assert(head.to_multiset().subset_of(original.to_multiset()));
}

/// A group never needs more members than there are: its admissible sizes
/// lie between one (the initiator alone) and the initiator plus all willing
/// neighbours.
pub proof fn lemma_parent_bounds_feasible(min_parents: usize, max_parents: usize, eligible: usize)
    requires
        eligible < usize::MAX,
        parent_bounds(min_parents, max_parents, eligible) is Some,
    ensures
        ({
            let (low, high) = parent_bounds(min_parents, max_parents, eligible)->0;
            &&& 1 <= low <= high <= eligible + 1
            &&& low == if min_parents < 1 { 1 } else { min_parents }
        }),
{
}

} // verus!
