use vstd::prelude::*;

verus! {

/// An almost unique id that distinguishes a layer.
///
/// Ids come from an [`IdSource`], in increasing order. Two ids from one source are equal
/// only after the source has handed out more than `u64::MAX` of them.
#[derive(Copy, Clone, PartialEq, Eq, Structural, PartialOrd, Ord, Hash, Debug, Default)]
pub struct Id(u64);

/// The counter that issues ids.
///
/// Share one source between everything that creates layers, so that no two layers get the
/// same id.
#[derive(Debug, Default)]
pub struct IdSource {
    next: u64,
}

impl Id {
    /// The number this id wraps.
    pub closed spec fn view(self) -> u64 {
        self.0
    }

    /// Takes the next id from `source` and advances it by one, wrapping after `u64::MAX`.
    pub fn new(source: &mut IdSource) -> (id: Id)
        ensures
            id@ == old(source)@,
            final(source)@ == IdSource::successor(old(source)@),
    {
        let id = Id(source.next);
        source.next = source.next.wrapping_add(1);
        id
    }

    pub fn value(&self) -> (r: u64)
        ensures
            r == self@,
    {
        self.0
    }
}

impl IdSource {
    /// The value of the next id to be issued.
    pub closed spec fn view(self) -> u64 {
        self.next
    }

    /// The counter value after one id is issued.
    pub open spec fn successor(n: u64) -> u64 {
        if n == u64::MAX {
            0
        } else {
            (n + 1) as u64
        }
    }

    /// A source whose first id is `0`.
    pub fn new() -> (s: IdSource)
        ensures
            s@ == 0,
    {
        IdSource { next: 0 }
    }

    /// A source whose first id is `first`.
    pub fn starting_at(first: u64) -> (s: IdSource)
        ensures
            s@ == first,
    {
        IdSource { next: first }
    }
}

/// A run of issues from one source: `ids[k]` was issued when the source stood at
/// `states[k]`, which then became `states[k + 1]`.
pub open spec fn issued_in_sequence(states: Seq<u64>, ids: Seq<Id>) -> bool {
    &&& states.len() == ids.len() + 1
    &&& forall|k: int|
        0 <= k < ids.len() ==> #[trigger] ids[k]@ == states[k] && states[k + 1]
            == IdSource::successor(states[k])
}

/// Ids issued one after another by a source are pairwise distinct, as long as the
/// counter does not run past `u64::MAX`.
pub proof fn lemma_ids_distinct(states: Seq<u64>, ids: Seq<Id>)
    requires
        issued_in_sequence(states, ids),
        states[0] + ids.len() <= u64::MAX + 1,
    ensures
        forall|a: int, b: int| 0 <= a < b < ids.len() ==> ids[a] != ids[b],
{
    assert forall|k: int| 0 <= k < ids.len() implies #[trigger] ids[k]@ == states[0] + k by {
        lemma_counter_steps(states, ids, k);
    }
    assert forall|a: int, b: int| 0 <= a < b < ids.len() implies ids[a] != ids[b] by {
        assert(ids[a]@ == states[0] + a);
        assert(ids[b]@ == states[0] + b);
    }
}

proof fn lemma_counter_steps(states: Seq<u64>, ids: Seq<Id>, k: int)
    requires
        issued_in_sequence(states, ids),
        states[0] + ids.len() <= u64::MAX + 1,
        0 <= k < ids.len(),
    ensures
        states[k] == states[0] + k,
    decreases k,
{
    if k > 0 {
        lemma_counter_steps(states, ids, k - 1);
        assert(ids[k - 1]@ == states[k - 1]);
    }
}

} // verus!
