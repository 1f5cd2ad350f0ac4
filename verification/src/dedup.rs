//! The duplicate filter: each consumer remembers the message ids it has
//! surfaced and lets every id through once.

use vstd::prelude::*;

verus! {

/// The ids one consumer has already surfaced. The set only grows.
pub struct DedupFilter {
    seen: Vec<String>,
}

/// Whether a filter that has seen `seen` lets `id` through.
pub open spec fn admits(seen: Set<Seq<char>>, id: Seq<char>) -> bool {
    !seen.contains(id)
}

/// What a filter that started from `seen` has seen after each id of `calls`
/// has been offered to it, in order.
pub open spec fn seen_after(seen: Set<Seq<char>>, calls: Seq<Seq<char>>) -> Set<Seq<char>>
    decreases calls.len(),
{
    if calls.len() == 0 {
        seen
    } else {
        seen_after(seen, calls.drop_last()).insert(calls.last())
    }
}

/// After a run of calls the filter has seen what it had seen before and every
/// id that was offered.
pub proof fn lemma_seen_after(seen: Set<Seq<char>>, calls: Seq<Seq<char>>)
    ensures
        forall|id: Seq<char>|
            seen_after(seen, calls).contains(id) <==> seen.contains(id) || calls.contains(id),
    decreases calls.len(),
{
    if calls.len() > 0 {
        let front = calls.drop_last();
        lemma_seen_after(seen, front);
        assert forall|id: Seq<char>|
            seen_after(seen, calls).contains(id) <==> seen.contains(id) || calls.contains(id) by {
            if front.contains(id) {
                let j = choose|j: int| 0 <= j < front.len() && front[j] == id;
                assert(calls[j] == id);
            }
            if calls.contains(id) && id != calls.last() {
                let j = choose|j: int| 0 <= j < calls.len() && calls[j] == id;
                assert(front[j] == id);
            }
            assert(calls[calls.len() - 1] == calls.last());
        }
    }
}

/// Each id is let through exactly once: in any run of calls, call `k` is
/// admitted if and only if its id was not seen before the run and no earlier
/// call of the run offered it. Every later call with that id is refused.
pub proof fn lemma_admitted_exactly_once(seen: Set<Seq<char>>, calls: Seq<Seq<char>>, k: int)
    requires
        0 <= k < calls.len(),
    ensures
        admits(seen_after(seen, calls.take(k)), calls[k]) <==> !seen.contains(calls[k]) && forall|
            j: int,
        | 0 <= j < k ==> calls[j] != calls[k],
{
    let earlier = calls.take(k);
    lemma_seen_after(seen, earlier);
    if earlier.contains(calls[k]) {
        let j = choose|j: int| 0 <= j < earlier.len() && earlier[j] == calls[k];
        assert(calls[j] == calls[k]);
    }
    if exists|j: int| 0 <= j < k && calls[j] == calls[k] {
        let j = choose|j: int| 0 <= j < k && calls[j] == calls[k];
        assert(earlier[j] == calls[k]);
    }
}

/// Once an id has been admitted it is refused from then on, whatever other ids
/// are offered in between.
pub proof fn lemma_refused_after_admission(
    seen: Set<Seq<char>>,
    id: Seq<char>,
    between: Seq<Seq<char>>,
)
    ensures
        !admits(seen_after(seen.insert(id), between), id),
{
    lemma_seen_after(seen.insert(id), between);
    assert(seen.insert(id).contains(id));
}

impl DedupFilter {
    /// The ids in the order in which they were first seen.
    pub closed spec fn ids(&self) -> Seq<Seq<char>> {
        self.seen@.map_values(|id: String| id@)
    }

    #[verifier::type_invariant]
    spec fn well_formed(&self) -> bool {
        self.ids().no_duplicates()
    }

    /// A filter that has seen nothing.
    pub fn new() -> (filter: DedupFilter)
        ensures
            filter@ == Set::<Seq<char>>::empty(),
    {
        let filter = DedupFilter { seen: Vec::new() };
        assert(filter.ids() =~= Seq::<Seq<char>>::empty());
        assert(filter@ =~= Set::<Seq<char>>::empty());
        filter
    }

    /// Whether `id` has been seen.
    pub fn contains(&self, id: &str) -> (found: bool)
        ensures
            found == self@.contains(id@),
    {
        let key = String::from_str(id);
        let mut i: usize = 0;
        while i < self.seen.len()
            invariant
                i <= self.seen.len(),
                key@ == id@,
                forall|j: int| 0 <= j < i ==> self.ids()[j] != id@,
            decreases self.seen.len() - i,
        {
            if self.seen[i] == key {
                assert(self.ids()[i as int] == id@);
                return true;
            }
            i = i + 1;
        }
        false
    }

    /// Lets `id` through the first time it is offered and records it; refuses
    /// it every time after.
    pub fn admit_id(&mut self, id: &str) -> (fresh: bool)
        ensures
            fresh == admits(old(self)@, id@),
            final(self)@ == old(self)@.insert(id@),
    {
        proof {
            use_type_invariant(&*self);
        }
        if self.contains(id) {
            assert(self@.insert(id@) =~= self@);
            false
        } else {
            let ghost before = self.ids();
            let mut seen: Vec<String> = Vec::new();
            core::mem::swap(&mut self.seen, &mut seen);
            seen.push(String::from_str(id));
            proof {
                let after = seen@.map_values(|id: String| id@);
                assert(after =~= before.push(id@));
                before.lemma_push_to_set_commute(id@);
                assert(!before.contains(id@));
            }
            self.seen = seen;
            true
        }
    }

    /// How many distinct ids have been seen.
    pub fn len(&self) -> (count: usize)
        ensures
            count == self@.len(),
    {
        proof {
            use_type_invariant(self);
            self.ids().unique_seq_to_set();
        }
        self.seen.len()
    }
}

impl View for DedupFilter {
    type V = Set<Seq<char>>;

    closed spec fn view(&self) -> Set<Seq<char>> {
        self.ids().to_set()
    }
}

} // verus!
