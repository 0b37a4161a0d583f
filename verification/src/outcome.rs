//! The result aggregator: one slot per sequence id, filled exactly once,
//! drained in sequence order when the batch completes.

use crate::error::FetchError;
use vstd::prelude::*;

verus! {

/// A finalized outcome: the body bytes on success, or the error the request
/// was finalized with.
pub type Outcome = Result<Vec<u8>, FetchError>;

/// How many slots in `s` are filled.
pub open spec fn count_filled(s: Seq<Option<Outcome>>) -> int
    decreases s.len(),
{
    if s.len() == 0 {
        0
    } else {
        (if s[0] is Some {
            1int
        } else {
            0int
        }) + count_filled(s.drop_first())
    }
}

/// How many slots in `s` are filled with a success.
pub open spec fn count_ok(s: Seq<Option<Outcome>>) -> int
    decreases s.len(),
{
    if s.len() == 0 {
        0
    } else {
        (if s[0] matches Some(Ok(_)) {
            1int
        } else {
            0int
        }) + count_ok(s.drop_first())
    }
}

pub proof fn lemma_counts_bounded(s: Seq<Option<Outcome>>)
    ensures
        0 <= count_ok(s) <= count_filled(s) <= s.len(),
    decreases s.len(),
{
    if s.len() > 0 {
        lemma_counts_bounded(s.drop_first());
    }
}

/// Filling one empty slot raises the filled count by one, and the success
/// count by one exactly when the outcome is a success.
pub proof fn lemma_counts_update(s: Seq<Option<Outcome>>, i: int, v: Outcome)
    requires
        0 <= i < s.len(),
        s[i] is None,
    ensures
        count_filled(s.update(i, Some(v))) == count_filled(s) + 1,
        count_ok(s.update(i, Some(v))) == count_ok(s) + (if v is Ok {
            1int
        } else {
            0int
        }),
    decreases s.len(),
{
    let t = s.update(i, Some(v));
    if i == 0 {
        assert(t.drop_first() =~= s.drop_first());
    } else {
        assert(t[0] == s[0]);
        assert(t.drop_first() =~= s.drop_first().update(i - 1, Some(v)));
        lemma_counts_update(s.drop_first(), i - 1, v);
    }
}

/// A batch with every slot filled has no empty slot.
pub proof fn lemma_all_filled(s: Seq<Option<Outcome>>)
    requires
        count_filled(s) == s.len(),
    ensures
        forall|i: int| 0 <= i < s.len() ==> s[i] is Some,
    decreases s.len(),
{
    if s.len() > 0 {
        lemma_counts_bounded(s.drop_first());
        lemma_all_filled(s.drop_first());
        assert forall|i: int| 0 <= i < s.len() implies s[i] is Some by {
            if i > 0 {
                assert(s.drop_first()[i - 1] is Some);
            }
        }
    }
}

/// A batch with no slot filled yet counts zero.
pub proof fn lemma_counts_all_none(s: Seq<Option<Outcome>>)
    requires
        forall|i: int| 0 <= i < s.len() ==> s[i] is None,
    ensures
        count_filled(s) == 0,
        count_ok(s) == 0,
    decreases s.len(),
{
    if s.len() > 0 {
        assert(forall|i: int|
            0 <= i < s.drop_first().len() ==> s.drop_first()[i] == s[i + 1] && s.drop_first()[i]
                is None);
        lemma_counts_all_none(s.drop_first());
    }
}

/// A batch with every slot filled counts them all.
pub proof fn lemma_count_filled_all_some(s: Seq<Option<Outcome>>)
    requires
        forall|i: int| 0 <= i < s.len() ==> s[i] is Some,
    ensures
        count_filled(s) == s.len(),
    decreases s.len(),
{
    if s.len() > 0 {
        assert(forall|i: int|
            0 <= i < s.drop_first().len() ==> s.drop_first()[i] == s[i + 1] && s.drop_first()[i]
                is Some);
        lemma_count_filled_all_some(s.drop_first());
    }
}

/// A batch with an empty slot is not yet fully filled.
pub proof fn lemma_unfilled_slot(s: Seq<Option<Outcome>>, i: int)
    requires
        0 <= i < s.len(),
        s[i] is None,
    ensures
        count_filled(s) < s.len(),
{
    lemma_counts_bounded(s);
    if count_filled(s) == s.len() {
        lemma_all_filled(s);
    }
}

/// Collects finalized outcomes, keyed by the original sequence position.
pub struct ResultAggregator {
    slots: Vec<Option<Outcome>>,
    filled: usize,
}

impl ResultAggregator {
    /// One slot per submitted request, in submission order.
    pub closed spec fn slots(&self) -> Seq<Option<Outcome>> {
        self.slots@
    }

    /// The batch size this aggregator was built for.
    pub open spec fn total(&self) -> int {
        self.slots().len() as int
    }

    /// The filled-slot counter matches the slots.
    pub closed spec fn wf(&self) -> bool {
        self.filled == count_filled(self.slots@)
    }

    /// All outcomes of the batch exist.
    pub open spec fn is_complete_spec(&self) -> bool {
        count_filled(self.slots()) == self.total()
    }

    /// An aggregator with `total` empty slots.
    pub fn new(total: usize) -> (r: ResultAggregator)
        ensures
            r.wf(),
            r.total() == total,
            forall|i: int| 0 <= i < total ==> r.slots()[i] is None,
    {
        let mut slots: Vec<Option<Outcome>> = Vec::new();
        let mut i: usize = 0;
        while i < total
            invariant
                i <= total,
                slots@.len() == i,
                forall|k: int| 0 <= k < i ==> slots@[k] is None,
                count_filled(slots@) == 0,
            decreases total - i,
        {
            proof {
                lemma_count_filled_push_none(slots@);
            }
            slots.push(None);
            i = i + 1;
        }
        ResultAggregator { slots, filled: 0 }
    }

    /// Number of finalized outcomes so far.
    pub fn finalized(&self) -> (r: usize)
        requires
            self.wf(),
        ensures
            r == count_filled(self.slots()),
    {
        self.filled
    }

    /// Records the outcome for `sequence_id`. Each slot is written exactly
    /// once: the engine never finalizes the same request twice.
    pub fn finalize(&mut self, sequence_id: usize, outcome: Outcome)
        requires
            old(self).wf(),
            sequence_id < old(self).total(),
            old(self).slots()[sequence_id as int] is None,
        ensures
            final(self).wf(),
            final(self).slots() == old(self).slots().update(
                sequence_id as int,
                Some(outcome),
            ),
            count_filled(final(self).slots()) == count_filled(old(self).slots()) + 1,
    {
        let total = self.slots.len();
        proof {
            lemma_counts_update(self.slots@, sequence_id as int, outcome);
            lemma_unfilled_slot(self.slots@, sequence_id as int);
            lemma_counts_bounded(self.slots@);
            assert(self.filled < total);
        }
        self.slots.set(sequence_id, Some(outcome));
        self.filled = self.filled + 1;
    }

    /// Whether every submitted request has been finalized.
    pub fn is_complete(&self) -> (r: bool)
        requires
            self.wf(),
        ensures
            r == self.is_complete_spec(),
    {
        self.filled == self.slots.len()
    }

    /// Takes the outcomes, in ascending sequence order, leaving the
    /// aggregator empty.
    pub fn take(&mut self) -> (r: Vec<Outcome>)
        requires
            old(self).wf(),
            old(self).is_complete_spec(),
        ensures
            final(self).wf(),
            final(self).total() == 0,
            final(self).is_complete_spec(),
            r@.len() == old(self).total(),
            forall|i: int| #![trigger r@[i]]
                0 <= i < r@.len() ==> (old(self).slots()[i] matches Some(o) && r@[i] == o),
    {
        proof {
            lemma_all_filled(self.slots@);
        }
        let ghost original = self.slots@;
        let mut drained: Vec<Outcome> = Vec::new();
        while self.slots.len() > 0
            invariant
                self.slots@ =~= original.skip(drained@.len() as int),
                drained@.len() <= original.len(),
                forall|i: int| #![trigger drained@[i]]
                    0 <= i < drained@.len() ==> (original[i] matches Some(o) && drained@[i] == o),
                forall|i: int| 0 <= i < original.len() ==> original[i] is Some,
            decreases self.slots@.len(),
        {
            let slot = self.slots.remove(0);
            proof {
                assert(original.skip(drained@.len() as int).remove(0) =~= original.skip(
                    drained@.len() as int + 1,
                ));
                assert(slot == original[drained@.len() as int]);
            }
            drained.push(slot.unwrap());
        }
        self.filled = 0;
        proof {
            assert(self.slots@ =~= Seq::<Option<Outcome>>::empty());
        }
        drained
    }
}

proof fn lemma_count_filled_push_none(s: Seq<Option<Outcome>>)
    ensures
        count_filled(s.push(None)) == count_filled(s),
    decreases s.len(),
{
    if s.len() == 0 {
        assert(s.push(None)[0] is None);
        assert(s.push(None).drop_first() =~= Seq::<Option<Outcome>>::empty());
        assert(count_filled(s.push(None).drop_first()) == 0);
    } else {
        assert(s.push(None)[0] == s[0]);
        assert(s.push(None).drop_first() =~= s.drop_first().push(None));
        lemma_count_filled_push_none(s.drop_first());
    }
}

} // verus!
