//! The task queue: pending fetch requests, with fresh requests served
//! strictly before deferred retries.
//!
//! A transient failure is requeued at the opposite priority end from fresh
//! requests, so every still-pending fresh request of the batch is attempted
//! before the retry. This gives transient errors breathing room without any
//! explicit timer.

use vstd::prelude::*;

verus! {

/// One pending fetch request of a batch.
#[derive(Debug)]
pub struct FetchRequest {
    /// The zero-based position of this request within its batch.
    pub sequence_id: usize,
    /// The target of the GET request.
    pub target: String,
    /// Ordered query parameters, as (name, value) pairs.
    pub query: Vec<(String, String)>,
    /// How many further attempts may follow a failure of this one.
    pub retries_remaining: usize,
}

/// How many requests in `s` carry the sequence id `id`.
pub open spec fn count_id(s: Seq<FetchRequest>, id: int) -> int
    decreases s.len(),
{
    if s.len() == 0 {
        0
    } else {
        (if s[0].sequence_id == id {
            1int
        } else {
            0int
        }) + count_id(s.drop_first(), id)
    }
}

/// The remaining attempts that the requests in `s` stand for: one for the
/// dispatch of each request itself plus one per retry it has left.
pub open spec fn sum_weight(s: Seq<FetchRequest>) -> int
    decreases s.len(),
{
    if s.len() == 0 {
        0
    } else {
        s[0].retries_remaining + 1 + sum_weight(s.drop_first())
    }
}

pub proof fn lemma_count_id_nonneg(s: Seq<FetchRequest>, id: int)
    ensures
        count_id(s, id) >= 0,
    decreases s.len(),
{
    if s.len() > 0 {
        lemma_count_id_nonneg(s.drop_first(), id);
    }
}

pub proof fn lemma_sum_weight_nonneg(s: Seq<FetchRequest>)
    ensures
        sum_weight(s) >= 0,
    decreases s.len(),
{
    if s.len() > 0 {
        lemma_sum_weight_nonneg(s.drop_first());
    }
}

pub proof fn lemma_count_id_push(s: Seq<FetchRequest>, r: FetchRequest, id: int)
    ensures
        count_id(s.push(r), id) == count_id(s, id) + (if r.sequence_id == id {
            1int
        } else {
            0int
        }),
    decreases s.len(),
{
    if s.len() == 0 {
        assert(s.push(r)[0] == r);
        assert(s.push(r).drop_first() =~= Seq::<FetchRequest>::empty());
        assert(count_id(s.push(r).drop_first(), id) == 0);
    } else {
        assert(s.push(r)[0] == s[0]);
        assert(s.push(r).drop_first() =~= s.drop_first().push(r));
        lemma_count_id_push(s.drop_first(), r, id);
    }
}

pub proof fn lemma_sum_weight_push(s: Seq<FetchRequest>, r: FetchRequest)
    ensures
        sum_weight(s.push(r)) == sum_weight(s) + r.retries_remaining + 1,
    decreases s.len(),
{
    if s.len() == 0 {
        assert(s.push(r)[0] == r);
        assert(s.push(r).drop_first() =~= Seq::<FetchRequest>::empty());
        assert(sum_weight(s.push(r).drop_first()) == 0);
    } else {
        assert(s.push(r)[0] == s[0]);
        assert(s.push(r).drop_first() =~= s.drop_first().push(r));
        lemma_sum_weight_push(s.drop_first(), r);
    }
}

pub proof fn lemma_count_id_remove(s: Seq<FetchRequest>, i: int, id: int)
    requires
        0 <= i < s.len(),
    ensures
        count_id(s.remove(i), id) == count_id(s, id) - (if s[i].sequence_id == id {
            1int
        } else {
            0int
        }),
    decreases s.len(),
{
    if i == 0 {
        assert(s.remove(0) =~= s.drop_first());
    } else {
        assert(s.remove(i).drop_first() =~= s.drop_first().remove(i - 1));
        assert(s.remove(i)[0] == s[0]);
        lemma_count_id_remove(s.drop_first(), i - 1, id);
    }
}

pub proof fn lemma_sum_weight_remove(s: Seq<FetchRequest>, i: int)
    requires
        0 <= i < s.len(),
    ensures
        sum_weight(s.remove(i)) == sum_weight(s) - s[i].retries_remaining - 1,
    decreases s.len(),
{
    if i == 0 {
        assert(s.remove(0) =~= s.drop_first());
    } else {
        assert(s.remove(i).drop_first() =~= s.drop_first().remove(i - 1));
        assert(s.remove(i)[0] == s[0]);
        lemma_sum_weight_remove(s.drop_first(), i - 1);
    }
}

/// A request with the sequence id `id` stands somewhere in `s`.
pub proof fn lemma_count_id_member(s: Seq<FetchRequest>, i: int)
    requires
        0 <= i < s.len(),
    ensures
        count_id(s, s[i].sequence_id as int) >= 1,
    decreases s.len(),
{
    if i > 0 {
        lemma_count_id_member(s.drop_first(), i - 1);
        lemma_count_id_nonneg(s.drop_first(), s[i].sequence_id as int);
    } else {
        lemma_count_id_nonneg(s.drop_first(), s[0].sequence_id as int);
    }
}

/// When `id` occurs at most once in `s`, two positions that both carry it
/// are the same position.
pub proof fn lemma_count_id_unique(s: Seq<FetchRequest>, i: int, j: int)
    requires
        0 <= i < s.len(),
        0 <= j < s.len(),
        s[i].sequence_id == s[j].sequence_id,
        count_id(s, s[i].sequence_id as int) <= 1,
    ensures
        i == j,
    decreases s.len(),
{
    let id = s[i].sequence_id as int;
    if i == 0 || j == 0 {
        if i != j {
            let k = if i == 0 {
                j
            } else {
                i
            };
            lemma_count_id_member(s.drop_first(), k - 1);
        }
    } else {
        lemma_count_id_unique(s.drop_first(), i - 1, j - 1);
    }
}

/// A batch whose requests carry consecutive sequence ids starting at `off`
/// holds each id in that range exactly once, and no other.
pub proof fn lemma_count_id_indexed(s: Seq<FetchRequest>, off: int, id: int)
    requires
        forall|k: int| 0 <= k < s.len() ==> (#[trigger] s[k]).sequence_id == k + off,
    ensures
        count_id(s, id) == (if off <= id < off + s.len() {
            1int
        } else {
            0int
        }),
    decreases s.len(),
{
    if s.len() > 0 {
        assert(forall|k: int|
            0 <= k < s.drop_first().len() ==> (#[trigger] s.drop_first()[k]).sequence_id == s[k
                + 1].sequence_id);
        lemma_count_id_indexed(s.drop_first(), off + 1, id);
    }
}

/// Holds the not-yet-dispatched requests of the current batch.
pub struct TaskQueue {
    fresh: Vec<FetchRequest>,
    deferred: Vec<FetchRequest>,
}

impl TaskQueue {
    /// Requests that have not been attempted, in submission order.
    pub closed spec fn fresh(&self) -> Seq<FetchRequest> {
        self.fresh@
    }

    /// Requeued requests, in the order their failures were reported.
    pub closed spec fn deferred(&self) -> Seq<FetchRequest> {
        self.deferred@
    }

    /// Everything the queue holds, fresh requests first.
    pub open spec fn pending(&self) -> Seq<FetchRequest> {
        self.fresh() + self.deferred()
    }

    pub open spec fn is_empty_spec(&self) -> bool {
        self.pending().len() == 0
    }

    /// An empty queue.
    pub fn new() -> (r: TaskQueue)
        ensures
            r.fresh() =~= Seq::<FetchRequest>::empty(),
            r.deferred() =~= Seq::<FetchRequest>::empty(),
    {
        TaskQueue { fresh: Vec::new(), deferred: Vec::new() }
    }

    /// Installs a whole batch of fresh requests at once, replacing whatever
    /// the queue held before.
    pub fn install_fresh(&mut self, requests: Vec<FetchRequest>)
        ensures
            final(self).fresh() == requests@,
            final(self).deferred() =~= Seq::<FetchRequest>::empty(),
    {
        self.fresh = requests;
        self.deferred = Vec::new();
    }

    /// Reinserts a failed-but-not-exhausted request, behind every pending
    /// fresh request and behind every earlier retry.
    pub fn enqueue_retry(&mut self, request: FetchRequest)
        ensures
            final(self).fresh() == old(self).fresh(),
            final(self).deferred() == old(self).deferred().push(request),
    {
        self.deferred.push(request);
    }

    /// Hands out the next request: the oldest fresh request while any is
    /// pending, the oldest deferred retry otherwise.
    pub fn dequeue(&mut self) -> (r: Option<FetchRequest>)
        ensures
            old(self).fresh().len() > 0 ==> {
                &&& r == Some(old(self).fresh()[0])
                &&& final(self).fresh() == old(self).fresh().drop_first()
                &&& final(self).deferred() == old(self).deferred()
            },
            old(self).fresh().len() == 0 && old(self).deferred().len() > 0 ==> {
                &&& r == Some(old(self).deferred()[0])
                &&& final(self).fresh() == old(self).fresh()
                &&& final(self).deferred() == old(self).deferred().drop_first()
            },
            old(self).pending().len() == 0 ==> {
                &&& r is None
                &&& final(self).fresh() == old(self).fresh()
                &&& final(self).deferred() == old(self).deferred()
            },
            r is Some <==> old(self).pending().len() > 0,
    {
        if self.fresh.len() > 0 {
            let head = self.fresh.remove(0);
            proof {
                assert(old(self).fresh().remove(0) =~= old(self).fresh().drop_first());
            }
            Some(head)
        } else if self.deferred.len() > 0 {
            let head = self.deferred.remove(0);
            proof {
                assert(old(self).deferred().remove(0) =~= old(self).deferred().drop_first());
            }
            Some(head)
        } else {
            None
        }
    }

    /// Whether nothing is pending.
    pub fn is_empty(&self) -> (r: bool)
        ensures
            r == self.is_empty_spec(),
    {
        self.fresh.len() == 0 && self.deferred.len() == 0
    }
}

} // verus!
