//! The fetch engine: a task queue, a bounded worker protocol, a retry
//! policy, a result aggregator and a progress reporter, driven through one
//! facade.
//!
//! The engine is a state machine. A batch of N requests is installed with
//! `start_batch`; workers obtain one request at a time with `next_task`
//! (never more than the concurrency cap at once) and hand the classified
//! outcome of the fetch back with `report`, which either finalizes the
//! request or requeues it with one retry fewer; `take_results` returns the
//! finalized outcomes in submission order. `get_byte`, `get_text` and
//! `get_json` drive a whole batch against a caller-supplied fetch client.

use crate::error::FetchError;
use crate::outcome::count_filled;
use crate::outcome::count_ok;
use crate::outcome::lemma_all_filled;
use crate::outcome::lemma_counts_bounded;
use crate::outcome::lemma_unfilled_slot;
use crate::outcome::Outcome;
use crate::outcome::ResultAggregator;
use crate::progress::Progress;
use crate::queue::count_id;
use crate::queue::lemma_count_id_member;
use crate::queue::lemma_count_id_nonneg;
use crate::queue::lemma_count_id_push;
use crate::queue::lemma_count_id_remove;
use crate::queue::lemma_count_id_unique;
use crate::queue::lemma_sum_weight_nonneg;
use crate::queue::lemma_sum_weight_push;
use crate::queue::lemma_sum_weight_remove;
use crate::queue::sum_weight;
use crate::queue::FetchRequest;
use crate::queue::TaskQueue;
use vstd::prelude::*;

verus! {

/// The external collaborator that performs one network GET. Implementations
/// are free to fail or succeed in any way; the engine states what holds of
/// every outcome.
pub trait FetchClient {
    /// Performs one GET of `target` with the given ordered query parameters.
    /// Returns the status code and the fully read body, or a human-readable
    /// description of the transport failure.
    fn fetch(&mut self, target: &str, query: &Vec<(String, String)>) -> Result<
        (u16, Vec<u8>),
        String,
    >;
}

/// How a worker classifies what came back from the fetch client: a success
/// exactly when the transport succeeded and the status indicates a
/// retrievable resource.
pub open spec fn classified(response: Result<(u16, Vec<u8>), String>) -> Result<
    Vec<u8>,
    FetchError,
> {
    match response {
        Ok((status, body)) => if 200 <= status < 300 {
            Ok(body)
        } else {
            Err(FetchError::HttpStatusError(status))
        },
        Err(description) => Err(FetchError::TransportError(description)),
    }
}

/// Classifies the fetch client's response: the body on a success status,
/// the status error on any other response, the transport error otherwise.
pub fn classify(response: Result<(u16, Vec<u8>), String>) -> (r: Result<Vec<u8>, FetchError>)
    ensures
        r == classified(response),
        r matches Err(e) ==> e.is_attempt_error(),
{
    match response {
        Ok((status, body)) => {
            if 200 <= status && status < 300 {
                Ok(body)
            } else {
                Err(FetchError::HttpStatusError(status))
            }
        },
        Err(description) => Err(FetchError::TransportError(description)),
    }
}

/// The text of the cookie header built from (name, value) pairs:
/// `name=value;` for each pair, in order.
pub open spec fn cookie_header_view(cookies: Seq<(String, String)>) -> Seq<char>
    decreases cookies.len(),
{
    if cookies.len() == 0 {
        Seq::empty()
    } else {
        cookie_header_view(cookies.drop_last()) + cookies.last().0@ + "="@ + cookies.last().1@
            + ";"@
    }
}

/// Assembles the cookie header that the fetch client is configured with:
/// every default cookie as `name=value;`, in order.
pub fn cookie_header(cookies: &Vec<(String, String)>) -> (r: String)
    ensures
        r@ == cookie_header_view(cookies@),
{
    let mut line = String::new();
    let mut i: usize = 0;
    while i < cookies.len()
        invariant
            i <= cookies@.len(),
            line@ == cookie_header_view(cookies@.take(i as int)),
        decreases cookies@.len() - i,
    {
        proof {
            assert(cookies@.take(i as int + 1).drop_last() =~= cookies@.take(i as int));
            assert(cookies@.take(i as int + 1).last() == cookies@[i as int]);
        }
        line.append(cookies[i].0.as_str());
        line.append("=");
        line.append(cookies[i].1.as_str());
        line.append(";");
        i = i + 1;
    }
    proof {
        assert(cookies@.take(cookies@.len() as int) =~= cookies@);
    }
    line
}

/// The retry policy: a failed attempt is granted another while the request
/// has retries remaining; each grant consumes one unit. A budget of zero
/// means a single attempt only.
pub open spec fn retry_granted(retries_remaining: int) -> bool {
    retries_remaining > 0
}

/// The mathematical content of an ordered query parameter list.
pub open spec fn query_view(q: Seq<(String, String)>) -> Seq<(Seq<char>, Seq<char>)> {
    Seq::new(q.len(), |i: int| (q[i].0@, q[i].1@))
}

/// What one submitted request looks like: a target and its ordered query
/// parameters.
pub type SubmittedRequest = (Seq<char>, Seq<(Seq<char>, Seq<char>)>);

/// The request `r` as handed out and reported back: everything but the
/// identity of its heap allocations.
pub open spec fn req_view(r: FetchRequest) -> (int, Seq<char>, Seq<(Seq<char>, Seq<char>)>, int) {
    (r.sequence_id as int, r.target@, query_view(r.query@), r.retries_remaining as int)
}

/// The request `e` resubmitted with one retry fewer.
pub open spec fn decremented(e: FetchRequest) -> FetchRequest {
    FetchRequest {
        sequence_id: e.sequence_id,
        target: e.target,
        query: e.query,
        retries_remaining: (e.retries_remaining - 1) as usize,
    }
}

/// The bounded-concurrency fetch engine.
pub struct Crawler {
    concurrency: usize,
    timeout: u64,
    headers: Vec<(String, String)>,
    cookies: Vec<(String, String)>,
    retry: usize,
    queue: TaskQueue,
    results: ResultAggregator,
    in_flight: Vec<FetchRequest>,
    attempts: Vec<usize>,
    progress: Progress,
    submitted: Ghost<Seq<SubmittedRequest>>,
}

impl Crawler {
    /// The concurrency cap: at most this many requests are in flight.
    pub closed spec fn concurrency(&self) -> int {
        self.concurrency as int
    }

    /// The per-request timeout, in seconds, handed to the fetch client.
    pub closed spec fn timeout_secs(&self) -> int {
        self.timeout as int
    }

    /// The retry budget granted to every fresh request.
    pub closed spec fn retry_budget(&self) -> int {
        self.retry as int
    }

    /// Default headers handed to the fetch client.
    pub closed spec fn headers_view(&self) -> Seq<(Seq<char>, Seq<char>)> {
        query_view(self.headers@)
    }

    /// Default cookies handed to the fetch client.
    pub closed spec fn cookies_view(&self) -> Seq<(Seq<char>, Seq<char>)> {
        query_view(self.cookies@)
    }

    /// The (target, query) pairs of the current batch, in submission order.
    pub closed spec fn submitted(&self) -> Seq<SubmittedRequest> {
        self.submitted@
    }

    /// One outcome slot per submitted request.
    pub closed spec fn slots(&self) -> Seq<Option<Outcome>> {
        self.results.slots()
    }

    /// The size of the current batch.
    pub open spec fn total(&self) -> int {
        self.slots().len() as int
    }

    /// Not-yet-attempted requests, in submission order.
    pub closed spec fn fresh(&self) -> Seq<FetchRequest> {
        self.queue.fresh()
    }

    /// Requeued retries, served only once no fresh request is pending.
    pub closed spec fn deferred(&self) -> Seq<FetchRequest> {
        self.queue.deferred()
    }

    /// Everything still queued, fresh requests first.
    pub open spec fn pending(&self) -> Seq<FetchRequest> {
        self.fresh() + self.deferred()
    }

    /// Requests currently handed to a worker.
    pub closed spec fn inflight(&self) -> Seq<FetchRequest> {
        self.in_flight@
    }

    /// How often each sequence id has been dispatched so far.
    pub closed spec fn attempts(&self) -> Seq<usize> {
        self.attempts@
    }

    /// The progress counter: finally-successful requests of this batch.
    pub closed spec fn progress_completed(&self) -> int {
        self.progress.completed()
    }

    /// The progress label of this batch.
    pub closed spec fn progress_label(&self) -> Seq<char> {
        self.progress.label()
    }

    /// A request the engine still owes an outcome for, and what it may
    /// claim of it: it is a request of this batch, its slot is still empty,
    /// and it carries the submitted target and query.
    pub open spec fn live_request(&self, r: FetchRequest) -> bool {
        &&& 0 <= r.sequence_id < self.total()
        &&& self.slots()[r.sequence_id as int] is None
        &&& r.retries_remaining <= self.retry_budget()
        &&& r.target@ == self.submitted()[r.sequence_id as int].0
        &&& query_view(r.query@) == self.submitted()[r.sequence_id as int].1
    }

    /// How many attempts the still-queued and in-flight requests stand for;
    /// every dispatch-and-report round strictly decreases it.
    pub open spec fn measure(&self) -> int {
        sum_weight(self.fresh()) + sum_weight(self.deferred()) + sum_weight(self.inflight())
    }

    /// The engine's invariant, preserved by every operation.
    pub closed spec fn inv(&self) -> bool {
        &&& self.results.wf()
        &&& self.progress.wf()
        &&& self.concurrency >= 1
        &&& self.retry < usize::MAX
        &&& self.submitted@.len() == self.total()
        &&& self.attempts@.len() == self.total()
        &&& self.progress.total() == self.total()
        &&& self.progress.completed() == count_ok(self.slots())
        &&& self.inflight().len() <= self.concurrency()
        // Every queued fresh request is live, still has its whole budget,
        // and has never been dispatched.
        &&& forall|k: int|
            0 <= k < self.fresh().len() ==> {
                &&& self.live_request(#[trigger] self.fresh()[k])
                &&& self.fresh()[k].retries_remaining == self.retry
                &&& self.attempts@[self.fresh()[k].sequence_id as int] == 0
            }
        // Fresh requests are served in submission order.
        &&& forall|i: int, j: int|
            0 <= i < j < self.fresh().len() ==> (#[trigger] self.fresh()[i]).sequence_id < (
            #[trigger] self.fresh()[j]).sequence_id
        // Every deferred retry is live, has consumed part of its budget,
        // and has been dispatched once per consumed part.
        &&& forall|k: int|
            0 <= k < self.deferred().len() ==> {
                &&& self.live_request(#[trigger] self.deferred()[k])
                &&& self.deferred()[k].retries_remaining < self.retry
                &&& self.attempts@[self.deferred()[k].sequence_id as int] == self.retry
                    - self.deferred()[k].retries_remaining
            }
        // Every in-flight request is live and counts its own dispatch.
        &&& forall|k: int|
            0 <= k < self.inflight().len() ==> {
                &&& self.live_request(#[trigger] self.inflight()[k])
                &&& self.attempts@[self.inflight()[k].sequence_id as int] == self.retry
                    - self.inflight()[k].retries_remaining + 1
            }
        // Each sequence id is owned by exactly one place: one queued or
        // in-flight request while its slot is empty, its slot afterwards.
        &&& forall|id: int|
            0 <= id < self.total() ==> count_id(self.fresh(), id) + count_id(self.deferred(), id)
                + count_id(self.inflight(), id) == (if self.slots()[id] is None {
                1int
            } else {
                0int
            })
        // No id is dispatched more often than its attempts can count.
        &&& forall|id: int|
            0 <= id < self.total() ==> #[trigger] self.attempts@[id] <= self.retry + 1
    }

    /// No batch is under way: nothing queued, nothing in flight, and every
    /// slot of the previous batch finalized.
    pub open spec fn batch_done(&self) -> bool {
        &&& self.pending().len() == 0
        &&& self.inflight().len() == 0
        &&& count_filled(self.slots()) == self.total()
    }

    /// Builds an engine. Construction validates the configuration once: the
    /// concurrency cap must allow at least one worker, the timeout must not
    /// be zero, and the retry budget must leave the attempt count (budget
    /// plus one) representable.
    pub fn new(
        concurrency: usize,
        timeout: u64,
        headers: Vec<(String, String)>,
        cookies: Vec<(String, String)>,
        retry: usize,
    ) -> (r: Result<Crawler, String>)
        ensures
            r is Ok <==> (concurrency >= 1 && timeout >= 1 && retry < usize::MAX),
            r matches Ok(c) ==> {
                &&& c.inv()
                &&& c.batch_done()
                &&& c.total() == 0
                &&& c.concurrency() == concurrency
                &&& c.timeout_secs() == timeout
                &&& c.retry_budget() == retry
                &&& c.headers_view() == query_view(headers@)
                &&& c.cookies_view() == query_view(cookies@)
            },
            concurrency == 0 ==> (r matches Err(m) && m@ == "concurrency must be at least 1"@),
            concurrency >= 1 && timeout == 0 ==> (r matches Err(m) && m@
                == "timeout must be at least 1 second"@),
            concurrency >= 1 && timeout >= 1 && retry == usize::MAX ==> (r matches Err(m) && m@
                == "retry budget is too large"@),
    {
        if concurrency == 0 {
            return Err(String::from_str("concurrency must be at least 1"));
        }
        if timeout == 0 {
            return Err(String::from_str("timeout must be at least 1 second"));
        }
        if retry == usize::MAX {
            return Err(String::from_str("retry budget is too large"));
        }
        let crawler = Crawler {
            concurrency,
            timeout,
            headers,
            cookies,
            retry,
            queue: TaskQueue::new(),
            results: ResultAggregator::new(0),
            in_flight: Vec::new(),
            attempts: Vec::new(),
            progress: Progress::new("", 0),
            submitted: Ghost(Seq::empty()),
        };
        proof {
            assert(crawler.slots() =~= Seq::<Option<Outcome>>::empty());
            assert(count_filled(crawler.slots()) == 0);
            assert(count_ok(crawler.slots()) == 0);
            reveal_strlit("");
        }
        Ok(crawler)
    }

    /// The concurrency cap.
    pub fn concurrency_cap(&self) -> (r: usize)
        ensures
            r == self.concurrency(),
    {
        self.concurrency
    }

    /// The per-request timeout in seconds, for the fetch client.
    pub fn timeout_seconds(&self) -> (r: u64)
        ensures
            r == self.timeout_secs(),
    {
        self.timeout
    }

    /// The retry budget granted to every fresh request.
    pub fn retry_limit(&self) -> (r: usize)
        ensures
            r == self.retry_budget(),
    {
        self.retry
    }

    /// The default headers, for the fetch client.
    pub fn default_headers(&self) -> (r: &Vec<(String, String)>)
        ensures
            query_view(r@) == self.headers_view(),
    {
        &self.headers
    }

    /// The default cookies, for the fetch client.
    pub fn default_cookies(&self) -> (r: &Vec<(String, String)>)
        ensures
            query_view(r@) == self.cookies_view(),
    {
        &self.cookies
    }

    /// How many requests are in flight right now.
    pub fn in_flight_count(&self) -> (r: usize)
        ensures
            r == self.inflight().len(),
    {
        self.in_flight.len()
    }

    /// How often the request at `sequence_id` has been dispatched so far.
    pub fn attempt_count(&self, sequence_id: usize) -> (r: usize)
        requires
            self.inv(),
            sequence_id < self.total(),
        ensures
            r == self.attempts()[sequence_id as int],
    {
        self.attempts[sequence_id]
    }

    /// The progress counter: how many requests have finally succeeded.
    pub fn completed_count(&self) -> (r: usize)
        requires
            self.inv(),
        ensures
            r == count_ok(self.slots()),
            r == self.progress_completed(),
    {
        self.progress.completed_value()
    }

    /// How many requests have been finalized, success or failure.
    pub fn finalized_count(&self) -> (r: usize)
        requires
            self.inv(),
        ensures
            r == count_filled(self.slots()),
    {
        self.results.finalized()
    }

    /// The current progress line.
    pub fn render_progress(&self) -> (r: String)
        ensures
            r@ == crate::progress::progress_line(
                self.progress_label(),
                self.progress_completed() as nat,
                self.progress_batch_total() as nat,
            ),
    {
        self.progress.render()
    }

    /// The batch size the progress reporter was built for.
    pub closed spec fn progress_batch_total(&self) -> int {
        self.progress.total()
    }

    /// What the submitted (target, query) list of a batch looks like.
    pub open spec fn submitted_of(requests: Seq<(String, Vec<(String, String)>)>) -> Seq<
        SubmittedRequest,
    > {
        Seq::new(requests.len(), |i: int| (requests[i].0@, query_view(requests[i].1@)))
    }

    /// Installs a batch: one tagged request per submitted (target, query)
    /// pair, in submission order, each with the full retry budget; a fresh
    /// result slot and attempt counter per request; and a fresh progress
    /// reporter, visible when `label` is non-empty.
    pub fn start_batch(&mut self, label: &str, requests: Vec<(String, Vec<(String, String)>)>)
        requires
            old(self).inv(),
            old(self).batch_done(),
        ensures
            final(self).inv(),
            final(self).total() == requests@.len(),
            final(self).submitted() == Self::submitted_of(requests@),
            final(self).fresh().len() == requests@.len(),
            forall|k: int|
                0 <= k < requests@.len() ==> {
                    &&& (#[trigger] final(self).fresh()[k]).sequence_id == k
                    &&& final(self).fresh()[k].retries_remaining == final(self).retry_budget()
                    &&& final(self).fresh()[k].target@ == requests@[k].0@
                    &&& query_view(final(self).fresh()[k].query@) == query_view(requests@[k].1@)
                },
            final(self).deferred().len() == 0,
            final(self).inflight().len() == 0,
            forall|i: int| 0 <= i < requests@.len() ==> final(self).slots()[i] is None,
            final(self).progress_completed() == 0,
            final(self).progress_label() == label@,
            final(self).progress_batch_total() == requests@.len(),
            forall|id: int| 0 <= id < requests@.len() ==> final(self).attempts()[id] == 0,
            final(self).concurrency() == old(self).concurrency(),
            final(self).timeout_secs() == old(self).timeout_secs(),
            final(self).retry_budget() == old(self).retry_budget(),
            final(self).headers_view() == old(self).headers_view(),
            final(self).cookies_view() == old(self).cookies_view(),
    {
        let ghost original = requests@;
        let total = requests.len();
        let budget = self.retry;
        let mut rest = requests;
        let mut fresh_requests: Vec<FetchRequest> = Vec::new();
        let mut i: usize = 0;
        while i < total
            invariant
                i <= total,
                total == original.len(),
                rest@ =~= original.skip(i as int),
                fresh_requests@.len() == i,
                forall|k: int|
                    0 <= k < i ==> {
                        &&& (#[trigger] fresh_requests@[k]).sequence_id == k
                        &&& fresh_requests@[k].retries_remaining == budget
                        &&& fresh_requests@[k].target@ == original[k].0@
                        &&& query_view(fresh_requests@[k].query@) == query_view(original[k].1@)
                    },
            decreases total - i,
        {
            let pair = rest.remove(0);
            proof {
                assert(original.skip(i as int).remove(0) =~= original.skip(i as int + 1));
                assert(pair == original[i as int]);
            }
            fresh_requests.push(
                FetchRequest {
                    sequence_id: i,
                    target: pair.0,
                    query: pair.1,
                    retries_remaining: budget,
                },
            );
            i = i + 1;
        }
        self.submitted = Ghost(Self::submitted_of(original));
        self.queue.install_fresh(fresh_requests);
        self.results = ResultAggregator::new(total);
        self.attempts = zeros(total);
        self.progress = Progress::new(label, total);
        self.in_flight = Vec::new();
        proof {
            crate::outcome::lemma_counts_all_none(self.slots());
            assert forall|id: int| 0 <= id < self.total() implies count_id(self.fresh(), id)
                + count_id(self.deferred(), id) + count_id(self.inflight(), id) == 1int by {
                crate::queue::lemma_count_id_indexed(self.fresh(), 0, id);
                assert(count_id(self.deferred(), id) == 0);
                assert(count_id(self.inflight(), id) == 0);
            }
        }
    }

    /// Hands out the next request when the concurrency cap allows one more
    /// in-flight fetch and anything is pending: the oldest fresh request
    /// while any is pending, the oldest deferred retry otherwise. The
    /// engine keeps custody of the request; the caller gets an equal copy
    /// and reports the outcome under its sequence id.
    pub fn next_task(&mut self) -> (r: Option<FetchRequest>)
        requires
            old(self).inv(),
        ensures
            final(self).inv(),
            r is Some <==> (old(self).pending().len() > 0 && old(self).inflight().len() < old(
                self,
            ).concurrency()),
            r is None ==> *final(self) == *old(self),
            r matches Some(task) ==> ({
                let head = if old(self).fresh().len() > 0 {
                    old(self).fresh()[0]
                } else {
                    old(self).deferred()[0]
                };
                &&& req_view(task) == req_view(head)
                &&& old(self).live_request(head)
                &&& old(self).fresh().len() > 0 ==> final(self).fresh() == old(
                    self,
                ).fresh().drop_first() && final(self).deferred() == old(self).deferred()
                &&& old(self).fresh().len() == 0 ==> final(self).deferred() == old(
                    self,
                ).deferred().drop_first() && final(self).fresh() == old(self).fresh()
                &&& final(self).inflight() == old(self).inflight().push(head)
                &&& final(self).inflight().len() <= final(self).concurrency()
                &&& final(self).attempts() == old(self).attempts().update(
                    head.sequence_id as int,
                    (old(self).attempts()[head.sequence_id as int] + 1) as usize,
                )
                &&& final(self).slots() == old(self).slots()
                &&& final(self).measure() == old(self).measure()
                &&& final(self).progress_completed() == old(self).progress_completed()
            }),
            final(self).total() == old(self).total(),
            final(self).submitted() == old(self).submitted(),
            final(self).concurrency() == old(self).concurrency(),
            final(self).timeout_secs() == old(self).timeout_secs(),
            final(self).retry_budget() == old(self).retry_budget(),
            final(self).headers_view() == old(self).headers_view(),
            final(self).cookies_view() == old(self).cookies_view(),
            final(self).progress_label() == old(self).progress_label(),
            final(self).progress_batch_total() == old(self).progress_batch_total(),
    {
        if self.in_flight.len() >= self.concurrency {
            return None;
        }
        if self.queue.is_empty() {
            return None;
        }
        let ghost fresh_before = self.fresh();
        let ghost deferred_before = self.deferred();
        let dequeued = self.queue.dequeue();
        let req = dequeued.unwrap();
        let id = req.sequence_id;
        proof {
            if fresh_before.len() > 0 {
                assert(req == fresh_before[0]);
                assert(self.fresh() =~= fresh_before.remove(0));
            } else {
                assert(req == deferred_before[0]);
                assert(self.deferred() =~= deferred_before.remove(0));
            }
            assert(old(self).live_request(req));
        }
        let current = self.attempts[id];
        self.attempts.set(id, current + 1);
        let task = duplicate(&req);
        self.in_flight.push(req);
        proof {
            let ghost head = req;
            // The head was the only owner of its id; the other holders'
            // counts are zero, so moving it to the in-flight set keeps the
            // ownership equation.
            assert forall|other: int| 0 <= other < self.total() implies count_id(self.fresh(), other)
                + count_id(self.deferred(), other) + count_id(self.inflight(), other) == (if self.slots()[other]
                is None {
                1int
            } else {
                0int
            }) by {
                if fresh_before.len() > 0 {
                    lemma_count_id_remove(fresh_before, 0, other);
                } else {
                    lemma_count_id_remove(deferred_before, 0, other);
                }
                lemma_count_id_push(old(self).inflight(), head, other);
            }
            // Nothing else in the queues carries the dispatched id, so the
            // attempt-counter update leaves every other holder's counter
            // untouched.
            assert(count_id(fresh_before, id as int) + count_id(deferred_before, id as int)
                + count_id(old(self).inflight(), id as int) == 1);
            assert forall|k: int| 0 <= k < self.fresh().len() implies (#[trigger] self.fresh()[k]).sequence_id
                != id as int by {
                if self.fresh()[k].sequence_id == id as int {
                    if fresh_before.len() > 0 {
                        lemma_count_id_member(self.fresh(), k);
                        lemma_count_id_remove(fresh_before, 0, id as int);
                        lemma_count_id_member(fresh_before, 0);
                        lemma_count_id_nonneg(deferred_before, id as int);
                        lemma_count_id_nonneg(old(self).inflight(), id as int);
                    } else {
                        lemma_count_id_member(self.fresh(), k);
                        lemma_count_id_member(deferred_before, 0);
                        lemma_count_id_nonneg(old(self).inflight(), id as int);
                    }
                }
            }
            assert forall|k: int| 0 <= k < self.deferred().len() implies (#[trigger] self.deferred()[k]).sequence_id
                != id as int by {
                if self.deferred()[k].sequence_id == id as int {
                    if fresh_before.len() > 0 {
                        lemma_count_id_member(self.deferred(), k);
                        lemma_count_id_member(fresh_before, 0);
                        lemma_count_id_nonneg(fresh_before.remove(0), id as int);
                    } else {
                        lemma_count_id_member(self.deferred(), k);
                        lemma_count_id_remove(deferred_before, 0, id as int);
                        lemma_count_id_member(deferred_before, 0);
                        lemma_count_id_nonneg(old(self).inflight(), id as int);
                    }
                }
            }
            assert forall|k: int| 0 <= k < old(self).inflight().len() implies (#[trigger] old(
                self,
            ).inflight()[k]).sequence_id != id as int by {
                if old(self).inflight()[k].sequence_id == id as int {
                    lemma_count_id_member(old(self).inflight(), k);
                    if fresh_before.len() > 0 {
                        lemma_count_id_member(fresh_before, 0);
                        lemma_count_id_nonneg(deferred_before, id as int);
                    } else {
                        lemma_count_id_member(deferred_before, 0);
                        lemma_count_id_nonneg(fresh_before, id as int);
                    }
                }
            }
            // The dispatch keeps the total attempt weight: the request
            // leaves a queue and enters the in-flight set unchanged.
            if fresh_before.len() > 0 {
                lemma_sum_weight_remove(fresh_before, 0);
            } else {
                lemma_sum_weight_remove(deferred_before, 0);
            }
            lemma_sum_weight_push(old(self).inflight(), head);
        }
        Some(task)
    }

    /// Some worker currently holds the request with this sequence id.
    pub open spec fn is_in_flight(&self, id: int) -> bool {
        exists|k: int|
            0 <= k < self.inflight().len() && (#[trigger] self.inflight()[k]).sequence_id == id
    }

    /// The position of the in-flight request with this sequence id.
    pub open spec fn inflight_index(&self, id: int) -> int {
        choose|k: int|
            0 <= k < self.inflight().len() && (#[trigger] self.inflight()[k]).sequence_id == id
    }

    /// The in-flight request with this sequence id.
    pub open spec fn inflight_entry(&self, id: int) -> FetchRequest {
        self.inflight()[self.inflight_index(id)]
    }

    /// Routes the classified outcome of one fetch attempt. A success is
    /// finalized into its slot and counted by the progress reporter. A
    /// failure consults the retry policy: while the request has retries
    /// remaining it is requeued behind every pending request with one retry
    /// fewer and no progress is counted; once the budget is consumed the
    /// request is finalized as `Exhausted`, wrapping the last error, after
    /// exactly budget-plus-one dispatches.
    pub fn report(&mut self, sequence_id: usize, attempt: Result<Vec<u8>, FetchError>)
        requires
            old(self).inv(),
            old(self).is_in_flight(sequence_id as int),
            attempt matches Err(e) ==> e.is_attempt_error(),
        ensures
            final(self).inv(),
            final(self).measure() < old(self).measure(),
            final(self).inflight() == old(self).inflight().remove(
                old(self).inflight_index(sequence_id as int),
            ),
            final(self).attempts() == old(self).attempts(),
            final(self).fresh() == old(self).fresh(),
            final(self).slots().len() == old(self).slots().len(),
            ({
                let entry = old(self).inflight_entry(sequence_id as int);
                &&& attempt matches Ok(bytes) ==> {
                    &&& final(self).slots() == old(self).slots().update(
                        sequence_id as int,
                        Some(Ok(bytes)),
                    )
                    &&& final(self).progress_completed() == old(self).progress_completed() + 1
                    &&& final(self).deferred() == old(self).deferred()
                }
                &&& attempt matches Err(e) ==> {
                    &&& final(self).progress_completed() == old(self).progress_completed()
                    &&& retry_granted(entry.retries_remaining as int) ==> {
                        &&& final(self).slots() == old(self).slots()
                        &&& final(self).deferred() == old(self).deferred().push(decremented(entry))
                    }
                    &&& !retry_granted(entry.retries_remaining as int) ==> {
                        &&& (final(self).slots()[sequence_id as int] matches Some(Err(
                        FetchError::Exhausted(last))) && *last == e)
                        &&& forall|k: int|
                            0 <= k < old(self).slots().len() && k != sequence_id as int
                                ==> final(self).slots()[k] == old(self).slots()[k]
                        &&& old(self).attempts()[sequence_id as int] == old(self).retry_budget()
                            + 1
                        &&& final(self).deferred() == old(self).deferred()
                        &&& count_filled(final(self).slots()) == count_filled(old(self).slots())
                            + 1
                    }
                }
            }),
            final(self).total() == old(self).total(),
            final(self).submitted() == old(self).submitted(),
            final(self).concurrency() == old(self).concurrency(),
            final(self).timeout_secs() == old(self).timeout_secs(),
            final(self).retry_budget() == old(self).retry_budget(),
            final(self).headers_view() == old(self).headers_view(),
            final(self).cookies_view() == old(self).cookies_view(),
            final(self).progress_label() == old(self).progress_label(),
            final(self).progress_batch_total() == old(self).progress_batch_total(),
    {
        let id = sequence_id;
        // Find the in-flight entry that carries this sequence id.
        let mut j: usize = 0;
        let mut found: bool = false;
        while !found && j < self.in_flight.len()
            invariant
                j <= self.in_flight@.len(),
                found ==> j < self.in_flight@.len() && self.in_flight@[j as int].sequence_id == id,
                !found ==> forall|k: int|
                    0 <= k < j ==> (#[trigger] self.in_flight@[k]).sequence_id != id,
            decreases self.in_flight@.len() - j + (if found {
                0int
            } else {
                1int
            }),
        {
            if self.in_flight[j].sequence_id == id {
                found = true;
            } else {
                j = j + 1;
            }
        }
        proof {
            assert(found) by {
                if !found {
                    let k = choose|k: int|
                        0 <= k < old(self).inflight().len() && (#[trigger] old(
                            self,
                        ).inflight()[k]).sequence_id == id as int;
                    assert(self.in_flight@[k].sequence_id != id);
                }
            }
            // The entry is unique: its slot is empty, so the ownership
            // equation says its id occurs exactly once over all holders.
            assert(old(self).live_request(old(self).inflight()[j as int]));
            lemma_count_id_member(old(self).inflight(), j as int);
            lemma_count_id_nonneg(old(self).fresh(), id as int);
            lemma_count_id_nonneg(old(self).deferred(), id as int);
            lemma_count_id_unique(
                old(self).inflight(),
                j as int,
                old(self).inflight_index(id as int),
            );
        }
        let ghost j_spec = old(self).inflight_index(sequence_id as int);
        let entry = self.in_flight.remove(j);
        let ghost entry_spec = entry;
        proof {
            lemma_count_id_remove(old(self).inflight(), j as int, id as int);
            lemma_sum_weight_remove(old(self).inflight(), j as int);
            // No other holder carries this id.
            assert(count_id(old(self).fresh(), id as int) == 0);
            assert(count_id(old(self).deferred(), id as int) == 0);
            assert(count_id(self.in_flight@, id as int) == 0);
            assert forall|k: int| 0 <= k < self.fresh().len() implies (
            #[trigger] self.fresh()[k]).sequence_id != id as int by {
                if self.fresh()[k].sequence_id == id as int {
                    lemma_count_id_member(self.fresh(), k);
                }
            }
            assert forall|k: int| 0 <= k < self.deferred().len() implies (
            #[trigger] self.deferred()[k]).sequence_id != id as int by {
                if self.deferred()[k].sequence_id == id as int {
                    lemma_count_id_member(self.deferred(), k);
                }
            }
            assert forall|k: int| 0 <= k < self.in_flight@.len() implies (
            #[trigger] self.in_flight@[k]).sequence_id != id as int by {
                if self.in_flight@[k].sequence_id == id as int {
                    lemma_count_id_member(self.in_flight@, k);
                }
            }
            assert forall|other: int|
                0 <= other < self.total() && other != id as int implies count_id(
                self.fresh(),
                other,
            ) + count_id(self.deferred(), other) + count_id(self.in_flight@, other) == (if self.slots()[other]
                is None {
                1int
            } else {
                0int
            }) by {
                lemma_count_id_remove(old(self).inflight(), j as int, other);
            }
        }
        match attempt {
            Ok(bytes) => {
                proof {
                    lemma_unfilled_slot(self.results.slots(), id as int);
                    lemma_counts_bounded(self.results.slots());
                    crate::outcome::lemma_counts_update(
                        self.results.slots(),
                        id as int,
                        Ok(bytes),
                    );
                }
                self.results.finalize(id, Ok(bytes));
                self.progress.make_progress();
            },
            Err(err) => {
                if entry.retries_remaining > 0 {
                    let mut resubmitted = entry;
                    resubmitted.retries_remaining = resubmitted.retries_remaining - 1;
                    proof {
                        assert(resubmitted == decremented(entry_spec));
                        lemma_count_id_push(old(self).deferred(), resubmitted, id as int);
                        lemma_sum_weight_push(old(self).deferred(), resubmitted);
                        assert forall|other: int|
                            0 <= other < self.total() && other != id as int implies count_id(
                            old(self).deferred().push(resubmitted),
                            other,
                        ) == count_id(old(self).deferred(), other) by {
                            lemma_count_id_push(old(self).deferred(), resubmitted, other);
                        }
                    }
                    self.queue.enqueue_retry(resubmitted);
                } else {
                    proof {
                        lemma_unfilled_slot(self.results.slots(), id as int);
                        lemma_counts_bounded(self.results.slots());
                    }
                    let boxed = Box::new(err);
                    proof {
                        crate::outcome::lemma_counts_update(
                            self.results.slots(),
                            id as int,
                            Err(FetchError::Exhausted(boxed)),
                        );
                    }
                    self.results.finalize(id, Err(FetchError::Exhausted(boxed)));
                }
            },
        }
    }

    /// Whether every request of the current batch has been finalized.
    pub fn is_complete(&self) -> (r: bool)
        requires
            self.inv(),
        ensures
            r == (count_filled(self.slots()) == self.total()),
    {
        self.results.is_complete()
    }

    /// While any outcome is still owed and no request is in flight,
    /// something is pending: the engine can always make progress.
    pub proof fn lemma_incomplete_has_work(&self)
        requires
            self.inv(),
            count_filled(self.slots()) < self.total(),
            self.inflight().len() == 0,
        ensures
            self.pending().len() > 0,
    {
        if self.pending().len() == 0 {
            assert(self.fresh().len() == 0);
            assert(self.deferred().len() == 0);
            assert(exists|i: int| 0 <= i < self.total() && self.slots()[i] is None) by {
                if forall|i: int| 0 <= i < self.slots().len() ==> #[trigger] self.slots()[i]
                    is Some {
                    crate::outcome::lemma_count_filled_all_some(self.slots());
                }
            }
            let i = choose|i: int| 0 <= i < self.total() && self.slots()[i] is None;
            assert(count_id(self.fresh(), i) == 0);
            assert(count_id(self.deferred(), i) == 0);
            assert(count_id(self.inflight(), i) == 0);
        }
    }

    /// Every pending or in-flight request is gone once the batch is
    /// complete: exactly one outcome exists per sequence id.
    pub proof fn lemma_complete_means_drained(&self)
        requires
            self.inv(),
            count_filled(self.slots()) == self.total(),
        ensures
            self.pending().len() == 0,
            self.inflight().len() == 0,
    {
        lemma_all_filled(self.slots());
        if self.fresh().len() > 0 {
            assert(self.live_request(self.fresh()[0]));
        }
        if self.deferred().len() > 0 {
            assert(self.live_request(self.deferred()[0]));
        }
        if self.inflight().len() > 0 {
            assert(self.live_request(self.inflight()[0]));
        }
    }

    /// Takes the finalized outcomes, in ascending sequence order: the entry
    /// at position `i` is the outcome of the i-th submitted request. The
    /// engine is left idle, ready for the next batch.
    pub fn take_results(&mut self) -> (r: Vec<Outcome>)
        requires
            old(self).inv(),
            count_filled(old(self).slots()) == old(self).total(),
        ensures
            final(self).inv(),
            final(self).batch_done(),
            final(self).total() == 0,
            r@.len() == old(self).total(),
            forall|i: int|
                #![trigger r@[i]]
                0 <= i < r@.len() ==> (old(self).slots()[i] matches Some(o) && r@[i] == o),
            final(self).concurrency() == old(self).concurrency(),
            final(self).timeout_secs() == old(self).timeout_secs(),
            final(self).retry_budget() == old(self).retry_budget(),
            final(self).headers_view() == old(self).headers_view(),
            final(self).cookies_view() == old(self).cookies_view(),
    {
        proof {
            self.lemma_complete_means_drained();
        }
        self.progress.finish();
        let drained = self.results.take();
        self.attempts = Vec::new();
        self.progress = Progress::new("", 0);
        self.submitted = Ghost(Seq::empty());
        proof {
            reveal_strlit("");
            assert(self.slots() =~= Seq::<Option<Outcome>>::empty());
            assert(count_ok(self.slots()) == 0);
            assert(count_filled(self.slots()) == 0);
        }
        drained
    }

    /// Fetches one batch to completion against the given fetch client and
    /// returns one outcome per submitted (target, query) pair, in
    /// submission order: the entry at position `i` belongs to the i-th
    /// pair, regardless of the order in which attempts completed.
    pub fn get_byte<F: FetchClient>(
        &mut self,
        client: &mut F,
        name: &str,
        requests: Vec<(String, Vec<(String, String)>)>,
    ) -> (r: Vec<Outcome>)
        requires
            old(self).inv(),
            old(self).batch_done(),
        ensures
            final(self).inv(),
            final(self).batch_done(),
            final(self).total() == 0,
            r@.len() == requests@.len(),
            final(self).concurrency() == old(self).concurrency(),
            final(self).timeout_secs() == old(self).timeout_secs(),
            final(self).retry_budget() == old(self).retry_budget(),
            final(self).headers_view() == old(self).headers_view(),
            final(self).cookies_view() == old(self).cookies_view(),
    {
        let ghost n = requests@.len() as int;
        let ghost concurrency0 = old(self).concurrency();
        let ghost timeout0 = old(self).timeout_secs();
        let ghost retry0 = old(self).retry_budget();
        let ghost headers0 = old(self).headers_view();
        let ghost cookies0 = old(self).cookies_view();
        self.start_batch(name, requests);
        proof {
            lemma_sum_weight_nonneg(self.fresh());
            lemma_sum_weight_nonneg(self.deferred());
            lemma_sum_weight_nonneg(self.inflight());
        }
        let mut done = self.is_complete();
        while !done
            invariant
                self.inv(),
                self.inflight().len() == 0,
                self.total() == n,
                done == (count_filled(self.slots()) == self.total()),
                self.measure() >= 0,
                self.concurrency() == concurrency0,
                self.timeout_secs() == timeout0,
                self.retry_budget() == retry0,
                self.headers_view() == headers0,
                self.cookies_view() == cookies0,
            decreases self.measure(),
        {
            proof {
                lemma_counts_bounded(self.slots());
                self.lemma_incomplete_has_work();
            }
            let maybe_task = self.next_task();
            let task = maybe_task.unwrap();
            let response = client.fetch(task.target.as_str(), &task.query);
            let outcome = classify(response);
            proof {
                assert(self.inflight().len() == 1);
                assert(self.inflight()[0].sequence_id == task.sequence_id);
            }
            self.report(task.sequence_id, outcome);
            proof {
                assert(self.inflight() =~= Seq::<FetchRequest>::empty());
                lemma_sum_weight_nonneg(self.fresh());
                lemma_sum_weight_nonneg(self.deferred());
                lemma_sum_weight_nonneg(self.inflight());
            }
            done = self.is_complete();
        }
        self.take_results()
    }

    /// Fetches one batch and decodes each success payload as UTF-8 text;
    /// a body that is not valid UTF-8 becomes a decode-error outcome, not
    /// retried. One entry per submitted pair, in submission order.
    pub fn get_text<F: FetchClient>(
        &mut self,
        client: &mut F,
        name: &str,
        requests: Vec<(String, Vec<(String, String)>)>,
    ) -> (r: Vec<Result<String, FetchError>>)
        requires
            old(self).inv(),
            old(self).batch_done(),
        ensures
            final(self).inv(),
            final(self).batch_done(),
            r@.len() == requests@.len(),
            final(self).concurrency() == old(self).concurrency(),
            final(self).timeout_secs() == old(self).timeout_secs(),
            final(self).retry_budget() == old(self).retry_budget(),
            final(self).headers_view() == old(self).headers_view(),
            final(self).cookies_view() == old(self).cookies_view(),
    {
        let outcomes = self.get_byte(client, name, requests);
        crate::codec::decode_text(outcomes)
    }

    /// Fetches one batch and decodes each success payload as one JSON
    /// document; a body that does not parse becomes a decode-error
    /// outcome, not retried. One entry per submitted pair, in submission
    /// order.
    pub fn get_json<F: FetchClient>(
        &mut self,
        client: &mut F,
        name: &str,
        requests: Vec<(String, Vec<(String, String)>)>,
    ) -> (r: Vec<Result<serde_json::Value, FetchError>>)
        requires
            old(self).inv(),
            old(self).batch_done(),
        ensures
            final(self).inv(),
            final(self).batch_done(),
            r@.len() == requests@.len(),
            final(self).concurrency() == old(self).concurrency(),
            final(self).timeout_secs() == old(self).timeout_secs(),
            final(self).retry_budget() == old(self).retry_budget(),
            final(self).headers_view() == old(self).headers_view(),
            final(self).cookies_view() == old(self).cookies_view(),
    {
        let outcomes = self.get_byte(client, name, requests);
        crate::codec::decode_json(outcomes)
    }

    /// No sequence id is ever dispatched more often than the retry budget
    /// plus one allows: the budget bounds the attempts of every request.
    pub proof fn lemma_attempts_bounded(&self)
        requires
            self.inv(),
        ensures
            forall|id: int|
                0 <= id < self.total() ==> #[trigger] self.attempts()[id] <= self.retry_budget()
                    + 1,
    {
    }

    /// By the time a batch completes, an outcome exists for every sequence
    /// id of the batch; each slot was filled exactly once, so it is the
    /// outcome of that request's finalization.
    pub proof fn lemma_every_request_finalized(&self)
        requires
            self.inv(),
            count_filled(self.slots()) == self.total(),
        ensures
            forall|id: int| 0 <= id < self.total() ==> self.slots()[id] is Some,
    {
        lemma_all_filled(self.slots());
    }

    /// A request is in flight in at most one worker at any instant: no two
    /// in-flight requests carry the same sequence id, so a retry is only
    /// ever resubmitted after the prior attempt has fully completed.
    pub proof fn lemma_no_duplicate_attempts(&self)
        requires
            self.inv(),
        ensures
            forall|i: int, j: int|
                0 <= i < j < self.inflight().len() ==> (#[trigger] self.inflight()[i]).sequence_id
                    != (#[trigger] self.inflight()[j]).sequence_id,
    {
        assert forall|i: int, j: int|
            0 <= i < j < self.inflight().len() implies (#[trigger] self.inflight()[i]).sequence_id
            != (#[trigger] self.inflight()[j]).sequence_id by {
            if self.inflight()[i].sequence_id == self.inflight()[j].sequence_id {
                let id = self.inflight()[i].sequence_id as int;
                assert(self.live_request(self.inflight()[i]));
                lemma_count_id_member(self.inflight(), i);
                lemma_count_id_nonneg(self.fresh(), id);
                lemma_count_id_nonneg(self.deferred(), id);
                lemma_count_id_unique(self.inflight(), i, j);
            }
        }
    }

    /// The concurrency bound: the engine never has more requests in flight
    /// than its configured cap.
    pub proof fn lemma_concurrency_bound(&self)
        requires
            self.inv(),
        ensures
            self.inflight().len() <= self.concurrency(),
    {
    }

    /// Progress counts exactly the finally-successful requests: the counter
    /// equals the number of success outcomes, so it is incremented once per
    /// successful sequence id and never for a retried-but-unfinished one.
    pub proof fn lemma_progress_counts_successes(&self)
        requires
            self.inv(),
        ensures
            self.progress_completed() == count_ok(self.slots()),
            0 <= self.progress_completed() <= self.total(),
    {
        lemma_counts_bounded(self.slots());
    }
}

/// A vector of `n` zeroed attempt counters.
fn zeros(n: usize) -> (r: Vec<usize>)
    ensures
        r@.len() == n,
        forall|i: int| 0 <= i < n ==> r@[i] == 0,
{
    let mut counters: Vec<usize> = Vec::new();
    let mut i: usize = 0;
    while i < n
        invariant
            i <= n,
            counters@.len() == i,
            forall|k: int| 0 <= k < i ==> counters@[k] == 0,
        decreases n - i,
    {
        counters.push(0);
        i = i + 1;
    }
    counters
}

/// A copy of a request, equal to the original in everything the contracts
/// speak of.
fn duplicate(r: &FetchRequest) -> (c: FetchRequest)
    ensures
        c.sequence_id == r.sequence_id,
        c.retries_remaining == r.retries_remaining,
        c.target == r.target,
        c.query@ == r.query@,
        req_view(c) == req_view(*r),
{
    let mut query: Vec<(String, String)> = Vec::new();
    let mut i: usize = 0;
    while i < r.query.len()
        invariant
            i <= r.query@.len(),
            query@.len() == i,
            forall|k: int| 0 <= k < i ==> query@[k] == r.query@[k],
        decreases r.query@.len() - i,
    {
        let name = r.query[i].0.clone();
        let value = r.query[i].1.clone();
        proof {
            assert((name, value) == r.query@[i as int]);
        }
        query.push((name, value));
        i = i + 1;
    }
    proof {
        assert(query@ =~= r.query@);
    }
    FetchRequest {
        sequence_id: r.sequence_id,
        target: r.target.clone(),
        query,
        retries_remaining: r.retries_remaining,
    }
}

} // verus!
