//! The state machine of one execution unit.
//!
//! A unit owns its correlation table, its optional capacity limiter and a
//! monotonically increasing (wrapping) call id counter. Submitting a call
//! assigns the next id, registers a waiting completion sink under that id
//! and produces the [`Request`] to send; an arriving [`Response`] resolves
//! the entry with the matching id, whatever order responses arrive in. The
//! embedding drives this machine: it performs the actual message transport
//! and suspension, and hands every inbound message to [`WebWorker::on_response`].

use vstd::prelude::*;

use crate::convert::spec_encode_bytes;
use crate::convert::to_bytes;
use crate::error::Full;
use crate::limiter::CapacityLimiter;
use crate::webworker::com::Request;
use crate::webworker::com::Response;
use crate::webworker::correlate::CorrelationTable;
use crate::webworker::correlate::SinkState;

verus! {

/// The caller-visible failure of one call.
#[derive(Debug, PartialEq, Eq, Structural, Clone, Copy)]
pub enum CallError {
    /// The response carried no result: the named function was never
    /// registered in the worker's dispatch table. A configuration error,
    /// not a transient condition.
    FunctionNotFound,
    /// The unit was torn down while the call was still pending.
    UnitTerminated,
}

/// What the unit does with an arriving response.
#[derive(Debug, PartialEq, Eq)]
pub enum Delivery {
    /// The caller with the echoed id was still waiting: it is woken with
    /// this result.
    Delivered(Result<Vec<u8>, CallError>),
    /// The caller had abandoned the call: the response is dropped silently.
    Discarded,
    /// No call with the echoed id is in flight (late or duplicate
    /// response): the response is dropped silently. Not an error.
    Unmatched,
}

/// The id counter after one allocation: increments, wrapping on overflow.
pub open spec fn wrap_inc(n: usize) -> usize {
    if n == usize::MAX {
        0
    } else {
        (n + 1) as usize
    }
}

/// The result a waiting caller is woken with: the response's payload, or
/// `FunctionNotFound` when the response carries none.
pub open spec fn spec_result_of(resp: Response) -> Result<Vec<u8>, CallError> {
    match resp.response {
        Some(b) => Ok(b),
        None => Err(CallError::FunctionNotFound),
    }
}

/// The correlation table after a response with this id has been handled:
/// the matching entry is removed; an unmatched id changes nothing.
pub open spec fn spec_tasks_after_response(
    m: Map<usize, SinkState>,
    id: usize,
) -> Map<usize, SinkState> {
    if m.contains_key(id) {
        m.remove(id)
    } else {
        m
    }
}

/// The correlation table after the caller of `id` abandons its call: the
/// entry stays (the id is still in flight) but its sink is marked, so the
/// eventual response is discarded silently.
pub open spec fn spec_abandon(m: Map<usize, SinkState>, id: usize) -> Map<usize, SinkState> {
    if m.contains_key(id) {
        m.insert(id, SinkState::Abandoned)
    } else {
        m
    }
}

/// What an arriving response produces, as a function of the correlation
/// table it meets.
pub open spec fn spec_delivery(m: Map<usize, SinkState>, resp: Response) -> Delivery {
    if m.contains_key(resp.id) {
        if m[resp.id] is Waiting {
            Delivery::Delivered(spec_result_of(resp))
        } else {
            Delivery::Discarded
        }
    } else {
        Delivery::Unmatched
    }
}

/// One execution unit. The connection to the underlying isolated worker
/// context is owned by the embedding, which relays messages between it and
/// this state machine.
pub struct WebWorker {
    task_limit: Option<CapacityLimiter>,
    current_task: usize,
    open_tasks: CorrelationTable,
}

impl WebWorker {
    /// The correlation table: one entry per in-flight call.
    pub closed spec fn tasks(self) -> Map<usize, SinkState> {
        self.open_tasks@
    }

    /// The permits currently available, or `None` for an unbounded unit.
    pub closed spec fn permits(self) -> Option<nat> {
        match self.task_limit {
            Some(l) => Some(l.permits()),
            None => None,
        }
    }

    /// The id the next submitted call will receive.
    pub closed spec fn next_id(self) -> usize {
        self.current_task
    }

    pub closed spec fn wf(self) -> bool {
        self.open_tasks.wf()
    }

    /// A call can be submitted right away: the unit is unbounded, or a
    /// permit is available.
    pub open spec fn has_capacity(self) -> bool {
        match self.permits() {
            Some(n) => n > 0,
            None => true,
        }
    }

    /// No in-flight id has reached the counter yet; holds from creation
    /// until the counter first wraps, and is what makes consecutively
    /// assigned ids fresh.
    pub open spec fn ids_below_next(self) -> bool {
        forall|id: usize| self.tasks().contains_key(id) ==> id < self.next_id()
    }

    /// A fresh unit: no calls in flight, ids starting at zero, and the
    /// given capacity (`None` disables limiting entirely).
    pub fn new(task_limit: Option<usize>) -> (w: WebWorker)
        ensures
            w.wf(),
            w.tasks() == Map::<usize, SinkState>::empty(),
            w.next_id() == 0,
            w.permits() == (match task_limit {
                Some(n) => Some(n as nat),
                None => None::<nat>,
            }),
    {
        WebWorker {
            task_limit: match task_limit {
                Some(n) => Some(CapacityLimiter::new(n)),
                None => None,
            },
            current_task: 0,
            open_tasks: CorrelationTable::new(),
        }
    }

    /// Whether a submission would proceed right now. A blocking caller
    /// polls this (suspending in between) until it holds, then submits.
    pub fn can_submit(&self) -> (r: bool)
        ensures
            r == self.has_capacity(),
    {
        match &self.task_limit {
            Some(l) => l.available_permits() > 0,
            None => true,
        }
    }

    /// Assigns the next id (wrapping), registers a waiting sink under it,
    /// and builds the request to send: the id, the function name, and the
    /// argument in its wire encoding.
    fn force_submit(&mut self, func_name: &str, arg: Vec<u8>) -> (req: Request)
        requires
            old(self).wf(),
        ensures
            final(self).wf(),
            req.id == old(self).next_id(),
            req.func_name@ == func_name@,
            req.arg@ == spec_encode_bytes(arg@),
            final(self).tasks() == old(self).tasks().insert(req.id, SinkState::Waiting),
            final(self).next_id() == wrap_inc(old(self).next_id()),
            final(self).permits() == old(self).permits(),
    {
        let id = self.current_task;
        self.current_task = if id == usize::MAX {
            0
        } else {
            id + 1
        };
        self.open_tasks.register(id);
        Request { id, func_name: func_name.to_owned(), arg: to_bytes(&arg) }
    }

    /// Non-blocking submission: if a capacity limiter is configured and no
    /// permit is immediately available, fails with [`Full`] and changes
    /// nothing; otherwise takes a permit (if limited) and submits, exactly
    /// as [`WebWorker::submit`] does.
    pub fn try_submit(&mut self, func_name: &str, arg: Vec<u8>) -> (r: Result<Request, Full>)
        requires
            old(self).wf(),
        ensures
            final(self).wf(),
            !old(self).has_capacity() ==> (r is Err && *final(self) == *old(self)),
            old(self).has_capacity() ==> (r matches Ok(req)
                && req.id == old(self).next_id()
                && req.func_name@ == func_name@
                && req.arg@ == spec_encode_bytes(arg@)
                && final(self).tasks() == old(self).tasks().insert(req.id, SinkState::Waiting)
                && final(self).next_id() == wrap_inc(old(self).next_id())
                && final(self).permits() == (match old(self).permits() {
                    Some(n) => Some((n - 1) as nat),
                    None => None::<nat>,
                })),
            old(self).ids_below_next() && old(self).next_id() < usize::MAX ==> final(self).ids_below_next(),
    {
        match &mut self.task_limit {
            Some(l) => {
                match l.try_acquire() {
                    Ok(()) => {},
                    Err(full) => {
                        return Err(full);
                    },
                }
            },
            None => {},
        }
        let req = self.force_submit(func_name, arg);
        proof {
            if old(self).ids_below_next() && old(self).next_id() < usize::MAX {
                assert forall|id: usize| self.tasks().contains_key(id) implies id
                    < self.next_id() by {
                    if id != old(self).next_id() {
                        assert(old(self).tasks().contains_key(id));
                    }
                }
            }
        }
        Ok(req)
    }

    /// Blocking submission, after the embedding has waited for capacity:
    /// takes a permit (if limited), assigns the next id, registers the
    /// waiting sink and returns the request to send. The calling task then
    /// suspends until the response with that id arrives.
    pub fn submit(&mut self, func_name: &str, arg: Vec<u8>) -> (req: Request)
        requires
            old(self).wf(),
            old(self).has_capacity(),
        ensures
            final(self).wf(),
            req.id == old(self).next_id(),
            req.func_name@ == func_name@,
            req.arg@ == spec_encode_bytes(arg@),
            final(self).tasks() == old(self).tasks().insert(req.id, SinkState::Waiting),
            final(self).next_id() == wrap_inc(old(self).next_id()),
            final(self).permits() == (match old(self).permits() {
                Some(n) => Some((n - 1) as nat),
                None => None::<nat>,
            }),
            old(self).ids_below_next() && old(self).next_id() < usize::MAX ==> final(self).ids_below_next(),
    {
        match &mut self.task_limit {
            Some(l) => {
                let r = l.try_acquire();
                assert(r is Ok);
            },
            None => {},
        }
        let req = self.force_submit(func_name, arg);
        proof {
            if old(self).ids_below_next() && old(self).next_id() < usize::MAX {
                assert forall|id: usize| self.tasks().contains_key(id) implies id
                    < self.next_id() by {
                    if id != old(self).next_id() {
                        assert(old(self).tasks().contains_key(id));
                    }
                }
            }
        }
        req
    }

    /// Handles one inbound message: looks the echoed id up in the
    /// correlation table; if a waiting caller is found, removes the entry
    /// and delivers the response's result to it; if the caller abandoned
    /// the call, removes the entry and discards the response; if no entry
    /// matches (late or duplicate response), discards it silently. Runs
    /// independently of any in-flight submission.
    pub fn on_response(&mut self, resp: Response) -> (d: Delivery)
        requires
            old(self).wf(),
        ensures
            final(self).wf(),
            final(self).tasks() == spec_tasks_after_response(old(self).tasks(), resp.id),
            final(self).next_id() == old(self).next_id(),
            final(self).permits() == old(self).permits(),
            d == spec_delivery(old(self).tasks(), resp),
    {
        match self.open_tasks.resolve(resp.id) {
            Some(SinkState::Waiting) => Delivery::Delivered(
                match resp.response {
                    Some(b) => Ok(b),
                    None => Err(CallError::FunctionNotFound),
                },
            ),
            Some(SinkState::Abandoned) => Delivery::Discarded,
            None => Delivery::Unmatched,
        }
    }

    /// Records that the caller of `id` stopped awaiting its response. The
    /// entry stays in the table (the id is still in flight in the worker),
    /// but the eventual response will be discarded silently.
    pub fn abandon(&mut self, id: usize)
        requires
            old(self).wf(),
        ensures
            final(self).wf(),
            final(self).tasks() == spec_abandon(old(self).tasks(), id),
            final(self).next_id() == old(self).next_id(),
            final(self).permits() == old(self).permits(),
    {
        self.open_tasks.abandon(id);
    }

    /// Returns the permit a completed or abandoned call held. A no-op on
    /// an unbounded unit.
    pub fn release_permit(&mut self)
        requires
            old(self).wf(),
            (match old(self).permits() {
                Some(n) => n < usize::MAX,
                None => true,
            }),
        ensures
            final(self).wf(),
            final(self).tasks() == old(self).tasks(),
            final(self).next_id() == old(self).next_id(),
            final(self).permits() == (match old(self).permits() {
                Some(n) => Some((n + 1) as nat),
                None => None::<nat>,
            }),
    {
        match &mut self.task_limit {
            Some(l) => l.release(),
            None => {},
        }
    }

    /// Tears the unit down: empties the correlation table and returns the
    /// ids whose callers were still waiting. Each of them must be resolved
    /// with [`CallError::UnitTerminated`] rather than left to hang.
    pub fn terminate(&mut self) -> (waiting: Vec<usize>)
        requires
            old(self).wf(),
        ensures
            final(self).wf(),
            final(self).tasks() == Map::<usize, SinkState>::empty(),
            final(self).next_id() == old(self).next_id(),
            final(self).permits() == old(self).permits(),
            waiting@.no_duplicates(),
            forall|id: usize| #[trigger]
                waiting@.contains(id) <==> (old(self).tasks().contains_key(id)
                    && old(self).tasks()[id] is Waiting),
    {
        self.open_tasks.drain()
    }

    /// The remaining permits, or `None` if the unit is unbounded.
    pub fn capacity(&self) -> (r: Option<usize>)
        ensures
            (match self.permits() {
                Some(n) => r == Some(n as usize),
                None => r is None,
            }),
    {
        match &self.task_limit {
            Some(l) => Some(l.available_permits()),
            None => None,
        }
    }

    /// The number of calls currently in flight against this unit: exactly
    /// the entries of the correlation table. Read by the load-based
    /// scheduler and by pool-wide load reporting.
    pub fn current_load(&self) -> (n: usize)
        requires
            self.wf(),
        ensures
            n == self.tasks().len(),
    {
        self.open_tasks.len()
    }
}

/// The correlation table after a whole sequence of responses, identified
/// by their echoed ids, has been handled in that order.
pub open spec fn spec_tasks_after_responses(
    m0: Map<usize, SinkState>,
    ids: Seq<usize>,
) -> Map<usize, SinkState>
    decreases ids.len(),
{
    if ids.len() == 0 {
        m0
    } else {
        spec_tasks_after_response(spec_tasks_after_responses(m0, ids.drop_last()), ids.last())
    }
}

/// Handling responses for other ids leaves an entry untouched.
proof fn lemma_responses_leave_other_ids(m0: Map<usize, SinkState>, ids: Seq<usize>, k: usize)
    requires
        !ids.contains(k),
    ensures
        spec_tasks_after_responses(m0, ids).contains_key(k) == m0.contains_key(k),
        m0.contains_key(k) ==> spec_tasks_after_responses(m0, ids)[k] == m0[k],
    decreases ids.len(),
{
    if ids.len() > 0 {
        assert(!ids.drop_last().contains(k)) by {
            if ids.drop_last().contains(k) {
                let j = choose|j: int| 0 <= j < ids.len() - 1 && ids.drop_last()[j] == k;
                assert(ids[j] == k);
            }
        }
        lemma_responses_leave_other_ids(m0, ids.drop_last(), k);
        assert(ids.last() != k);
    }
}

/// Correlation correctness: take any number of calls in flight against one
/// unit, all still awaited, and deliver their responses in an arbitrary
/// order (`ids` lists the distinct in-flight ids in arrival order). When
/// the response echoing `ids[i]` arrives, the table still holds a waiting
/// entry for exactly that id — so, by the contract of
/// [`WebWorker::on_response`], every caller is woken with precisely the
/// result that echoes its own id, whatever the permutation.
pub proof fn lemma_correlation_correctness(m0: Map<usize, SinkState>, ids: Seq<usize>, i: int)
    requires
        ids.no_duplicates(),
        forall|j: int| 0 <= j < ids.len() ==> m0.contains_key(#[trigger] ids[j]) && m0[ids[j]]
            is Waiting,
        0 <= i < ids.len(),
    ensures
        spec_tasks_after_responses(m0, ids.take(i)).contains_key(ids[i]),
        spec_tasks_after_responses(m0, ids.take(i))[ids[i]] is Waiting,
{
    let pre = ids.take(i);
    assert(!pre.contains(ids[i])) by {
        if pre.contains(ids[i]) {
            let j = choose|j: int| 0 <= j < i && pre[j] == ids[i];
            assert(ids[j] == ids[i]);
        }
    }
    lemma_responses_leave_other_ids(m0, pre, ids[i]);
}

/// The delivery form of correlation correctness: under the assumptions of
/// [`lemma_correlation_correctness`], the response echoing `ids[i]` —
/// whatever position `i` takes in the arrival order — is delivered to the
/// caller that is waiting on exactly that id, and carries that response's
/// own result.
pub proof fn lemma_correlation_delivery(
    m0: Map<usize, SinkState>,
    ids: Seq<usize>,
    i: int,
    resp: Response,
)
    requires
        ids.no_duplicates(),
        forall|j: int| 0 <= j < ids.len() ==> m0.contains_key(#[trigger] ids[j]) && m0[ids[j]]
            is Waiting,
        0 <= i < ids.len(),
        resp.id == ids[i],
    ensures
        spec_delivery(spec_tasks_after_responses(m0, ids.take(i)), resp) == Delivery::Delivered(
            spec_result_of(resp),
        ),
{
    lemma_correlation_correctness(m0, ids, i);
}

/// Cancellation safety: a caller abandons its call before the response
/// arrives, and the response is then delivered. The delivery is a silent
/// discard — never an error — the entry is removed as usual, and every
/// other in-flight call's entry is left exactly as it was, so no other
/// caller's resolution is affected.
pub proof fn lemma_cancellation_safety(m: Map<usize, SinkState>, resp: Response)
    requires
        m.contains_key(resp.id),
    ensures
        spec_delivery(spec_abandon(m, resp.id), resp) is Discarded,
        spec_tasks_after_response(spec_abandon(m, resp.id), resp.id) == m.remove(resp.id),
        forall|k: usize|
            k != resp.id && m.contains_key(k) ==> (#[trigger] spec_tasks_after_response(
                spec_abandon(m, resp.id),
                resp.id,
            ).contains_key(k) && spec_tasks_after_response(spec_abandon(m, resp.id), resp.id)[k]
                == m[k]),
{
    assert(spec_tasks_after_response(spec_abandon(m, resp.id), resp.id) =~= m.remove(resp.id));
}

} // verus!
