//! The worker pool: a fixed, ordered collection of execution units plus one
//! scheduler. The pool is the public entry point for dispatching calls; a
//! dispatched call is forwarded to the unit the scheduler selects.

pub mod fan_out;
pub mod scheduler;

use vstd::prelude::*;

use crate::convert::spec_encode_bytes;
use crate::pool::scheduler::Scheduler;
use crate::pool::scheduler::Strategy;
use crate::pool::scheduler::is_min_index;
use crate::webworker::com::Request;
use crate::webworker::com::Response;
use crate::webworker::correlate::SinkState;
use crate::webworker::worker::Delivery;
use crate::webworker::worker::WebWorker;
use crate::webworker::worker::spec_delivery;
use crate::webworker::worker::spec_tasks_after_response;
use crate::webworker::worker::wrap_inc;

verus! {

/// Configuration for a worker pool. Every field is optional; an absent
/// field falls back to its default at construction.
pub struct WorkerPoolOptions {
    /// The bootstrap target the units should load. Absent means the
    /// default, inferred location.
    pub path: Option<String>,
    /// The strategy the pool's scheduler applies; defaults to round-robin.
    pub strategy: Option<Strategy>,
    /// The number of units to spawn; defaults to the machine's hardware
    /// concurrency, which the embedding reports.
    pub num_workers: Option<usize>,
}

impl Default for WorkerPoolOptions {
    /// All fields absent: every setting falls back to its default.
    fn default() -> (r: Self)
        ensures
            r.path is None,
            r.strategy is None,
            r.num_workers is None,
    {
        WorkerPoolOptions { path: None, strategy: None, num_workers: None }
    }
}

impl WorkerPoolOptions {
    /// Creates the default options.
    pub fn new() -> (r: Self)
        ensures
            r.path is None,
            r.strategy is None,
            r.num_workers is None,
    {
        Default::default()
    }

    /// Returns the path to be used, if one was configured.
    pub fn path(&self) -> (r: Option<&str>)
        ensures
            r is Some <==> self.path is Some,
            self.path matches Some(q) ==> (r matches Some(p) && p@ == q@),
    {
        match &self.path {
            Some(p) => Some(p.as_str()),
            None => None,
        }
    }

    /// Returns the configured strategy, or the default strategy.
    pub fn strategy(&self) -> (r: Strategy)
        ensures
            r == (match self.strategy {
                Some(s) => s,
                None => Strategy::RoundRobin,
            }),
    {
        match self.strategy {
            Some(s) => s,
            None => Strategy::RoundRobin,
        }
    }

    /// Returns the number of workers to spawn. The caller passes the
    /// machine's hardware concurrency, which an absent field falls back to.
    pub fn num_workers(&self, hardware_concurrency: usize) -> (r: usize)
        ensures
            r == (match self.num_workers {
                Some(n) => n,
                None => hardware_concurrency,
            }),
    {
        match self.num_workers {
            Some(n) => n,
            None => hardware_concurrency,
        }
    }
}

/// The sum of the units' loads.
pub open spec fn spec_total_load(ws: Seq<WebWorker>) -> nat
    decreases ws.len(),
{
    if ws.len() == 0 {
        0
    } else {
        spec_total_load(ws.drop_last()) + ws.last().tasks().len()
    }
}

proof fn lemma_total_load_prefix(ws: Seq<WebWorker>, j: int)
    requires
        0 <= j <= ws.len(),
    ensures
        spec_total_load(ws.take(j)) <= spec_total_load(ws),
    decreases ws.len() - j,
{
    if j < ws.len() {
        lemma_total_load_prefix(ws, j + 1);
        assert(ws.take(j + 1).drop_last() =~= ws.take(j));
    } else {
        assert(ws.take(j) =~= ws);
    }
}

/// A pool of execution units and the scheduler that distributes calls
/// among them. The underlying worker connections are owned by the
/// embedding; this is the pool's verified scheduling and correlation
/// state.
pub struct WebWorkerPool {
    workers: Vec<WebWorker>,
    scheduler: Scheduler,
}

impl WebWorkerPool {
    /// The pool's units, in their fixed order.
    pub closed spec fn workers(self) -> Seq<WebWorker> {
        self.workers@
    }

    /// The pool's scheduler state.
    pub closed spec fn scheduler(self) -> Scheduler {
        self.scheduler
    }

    /// The units' current loads, in unit order: what the scheduler's
    /// load-based strategy inspects.
    pub open spec fn loads(self) -> Seq<usize> {
        Seq::new(self.workers().len(), |i: int| self.workers()[i].tasks().len() as usize)
    }

    /// The number of calls in flight against the whole pool.
    pub open spec fn total_load(self) -> nat {
        spec_total_load(self.workers())
    }

    /// A well-formed pool: at least one unit, all units well-formed and
    /// without a task limit (the pool does not impose one), and the
    /// scheduler cursor within range.
    pub open spec fn wf(self) -> bool {
        &&& self.workers().len() > 0
        &&& (forall|i: int| 0 <= i < self.workers().len() ==> (#[trigger] self.workers()[i]).wf())
        &&& (forall|i: int|
            0 <= i < self.workers().len() ==> (#[trigger] self.workers()[i]).permits() is None)
        &&& self.scheduler().cursor() < self.workers().len()
    }

    /// A pool of `num_workers` fresh, unbounded units and a scheduler
    /// applying `strategy`. The embedding bootstraps the underlying worker
    /// contexts concurrently and fail-fast before handing their
    /// connections to a pool; no partially initialized pool exists. A pool
    /// holds at least one unit: one without units could never dispatch a
    /// call, so it cannot be constructed in the first place.
    pub fn new(num_workers: usize, strategy: Strategy) -> (pool: Self)
        requires
            num_workers > 0,
        ensures
            pool.wf(),
            pool.workers().len() == num_workers,
            forall|i: int|
                0 <= i < num_workers ==> (#[trigger] pool.workers()[i]).tasks() == Map::<
                    usize,
                    SinkState,
                >::empty() && pool.workers()[i].next_id() == 0,
            pool.scheduler().strategy() == strategy,
            pool.scheduler().cursor() == 0,
    {
        let mut workers: Vec<WebWorker> = Vec::new();
        let mut i: usize = 0;
        while i < num_workers
            invariant
                i <= num_workers,
                workers@.len() == i,
                forall|j: int|
                    0 <= j < i ==> (#[trigger] workers@[j]).wf() && workers@[j].tasks() == Map::<
                        usize,
                        SinkState,
                    >::empty() && workers@[j].next_id() == 0 && workers@[j].permits() is None,
            decreases num_workers - i,
        {
            workers.push(WebWorker::new(None));
            i = i + 1;
        }
        WebWorkerPool { workers, scheduler: Scheduler::new(strategy) }
    }

    /// The units' current loads, in unit order.
    fn gather_loads(&self) -> (loads: Vec<usize>)
        requires
            self.wf(),
        ensures
            loads@ == self.loads(),
    {
        let n = self.workers.len();
        let mut loads: Vec<usize> = Vec::new();
        let mut i: usize = 0;
        while i < n
            invariant
                i <= n,
                n == self.workers@.len(),
                self.wf(),
                loads@.len() == i,
                forall|j: int| 0 <= j < i ==> loads@[j] == self.loads()[j],
            decreases n - i,
        {
            loads.push(self.workers[i].current_load());
            i = i + 1;
        }
        proof {
            assert(loads@ =~= self.loads());
        }
        loads
    }

    /// Dispatches one call: selects a unit via the scheduler, submits the
    /// call to it, and returns the selected unit's index together with the
    /// request to send to that unit's worker context. The caller then
    /// suspends until the response with the request's id arrives.
    pub fn dispatch(&mut self, func_name: &str, arg: Vec<u8>) -> (r: (usize, Request))
        requires
            old(self).wf(),
        ensures
            final(self).wf(),
            final(self).workers().len() == old(self).workers().len(),
            r.0 < old(self).workers().len(),
            final(self).scheduler().strategy() == old(self).scheduler().strategy(),
            old(self).scheduler().strategy() is RoundRobin ==> r.0 == old(self).scheduler().cursor()
                && final(self).scheduler().cursor() == (old(self).scheduler().cursor() + 1) % (old(
            self).workers().len() as int),
            old(self).scheduler().strategy() is LoadBased ==> is_min_index(
                old(self).loads(),
                r.0 as int,
            ) && final(self).scheduler().cursor() == old(self).scheduler().cursor(),
            r.1.id == old(self).workers()[r.0 as int].next_id(),
            r.1.func_name@ == func_name@,
            r.1.arg@ == spec_encode_bytes(arg@),
            final(self).workers()[r.0 as int].tasks() == old(self).workers()[r.0 as int].tasks().insert(
                r.1.id,
                SinkState::Waiting,
            ),
            final(self).workers()[r.0 as int].next_id() == wrap_inc(
                old(self).workers()[r.0 as int].next_id(),
            ),
            forall|i: int|
                0 <= i < old(self).workers().len() && i != r.0 ==> final(self).workers()[i] == old(self).workers()[i],
            old(self).workers()[r.0 as int].ids_below_next() && old(self).workers()[r.0 as int].next_id() < usize::MAX ==> final(self).workers()[r.0 as int].ids_below_next(),
    {
        let loads = self.gather_loads();
        let worker_id = self.scheduler.schedule(&loads);
        let unit = vstd::std_specs::vec::vec_index_mut(&mut self.workers, worker_id);
        let req = unit.submit(func_name, arg);
        (worker_id, req)
    }

    /// Routes one inbound message from unit `worker_id` to that unit's
    /// correlation table; every other unit is untouched.
    pub fn on_response(&mut self, worker_id: usize, resp: Response) -> (d: Delivery)
        requires
            old(self).wf(),
            worker_id < old(self).workers().len(),
        ensures
            final(self).wf(),
            final(self).workers().len() == old(self).workers().len(),
            final(self).scheduler() == old(self).scheduler(),
            d == spec_delivery(old(self).workers()[worker_id as int].tasks(), resp),
            final(self).workers()[worker_id as int].tasks() == spec_tasks_after_response(
                old(self).workers()[worker_id as int].tasks(),
                resp.id,
            ),
            final(self).workers()[worker_id as int].next_id() == old(self).workers()[worker_id as int].next_id(),
            forall|i: int|
                0 <= i < old(self).workers().len() && i != worker_id ==> final(self).workers()[i]
                    == old(self).workers()[i],
    {
        let unit = vstd::std_specs::vec::vec_index_mut(&mut self.workers, worker_id);
        unit.on_response(resp)
    }

    /// The number of calls currently in flight against the whole pool: the
    /// sum of the units' loads.
    pub fn current_load(&self) -> (n: usize)
        requires
            self.wf(),
            self.total_load() <= usize::MAX,
        ensures
            n == self.total_load(),
    {
        let k = self.workers.len();
        let mut n: usize = 0;
        let mut i: usize = 0;
        while i < k
            invariant
                i <= k,
                k == self.workers@.len(),
                self.wf(),
                self.total_load() <= usize::MAX,
                n == spec_total_load(self.workers@.take(i as int)),
            decreases k - i,
        {
            proof {
                assert(self.workers@.take(i as int + 1).drop_last() =~= self.workers@.take(
                    i as int,
                ));
                assert(self.workers@.take(i as int + 1).last() == self.workers@[i as int]);
                lemma_total_load_prefix(self.workers@, i as int + 1);
            }
            n = n + self.workers[i].current_load();
            i = i + 1;
        }
        proof {
            assert(self.workers@.take(k as int) =~= self.workers@);
        }
        n
    }

    /// The number of units in the pool.
    pub fn num_workers(&self) -> (n: usize)
        ensures
            n == self.workers().len(),
    {
        self.workers.len()
    }
}

} // verus!
