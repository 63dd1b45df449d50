//! The fan-out (parallel map) helper: one call per input, all submitted
//! across the pool before any is awaited, results collected in input
//! order.
//!
//! Each input is assigned a slot at submission; a slot is identified by
//! the pair of selected unit and call id, and those pairs are pairwise
//! distinct. Responses may be recorded in any order — output order is
//! fixed by the slots, never by completion order or by which unit handled
//! which element.

use vstd::prelude::*;

use crate::convert::spec_encode_bytes;
use crate::pool::WebWorkerPool;
use crate::webworker::com::Request;

verus! {

/// An in-progress fan-out: slot `i` belongs to input `i` and holds, once
/// recorded, the payload of the response to call `calls()[i]`.
pub struct FanOut {
    calls: Vec<(usize, usize)>,
    results: Vec<Option<Vec<u8>>>,
}

impl FanOut {
    /// The (unit index, call id) pair of each slot, in input order.
    pub closed spec fn calls(self) -> Seq<(usize, usize)> {
        self.calls@
    }

    /// The recorded payloads, in input order.
    pub closed spec fn results(self) -> Seq<Option<Vec<u8>>> {
        self.results@
    }

    /// One result slot per call, and pairwise distinct call pairs: a
    /// response identifies exactly one slot.
    pub open spec fn wf(self) -> bool {
        &&& self.calls().len() == self.results().len()
        &&& (forall|i: int, j: int|
            0 <= i < j < self.calls().len() ==> self.calls()[i] != self.calls()[j])
    }

    /// Every slot has its payload: the fan-out is ready to be collected.
    pub open spec fn complete(self) -> bool {
        forall|i: int| 0 <= i < self.results().len() ==> (#[trigger] self.results()[i]) is Some
    }

    /// The number of calls fanned out.
    pub fn num_calls(&self) -> (n: usize)
        ensures
            n == self.calls().len(),
    {
        self.calls.len()
    }

    /// Records the payload of the response to call `(worker_id, id)` in
    /// the slot of the input that produced that call. Succeeds exactly
    /// when a slot is still open for that pair; otherwise (a late or
    /// duplicate response) it returns `false` and changes nothing —
    /// discarded silently, as the unit does.
    pub fn record(&mut self, worker_id: usize, id: usize, payload: Vec<u8>) -> (r: bool)
        requires
            old(self).wf(),
        ensures
            final(self).wf(),
            final(self).calls() == old(self).calls(),
            r <==> (exists|j: int|
                0 <= j < old(self).calls().len() && old(self).calls()[j] == (worker_id, id) && old(
                    self,
                ).results()[j] is None),
            r ==> (exists|j: int|
                0 <= j < old(self).calls().len() && old(self).calls()[j] == (worker_id, id) && old(self).results()[j] is None && final(self).results() == old(self).results().update(
                    j,
                    Some(payload),
                )),
            !r ==> *final(self) == *old(self),
    {
        let n = self.calls.len();
        let mut j: usize = 0;
        while j < n
            invariant
                j <= n,
                n == self.calls@.len(),
                old(self).wf(),
                *self == *old(self),
                forall|k: int|
                    0 <= k < j ==> !(#[trigger] self.calls@[k] == (worker_id, id)
                        && self.results@[k] is None),
            decreases n - j,
        {
            if self.calls[j].0 == worker_id && self.calls[j].1 == id && self.results[j].is_none() {
                proof {
                    assert(old(self).calls()[j as int] == (worker_id, id));
                    assert(old(self).results()[j as int] is None);
                }
                self.results.set(j, Some(payload));
                return true;
            }
            j = j + 1;
        }
        false
    }

    /// Whether every slot has its payload.
    pub fn is_complete(&self) -> (r: bool)
        requires
            self.wf(),
        ensures
            r == self.complete(),
    {
        let n = self.results.len();
        let mut i: usize = 0;
        while i < n
            invariant
                i <= n,
                n == self.results@.len(),
                forall|j: int| 0 <= j < i ==> (#[trigger] self.results@[j]) is Some,
            decreases n - i,
        {
            if self.results[i].is_none() {
                return false;
            }
            i = i + 1;
        }
        true
    }

    /// Collects the payloads in input order: output `i` is the payload
    /// recorded for call `i`, whatever order the responses arrived in.
    pub fn take_results(self) -> (out: Vec<Vec<u8>>)
        requires
            self.wf(),
            self.complete(),
        ensures
            out@.len() == self.results().len(),
            forall|i: int| 0 <= i < out@.len() ==> Some(#[trigger] out@[i]) == self.results()[i],
    {
        let FanOut { calls: _, results } = self;
        let mut results = results;
        let ghost results0 = results@;
        let mut out: Vec<Vec<u8>> = Vec::new();
        let n = results.len();
        let mut i: usize = 0;
        while i < n
            invariant
                i <= n,
                n == results0.len(),
                results@ =~= results0.skip(i as int),
                out@.len() == i,
                forall|k: int| 0 <= k < results0.len() ==> (#[trigger] results0[k]) is Some,
                forall|k: int| 0 <= k < i ==> Some(#[trigger] out@[k]) == results0[k],
            decreases n - i,
        {
            let v = results.remove(0);
            proof {
                assert(results0.skip(i as int)[0] == results0[i as int]);
                assert(results0.skip(i as int).skip(1) =~= results0.skip(i as int + 1));
            }
            out.push(v.unwrap());
            i = i + 1;
        }
        out
    }
}

/// Fan-out ordering: in a well-formed fan-out the call pairs are pairwise
/// distinct, so the response to a call identifies exactly one slot — the
/// slot of the input that produced the call. Together with the contract
/// of [`FanOut::take_results`], output `i` is the result for input `i`,
/// regardless of which unit handled which element.
pub proof fn lemma_fan_out_slot_unique(fo: FanOut, i: int, j: int)
    requires
        fo.wf(),
        0 <= i < fo.calls().len(),
        0 <= j < fo.calls().len(),
        fo.calls()[i] == fo.calls()[j],
    ensures
        i == j,
{
}

impl WebWorkerPool {
    /// Fans one call per input out across the pool: every call is
    /// submitted (in input order, units selected by the scheduler) before
    /// any response is awaited. Returns the fan-out tracking one slot per
    /// input and, for each input, the unit index and request to send.
    /// After every call's response has been recorded, slot `i` holds the
    /// answer to input `i`.
    pub fn submit_all(&mut self, func_name: &str, args: Vec<Vec<u8>>) -> (r: (FanOut, Vec<
        (usize, Request),
    >))
        requires
            old(self).wf(),
            forall|w: int|
                0 <= w < old(self).workers().len() ==> (#[trigger] old(self).workers()[w]).ids_below_next(),
            forall|w: int|
                0 <= w < old(self).workers().len() ==> (#[trigger] old(self).workers()[w]).next_id() + args@.len() <= usize::MAX,
        ensures
            final(self).wf(),
            final(self).workers().len() == old(self).workers().len(),
            final(self).scheduler().strategy() == old(self).scheduler().strategy(),
            r.0.wf(),
            r.0.calls().len() == args@.len(),
            forall|i: int| 0 <= i < args@.len() ==> (#[trigger] r.0.results()[i]) is None,
            r.1@.len() == args@.len(),
            forall|i: int|
                0 <= i < args@.len() ==> (#[trigger] r.1@[i]).0 == r.0.calls()[i].0 && r.1@[i].1.id
                    == r.0.calls()[i].1 && r.1@[i].0 < old(self).workers().len(),
            forall|i: int| 0 <= i < args@.len() ==> (#[trigger] r.1@[i]).1.func_name@ == func_name@,
            forall|i: int|
                0 <= i < args@.len() ==> (#[trigger] r.1@[i]).1.arg@ == spec_encode_bytes(
                    args@[i]@,
                ),
            forall|i: int|
                0 <= i < args@.len() ==> final(self).workers()[(#[trigger] r.0.calls()[i]).0 as int].tasks().contains_key(
                    r.0.calls()[i].1,
                ) && final(self).workers()[r.0.calls()[i].0 as int].tasks()[r.0.calls()[i].1]
                    is Waiting,
    {
        let ghost args0 = args@;
        let mut args = args;
        let mut calls: Vec<(usize, usize)> = Vec::new();
        let mut results: Vec<Option<Vec<u8>>> = Vec::new();
        let mut out: Vec<(usize, Request)> = Vec::new();
        let n = args.len();
        let mut idx: usize = 0;
        while idx < n
            invariant
                idx <= n,
                n == args0.len(),
                args@ =~= args0.skip(idx as int),
                self.wf(),
                self.workers().len() == old(self).workers().len(),
                self.scheduler().strategy() == old(self).scheduler().strategy(),
                calls@.len() == idx,
                results@.len() == idx,
                out@.len() == idx,
                forall|i: int| 0 <= i < idx ==> (#[trigger] results@[i]) is None,
                forall|i: int|
                    0 <= i < idx ==> (#[trigger] calls@[i]).0 < self.workers().len(),
                forall|i: int|
                    0 <= i < idx ==> (#[trigger] calls@[i]).1 < self.workers()[calls@[i].0 as int].next_id(),
                forall|i: int, j: int| 0 <= i < j < idx ==> calls@[i] != calls@[j],
                forall|i: int|
                    0 <= i < idx ==> self.workers()[(#[trigger] calls@[i]).0 as int].tasks().contains_key(
                        calls@[i].1,
                    ) && self.workers()[calls@[i].0 as int].tasks()[calls@[i].1] is Waiting,
                forall|w: int|
                    0 <= w < self.workers().len() ==> (#[trigger] self.workers()[w]).ids_below_next(),
                forall|w: int|
                    0 <= w < self.workers().len() ==> (#[trigger] self.workers()[w]).next_id() + (n
                        - idx) <= usize::MAX,
                forall|i: int|
                    0 <= i < idx ==> (#[trigger] out@[i]).0 == calls@[i].0 && out@[i].1.id
                        == calls@[i].1,
                forall|i: int| 0 <= i < idx ==> (#[trigger] out@[i]).1.func_name@ == func_name@,
                forall|i: int|
                    0 <= i < idx ==> (#[trigger] out@[i]).1.arg@ == spec_encode_bytes(args0[i]@),
            decreases n - idx,
        {
            let arg = args.remove(0);
            proof {
                assert(args0.skip(idx as int)[0] == args0[idx as int]);
                assert(args0.skip(idx as int).skip(1) =~= args0.skip(idx as int + 1));
            }
            let ghost pre = *self;
            let (w, req) = self.dispatch(func_name, arg);
            proof {
                assert(pre.workers()[w as int].next_id() < usize::MAX);
                assert forall|i: int| 0 <= i < idx implies (#[trigger] calls@[i]).1
                    < self.workers()[calls@[i].0 as int].next_id() by {
                    if calls@[i].0 == w {
                        assert(pre.workers()[w as int].next_id() <= self.workers()[w as int].next_id());
                    }
                }
                assert forall|i: int|
                    0 <= i < idx implies self.workers()[(#[trigger] calls@[i]).0 as int].tasks().contains_key(
                    calls@[i].1,
                ) && self.workers()[calls@[i].0 as int].tasks()[calls@[i].1] is Waiting by {
                    if calls@[i].0 == w {
                        assert(calls@[i].1 != req.id);
                    }
                }
            }
            calls.push((w, req.id));
            results.push(None);
            out.push((w, req));
            idx = idx + 1;
        }
        (FanOut { calls, results }, out)
    }
}

} // verus!
