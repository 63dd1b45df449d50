//! The scheduler: the policy object that, given the pool's units, picks
//! which unit receives the next call.
//!
//! Two strategies are supported. Round-robin keeps a single cursor and is
//! fair by construction: over any `k * q` consecutive selections on a pool
//! of `k` units, every unit is picked exactly `q` times, in cyclic order
//! from the first unused cursor position ([`lemma_round_robin_fairness`]).
//! Load-based scans the units' current loads and picks the index of the
//! minimum, lowest index first on ties.

use vstd::prelude::*;

use vstd::arithmetic::div_mod::lemma_add_mod_noop;
use vstd::arithmetic::div_mod::lemma_mod_multiples_vanish;
use vstd::arithmetic::div_mod::lemma_small_mod;

verus! {

/// The supported strategies for distributing tasks within the worker pool.
#[derive(Debug, Clone, Copy, PartialEq, Eq, Structural)]
pub enum Strategy {
    /// Allocate tasks cyclically, ignoring load: fairness by construction
    /// rather than by measurement.
    RoundRobin,
    /// Allocate each task to the worker with the lowest number of tasks
    /// already scheduled; of several equally loaded workers the first one
    /// is chosen.
    LoadBased,
}

impl Default for Strategy {
    /// The default strategy is round-robin.
    fn default() -> (r: Self)
        ensures
            r == Strategy::RoundRobin,
    {
        Strategy::RoundRobin
    }
}

/// `i` is the index the load-based strategy must return for these loads:
/// it carries the minimum load, and every earlier index carries strictly
/// more.
pub open spec fn is_min_index(loads: Seq<usize>, i: int) -> bool {
    &&& 0 <= i < loads.len()
    &&& (forall|j: int| 0 <= j < loads.len() ==> loads[i] <= #[trigger] loads[j])
    &&& (forall|j: int| 0 <= j < i ==> #[trigger] loads[j] > loads[i])
}

/// The scheduler object: the chosen strategy plus the cursor that the
/// round-robin strategy advances. The cursor is the only state shared by
/// all calls into one pool, and it is read and advanced in a single
/// exclusive access.
pub struct Scheduler {
    strategy: Strategy,
    current_worker: usize,
}

impl Scheduler {
    /// The strategy chosen at pool construction.
    pub closed spec fn strategy(self) -> Strategy {
        self.strategy
    }

    /// The next cursor position of the round-robin strategy.
    pub closed spec fn cursor(self) -> usize {
        self.current_worker
    }

    /// Initialize a new scheduler with its cursor at the first unit.
    pub fn new(strategy: Strategy) -> (s: Self)
        ensures
            s.strategy() == strategy,
            s.cursor() == 0,
    {
        Scheduler { strategy, current_worker: 0 }
    }

    /// Given the units' current loads, apply the strategy and determine
    /// which worker should receive the next task. Round-robin returns the
    /// cursor and advances it modulo the number of units; load-based
    /// returns the index of the minimum load, the lowest index on ties,
    /// and leaves the cursor alone.
    pub fn schedule(&mut self, loads: &Vec<usize>) -> (worker_id: usize)
        requires
            loads@.len() > 0,
            old(self).cursor() < loads@.len(),
        ensures
            worker_id < loads@.len(),
            final(self).strategy() == old(self).strategy(),
            final(self).cursor() < loads@.len(),
            old(self).strategy() is RoundRobin ==> worker_id == old(self).cursor()
                && final(self).cursor() == (old(self).cursor() + 1) % (loads@.len() as int),
            old(self).strategy() is LoadBased ==> is_min_index(loads@, worker_id as int)
                && final(self).cursor() == old(self).cursor(),
    {
        match self.strategy {
            Strategy::RoundRobin => {
                let n = loads.len();
                let worker_id = self.current_worker;
                self.current_worker = (worker_id + 1) % n;
                worker_id
            },
            Strategy::LoadBased => {
                let n = loads.len();
                let mut best: usize = 0;
                let mut i: usize = 1;
                while i < n
                    invariant
                        n == loads@.len(),
                        best < i <= n,
                        forall|j: int| 0 <= j < i ==> loads@[best as int] <= #[trigger] loads@[j],
                        forall|j: int| 0 <= j < best ==> #[trigger] loads@[j] > loads@[best as int],
                    decreases n - i,
                {
                    if loads[i] < loads[best] {
                        best = i;
                    }
                    i = i + 1;
                }
                best
            },
        }
    }
}

/// The unit the `j`-th of a run of round-robin selections picks, starting
/// with the cursor at `c0` on a pool of `k` units: by the contract of
/// [`Scheduler::schedule`], each selection returns the cursor and advances
/// it by one modulo `k`.
pub open spec fn rr_pick(c0: nat, j: nat, k: nat) -> nat {
    (((c0 + j) as int % (k as int))) as nat
}

/// A run of selections follows [`rr_pick`] step by step: advancing the
/// cursor `(c0 + j) % k` by one modulo `k`, as each selection does, lands
/// on `(c0 + (j + 1)) % k`.
pub proof fn lemma_rr_pick_step(c0: nat, j: nat, k: nat)
    requires
        k > 0,
    ensures
        rr_pick(c0, j + 1, k) == ((rr_pick(c0, j, k) + 1) as int % (k as int)),
{
    let a = (c0 + j) as int;
    lemma_add_mod_noop(a, 1, k as int);
    if k == 1 {
        lemma_small_mod(0, 1);
    } else {
        lemma_small_mod(1, k);
    }
}

/// How many of the first `m` selections of such a run pick unit `u`.
pub open spec fn rr_count(c0: nat, m: nat, k: nat, u: nat) -> nat
    decreases m,
{
    if m == 0 {
        0
    } else {
        rr_count(c0, (m - 1) as nat, k, u) + (if rr_pick(c0, (m - 1) as nat, k) == u {
            1nat
        } else {
            0nat
        })
    }
}

/// The first selection position at which unit `u` is picked: the offset of
/// `u` from the starting cursor, cyclically.
pub open spec fn rr_first_hit(c0: nat, k: nat, u: nat) -> nat {
    if u >= c0 {
        (u - c0) as nat
    } else {
        (u + k - c0) as nat
    }
}

/// Within one cycle of `k` selections, unit `u` is picked at position
/// `rr_first_hit(c0, k, u)` and at no other.
proof fn lemma_rr_hit_iff(c0: nat, k: nat, u: nat, j: nat)
    requires
        c0 < k,
        u < k,
        j < k,
    ensures
        rr_pick(c0, j, k) == u <==> j == rr_first_hit(c0, k, u),
{
    let j0 = rr_first_hit(c0, k, u);
    if u >= c0 {
        lemma_small_mod(u, k);
        assert(rr_pick(c0, j0, k) == u);
    } else {
        lemma_mod_multiples_vanish(1, u as int, k as int);
        lemma_small_mod(u, k);
        assert(rr_pick(c0, j0, k) == u);
    }
    if rr_pick(c0, j, k) == u {
        if c0 + j < k {
            lemma_small_mod(c0 + j, k);
            assert(j == j0);
        } else {
            lemma_mod_multiples_vanish(1, (c0 + j - k) as int, k as int);
            lemma_small_mod((c0 + j - k) as nat, k);
            assert(j == j0);
        }
    }
}

/// Selections repeat with period `k`.
proof fn lemma_rr_pick_periodic(c0: nat, j: nat, k: nat)
    requires
        k > 0,
    ensures
        rr_pick(c0, j + k, k) == rr_pick(c0, j, k),
{
    lemma_mod_multiples_vanish(1, (c0 + j) as int, k as int);
}

/// Over the first `m <= k` selections, unit `u` has been picked once if
/// its first hit lies within them, and not at all otherwise.
proof fn lemma_rr_count_partial_cycle(c0: nat, k: nat, u: nat, m: nat)
    requires
        c0 < k,
        u < k,
        m <= k,
    ensures
        rr_count(c0, m, k, u) == (if m > rr_first_hit(c0, k, u) {
            1nat
        } else {
            0nat
        }),
    decreases m,
{
    if m > 0 {
        lemma_rr_count_partial_cycle(c0, k, u, (m - 1) as nat);
        lemma_rr_hit_iff(c0, k, u, (m - 1) as nat);
    }
}

/// Each further full cycle of `k` selections picks unit `u` exactly once
/// more.
proof fn lemma_rr_count_cycle_step(c0: nat, k: nat, u: nat, m: nat)
    requires
        c0 < k,
        u < k,
    ensures
        rr_count(c0, m + k, k, u) == rr_count(c0, m, k, u) + 1,
    decreases m,
{
    if m == 0 {
        lemma_rr_count_partial_cycle(c0, k, u, k);
        assert(rr_first_hit(c0, k, u) < k);
    } else {
        lemma_rr_count_cycle_step(c0, k, u, (m - 1) as nat);
        lemma_rr_pick_periodic(c0, (m - 1) as nat, k);
        assert(m + k - 1 == (m - 1) + k);
    }
}

/// Round-robin fairness: a pool of `k` units receives `m = k * q`
/// submitted calls, selections starting with the cursor at `c0`. Every
/// unit is picked exactly `q` times; which positions pick it follows
/// [`rr_first_hit`], cyclically from the first unused cursor position.
pub proof fn lemma_round_robin_fairness(c0: nat, k: nat, q: nat, u: nat)
    requires
        c0 < k,
        u < k,
    ensures
        rr_count(c0, k * q, k, u) == q,
    decreases q,
{
    if q == 0 {
        assert(k * q == 0) by (nonlinear_arith)
            requires
                q == 0,
        ;
    } else {
        lemma_round_robin_fairness(c0, k, (q - 1) as nat, u);
        assert(k * q == k * ((q - 1) as nat) + k) by (nonlinear_arith)
            requires
                q >= 1,
        ;
        lemma_rr_count_cycle_step(c0, k, u, k * ((q - 1) as nat));
    }
}

} // verus!
