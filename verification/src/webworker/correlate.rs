//! The correlation table of one execution unit: a mapping from call id to
//! the state of the single-use completion sink waiting for that call.
//!
//! Many calls may be in flight against one unit at once, and responses may
//! arrive in any order. The table is the only state needed to reconstruct,
//! for an arbitrarily reordered stream of responses, which suspended caller
//! should be woken with which payload: an entry is inserted when a call is
//! submitted and removed exactly once, by the response that echoes its id.

use vstd::prelude::*;

verus! {

/// The state of the completion sink registered for an in-flight call:
/// either the caller is still awaiting the response, or it has abandoned
/// the call (its entry stays in the table until the response arrives and
/// is then discarded silently).
#[derive(Debug, PartialEq, Eq, Structural, Clone, Copy)]
pub enum SinkState {
    /// The caller is suspended, awaiting the response for this id.
    Waiting,
    /// The caller stopped awaiting before the response arrived.
    Abandoned,
}

/// One in-flight call: its id and the state of its completion sink.
struct TaskEntry {
    id: usize,
    sink: SinkState,
}

/// No two entries carry the same id.
spec fn distinct_ids(s: Seq<TaskEntry>) -> bool {
    forall|i: int, j: int| 0 <= i < j < s.len() ==> s[i].id != s[j].id
}

/// The mapping an entry sequence stands for.
spec fn map_of(s: Seq<TaskEntry>) -> Map<usize, SinkState>
    decreases s.len(),
{
    if s.len() == 0 {
        Map::empty()
    } else {
        map_of(s.drop_last()).insert(s.last().id, s.last().sink)
    }
}

proof fn lemma_map_of_contains(s: Seq<TaskEntry>, k: usize)
    ensures
        map_of(s).contains_key(k) <==> exists|i: int| 0 <= i < s.len() && s[i].id == k,
    decreases s.len(),
{
    if s.len() > 0 {
        lemma_map_of_contains(s.drop_last(), k);
        if s.last().id == k {
            assert(s[s.len() - 1].id == k);
        } else {
            if exists|i: int| 0 <= i < s.len() && s[i].id == k {
                let i = choose|i: int| 0 <= i < s.len() && s[i].id == k;
                assert(s.drop_last()[i].id == k);
            }
        }
    }
}

proof fn lemma_map_of_finite(s: Seq<TaskEntry>)
    ensures
        map_of(s).dom().finite(),
    decreases s.len(),
{
    if s.len() > 0 {
        lemma_map_of_finite(s.drop_last());
    }
}

proof fn lemma_map_of_index(s: Seq<TaskEntry>, i: int)
    requires
        distinct_ids(s),
        0 <= i < s.len(),
    ensures
        map_of(s).contains_key(s[i].id),
        map_of(s)[s[i].id] == s[i].sink,
    decreases s.len(),
{
    if i == s.len() - 1 {
    } else {
        assert(distinct_ids(s.drop_last()));
        lemma_map_of_index(s.drop_last(), i);
        assert(s.last().id != s[i].id);
    }
}

proof fn lemma_map_of_len(s: Seq<TaskEntry>)
    requires
        distinct_ids(s),
    ensures
        map_of(s).dom().finite(),
        map_of(s).dom().len() == s.len(),
    decreases s.len(),
{
    lemma_map_of_finite(s);
    if s.len() > 0 {
        assert(distinct_ids(s.drop_last()));
        lemma_map_of_len(s.drop_last());
        lemma_map_of_contains(s.drop_last(), s.last().id);
        assert(forall|i: int| 0 <= i < s.len() - 1 ==> s[i].id != s.last().id);
        assert(!map_of(s.drop_last()).contains_key(s.last().id));
        assert(map_of(s).dom() =~= map_of(s.drop_last()).dom().insert(s.last().id));
    }
}

proof fn lemma_map_of_push(s: Seq<TaskEntry>, e: TaskEntry)
    ensures
        map_of(s.push(e)) == map_of(s).insert(e.id, e.sink),
{
    assert(s.push(e).drop_last() =~= s);
    assert(s.push(e).last() == e);
}

proof fn lemma_map_of_update(s: Seq<TaskEntry>, i: int, e: TaskEntry)
    requires
        distinct_ids(s),
        0 <= i < s.len(),
        e.id == s[i].id,
    ensures
        map_of(s.update(i, e)) == map_of(s).insert(e.id, e.sink),
    decreases s.len(),
{
    let t = s.update(i, e);
    if i == s.len() - 1 {
        assert(t.drop_last() =~= s.drop_last());
        assert(t.last() == e);
        assert(map_of(s.drop_last()).insert(e.id, e.sink) =~= map_of(s).insert(e.id, e.sink));
    } else {
        assert(t.drop_last() =~= s.drop_last().update(i, e));
        assert(t.last() == s.last());
        assert(distinct_ids(s.drop_last()));
        assert(s.drop_last()[i] == s[i]);
        lemma_map_of_update(s.drop_last(), i, e);
        assert(s.last().id != e.id);
        assert(map_of(s.drop_last()).insert(e.id, e.sink).insert(s.last().id, s.last().sink)
            =~= map_of(s).insert(e.id, e.sink));
    }
}

proof fn lemma_map_of_remove(s: Seq<TaskEntry>, i: int)
    requires
        distinct_ids(s),
        0 <= i < s.len(),
    ensures
        map_of(s.remove(i)) == map_of(s).remove(s[i].id),
    decreases s.len(),
{
    if i == s.len() - 1 {
        assert(s.remove(i) =~= s.drop_last());
        lemma_map_of_contains(s.drop_last(), s.last().id);
        assert(forall|j: int| 0 <= j < s.len() - 1 ==> s[j].id != s.last().id);
        assert(!map_of(s.drop_last()).contains_key(s.last().id));
        assert(map_of(s.drop_last()) =~= map_of(s).remove(s[i].id));
    } else {
        assert(s.remove(i).drop_last() =~= s.drop_last().remove(i));
        assert(s.remove(i).last() == s.last());
        assert(distinct_ids(s.drop_last()));
        assert(s.drop_last()[i] == s[i]);
        lemma_map_of_remove(s.drop_last(), i);
        assert(s.last().id != s[i].id);
        assert(map_of(s.drop_last()).remove(s[i].id).insert(s.last().id, s.last().sink)
            =~= map_of(s).remove(s[i].id));
    }
}

/// The ids of the entries whose callers are still waiting, in table order.
spec fn waiting_ids(s: Seq<TaskEntry>) -> Seq<usize>
    decreases s.len(),
{
    if s.len() == 0 {
        Seq::empty()
    } else if s.last().sink is Waiting {
        waiting_ids(s.drop_last()).push(s.last().id)
    } else {
        waiting_ids(s.drop_last())
    }
}

proof fn lemma_waiting_ids(s: Seq<TaskEntry>)
    requires
        distinct_ids(s),
    ensures
        waiting_ids(s).no_duplicates(),
        forall|id: usize| #[trigger]
            waiting_ids(s).contains(id) <==> (map_of(s).contains_key(id) && map_of(s)[id]
                is Waiting),
    decreases s.len(),
{
    if s.len() > 0 {
        let sd = s.drop_last();
        assert(distinct_ids(sd));
        lemma_waiting_ids(sd);
        lemma_map_of_contains(sd, s.last().id);
        assert(forall|j: int| 0 <= j < s.len() - 1 ==> s[j].id != s.last().id);
        assert(!map_of(sd).contains_key(s.last().id));
        let w = waiting_ids(s);
        let wd = waiting_ids(sd);
        if s.last().sink is Waiting {
            assert(!wd.contains(s.last().id));
            assert forall|k: int, l: int| 0 <= k < l < w.len() implies w[k] != w[l] by {
                if l < w.len() - 1 {
                    assert(wd[k] == w[k] && wd[l] == w[l]);
                } else {
                    assert(w[l] == s.last().id);
                    assert(wd[k] == w[k]);
                    assert(wd.contains(wd[k]));
                }
            }
            assert forall|id: usize| #[trigger] w.contains(id) implies (map_of(s).contains_key(id)
                && map_of(s)[id] is Waiting) by {
                let k = choose|k: int| 0 <= k < w.len() && w[k] == id;
                if k < w.len() - 1 {
                    assert(wd[k] == id);
                    assert(wd.contains(id));
                } else {
                    assert(id == s.last().id);
                }
            }
            assert forall|id: usize|
                map_of(s).contains_key(id) && map_of(s)[id] is Waiting implies #[trigger] w.contains(
                id,
            ) by {
                if id == s.last().id {
                    assert(w[w.len() - 1] == id);
                } else {
                    assert(wd.contains(id));
                    let k = choose|k: int| 0 <= k < wd.len() && wd[k] == id;
                    assert(w[k] == id);
                }
            }
        } else {
            assert(w == wd);
            assert forall|id: usize| #[trigger] w.contains(id) implies (map_of(s).contains_key(id)
                && map_of(s)[id] is Waiting) by {
                assert(wd.contains(id));
                assert(id != s.last().id);
            }
            assert forall|id: usize|
                map_of(s).contains_key(id) && map_of(s)[id] is Waiting implies #[trigger] w.contains(
                id,
            ) by {
                assert(id != s.last().id);
                assert(map_of(sd).contains_key(id) && map_of(sd)[id] is Waiting);
            }
        }
    }
}

/// The correlation table: exclusively owned and mutated by one execution
/// unit. Its view is the mapping from in-flight call id to sink state.
pub struct CorrelationTable {
    entries: Vec<TaskEntry>,
}

impl View for CorrelationTable {
    type V = Map<usize, SinkState>;

    closed spec fn view(&self) -> Map<usize, SinkState> {
        map_of(self.entries@)
    }
}

impl CorrelationTable {
    /// Entries carry pairwise distinct ids; established by `new` and
    /// preserved by every method.
    pub closed spec fn wf(self) -> bool {
        distinct_ids(self.entries@)
    }

    /// An empty table.
    pub fn new() -> (t: Self)
        ensures
            t.wf(),
            t@ == Map::<usize, SinkState>::empty(),
    {
        CorrelationTable { entries: Vec::new() }
    }

    /// The index of the entry for `id`, if there is one.
    fn find(&self, id: usize) -> (r: Option<usize>)
        requires
            self.wf(),
        ensures
            match r {
                Some(i) => i < self.entries@.len() && self.entries@[i as int].id == id,
                None => !self@.contains_key(id),
            },
    {
        let n = self.entries.len();
        let mut i: usize = 0;
        while i < n
            invariant
                i <= n,
                n == self.entries@.len(),
                forall|j: int| 0 <= j < i ==> self.entries@[j].id != id,
            decreases n - i,
        {
            if self.entries[i].id == id {
                return Some(i);
            }
            i = i + 1;
        }
        proof {
            lemma_map_of_contains(self.entries@, id);
        }
        None
    }

    /// Whether a call with this id is in flight.
    pub fn contains(&self, id: usize) -> (r: bool)
        requires
            self.wf(),
        ensures
            r == self@.contains_key(id),
    {
        proof {
            lemma_map_of_contains(self.entries@, id);
        }
        match self.find(id) {
            Some(i) => {
                proof {
                    lemma_map_of_index(self.entries@, i as int);
                }
                true
            },
            None => false,
        }
    }

    /// The number of in-flight calls.
    pub fn len(&self) -> (n: usize)
        requires
            self.wf(),
        ensures
            n == self@.len(),
    {
        proof {
            lemma_map_of_len(self.entries@);
        }
        self.entries.len()
    }

    /// Records a fresh call as waiting. If an entry with the same id is
    /// still present (possible only once the unit's id counter has wrapped
    /// all the way around), it is overwritten, exactly as inserting into
    /// the underlying mapping would.
    pub fn register(&mut self, id: usize)
        requires
            old(self).wf(),
        ensures
            final(self).wf(),
            final(self)@ == old(self)@.insert(id, SinkState::Waiting),
    {
        let e = TaskEntry { id, sink: SinkState::Waiting };
        match self.find(id) {
            Some(i) => {
                proof {
                    lemma_map_of_update(self.entries@, i as int, e);
                }
                self.entries.set(i, e);
            },
            None => {
                proof {
                    lemma_map_of_push(self.entries@, e);
                    lemma_map_of_contains(self.entries@, id);
                }
                self.entries.push(e);
            },
        }
    }

    /// Removes the entry for `id` and returns its sink state, or returns
    /// `None` (leaving the table unchanged) when no call with that id is in
    /// flight.
    pub fn resolve(&mut self, id: usize) -> (r: Option<SinkState>)
        requires
            old(self).wf(),
        ensures
            final(self).wf(),
            old(self)@.contains_key(id) ==> r == Some(old(self)@[id]) && final(self)@ == old(
                self,
            )@.remove(id),
            !old(self)@.contains_key(id) ==> r is None && final(self)@ == old(self)@,
    {
        match self.find(id) {
            Some(i) => {
                proof {
                    lemma_map_of_index(self.entries@, i as int);
                    lemma_map_of_remove(self.entries@, i as int);
                }
                let e = self.entries.remove(i);
                Some(e.sink)
            },
            None => None,
        }
    }

    /// Marks the call with this id as abandoned by its caller, so that its
    /// eventual response is discarded silently. A no-op when no call with
    /// that id is in flight.
    pub fn abandon(&mut self, id: usize)
        requires
            old(self).wf(),
        ensures
            final(self).wf(),
            old(self)@.contains_key(id) ==> final(self)@ == old(self)@.insert(
                id,
                SinkState::Abandoned,
            ),
            !old(self)@.contains_key(id) ==> final(self)@ == old(self)@,
    {
        let e = TaskEntry { id, sink: SinkState::Abandoned };
        match self.find(id) {
            Some(i) => {
                proof {
                    lemma_map_of_index(self.entries@, i as int);
                    lemma_map_of_update(self.entries@, i as int, e);
                }
                self.entries.set(i, e);
            },
            None => {},
        }
    }

    /// Empties the table and returns the ids whose callers were still
    /// waiting, so that each of them can be resolved with a terminal error
    /// when the unit is torn down.
    pub fn drain(&mut self) -> (waiting: Vec<usize>)
        requires
            old(self).wf(),
        ensures
            final(self).wf(),
            final(self)@ == Map::<usize, SinkState>::empty(),
            waiting@.no_duplicates(),
            forall|id: usize| #[trigger]
                waiting@.contains(id) <==> (old(self)@.contains_key(id) && old(self)@[id]
                    is Waiting),
    {
        let ghost s0 = self.entries@;
        let mut waiting: Vec<usize> = Vec::new();
        let n = self.entries.len();
        let mut i: usize = 0;
        while i < n
            invariant
                i <= n,
                self.entries@ == s0,
                n == s0.len(),
                waiting@ == waiting_ids(s0.take(i as int)),
            decreases n - i,
        {
            let e = &self.entries[i];
            proof {
                assert(s0.take(i as int + 1).drop_last() =~= s0.take(i as int));
                assert(s0.take(i as int + 1).last() == s0[i as int]);
            }
            if matches!(e.sink, SinkState::Waiting) {
                waiting.push(e.id);
            }
            i = i + 1;
        }
        proof {
            assert(s0.take(n as int) =~= s0);
            lemma_waiting_ids(s0);
        }
        self.entries.clear();
        waiting
    }
}

} // verus!
