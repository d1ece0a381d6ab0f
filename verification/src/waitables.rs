//! Waitables and waitable sets: which waitable has an event pending, which
//! set each belongs to, which of a set's waitables are ready, and which
//! tasks wait on a set.

use crate::abi::Event;
use std::collections::HashMap;
use vstd::prelude::*;

verus! {

broadcast use vstd::std_specs::hash::group_hash_axioms;

/// A set of keys, handed out smallest first.
pub struct KeySet {
    items: Vec<u64>,
}

impl KeySet {
    /// The keys held.
    pub closed spec fn keys(&self) -> Set<u64> {
        Set::new(|k: u64| self.items@.contains(k))
    }

    /// No key is held twice.
    pub closed spec fn wf(&self) -> bool {
        self.items@.no_duplicates()
    }

    /// No keys.
    pub fn new() -> (r: Self)
        ensures
            r.wf(),
            r.keys() == Set::<u64>::empty(),
    {
        let r = KeySet { items: Vec::new() };
        proof {
            assert(r.keys() =~= Set::<u64>::empty());
        }
        r
    }

    fn index_of(&self, k: u64) -> (r: Option<usize>)
        ensures
            match r {
                Some(i) => i < self.items@.len() && self.items@[i as int] == k,
                None => !self.items@.contains(k),
            },
    {
        let mut i: usize = 0;
        while i < self.items.len()
            invariant
                i <= self.items@.len(),
                forall|j: int| 0 <= j < i ==> self.items@[j] != k,
            decreases self.items@.len() - i,
        {
            if self.items[i] == k {
                return Some(i);
            }
            i = i + 1;
        }
        None
    }

    /// Whether `k` is held.
    pub fn contains(&self, k: u64) -> (r: bool)
        ensures
            r == self.keys().contains(k),
    {
        self.index_of(k).is_some()
    }

    /// Whether no key is held.
    pub fn is_empty(&self) -> (r: bool)
        ensures
            r == (self.keys() == Set::<u64>::empty()),
    {
        proof {
            if self.items@.len() > 0 {
                assert(self.keys().contains(self.items@[0]));
            } else {
                assert(self.keys() =~= Set::<u64>::empty());
            }
        }
        self.items.len() == 0
    }

    /// Adds `k`.
    pub fn insert(&mut self, k: u64)
        requires
            old(self).wf(),
        ensures
            final(self).wf(),
            final(self).keys() == old(self).keys().insert(k),
    {
        if self.index_of(k).is_none() {
            self.items.push(k);
            proof {
                assert forall|i: int, j: int|
                    0 <= i < j < self.items@.len() implies self.items@[i] != self.items@[j] by {
                    if j == self.items@.len() - 1 {
                        assert(old(self).items@.contains(self.items@[i]) ==> self.items@[i] != k);
                        assert(self.items@[i] == old(self).items@[i]);
                    } else {
                        assert(self.items@[i] == old(self).items@[i]);
                        assert(self.items@[j] == old(self).items@[j]);
                    }
                }
            }
        }
        proof {
            assert forall|x: u64| self.keys().contains(x) == old(self).keys().insert(k).contains(
                x,
            ) by {
                if self.items@.contains(x) && x != k {
                    let i = choose|i: int| 0 <= i < self.items@.len() && self.items@[i] == x;
                    assert(old(self).items@[i] == x);
                }
                if old(self).items@.contains(x) {
                    let i = choose|i: int| 0 <= i < old(self).items@.len() && old(self).items@[i] == x;
                    assert(self.items@[i] == x);
                }
                if x == k && !old(self).items@.contains(k) {
                    assert(self.items@[self.items@.len() - 1] == k);
                }
            }
            assert(self.keys() =~= old(self).keys().insert(k));
        }
    }

    /// Removes `k`, if held.
    pub fn remove(&mut self, k: u64)
        requires
            old(self).wf(),
        ensures
            final(self).wf(),
            final(self).keys() == old(self).keys().remove(k),
    {
        match self.index_of(k) {
            None => {
                proof {
                    assert(self.keys() =~= old(self).keys().remove(k));
                }
            },
            Some(i) => {
                self.items.remove(i);
                proof {
                    lemma_remove_keeps_no_duplicates(old(self).items@, i as int);
                    assert forall|x: u64| self.keys().contains(x) == old(self).keys().remove(
                        k,
                    ).contains(x) by {
                        lemma_remove_contains(old(self).items@, i as int, x);
                    }
                    assert(self.keys() =~= old(self).keys().remove(k));
                }
            },
        }
    }

    /// Removes and returns the smallest key, if any.
    pub fn pop_first(&mut self) -> (r: Option<u64>)
        requires
            old(self).wf(),
        ensures
            final(self).wf(),
            match r {
                Some(k) => {
                    &&& old(self).keys().contains(k)
                    &&& forall|x: u64| old(self).keys().contains(x) ==> k <= x
                    &&& final(self).keys() == old(self).keys().remove(k)
                },
                None => old(self).keys() == Set::<u64>::empty() && final(self).keys() == old(
                    self,
                ).keys(),
            },
    {
        if self.items.len() == 0 {
            proof {
                assert(self.keys() =~= Set::<u64>::empty());
            }
            return None;
        }
        let mut best: usize = 0;
        let mut i: usize = 1;
        while i < self.items.len()
            invariant
                1 <= i <= self.items@.len(),
                best < i,
                forall|j: int| 0 <= j < i ==> self.items@[best as int] <= self.items@[j],
            decreases self.items@.len() - i,
        {
            if self.items[i] < self.items[best] {
                best = i;
            }
            i = i + 1;
        }
        let k = self.items.remove(best);
        proof {
            lemma_remove_keeps_no_duplicates(old(self).items@, best as int);
            assert forall|x: u64| old(self).keys().contains(x) implies k <= x by {
                let j = choose|j: int| 0 <= j < old(self).items@.len() && old(self).items@[j] == x;
                assert(old(self).items@[j] == x);
            }
            assert forall|x: u64| self.keys().contains(x) == old(self).keys().remove(k).contains(
                x,
            ) by {
                lemma_remove_contains(old(self).items@, best as int, x);
            }
            assert(self.keys() =~= old(self).keys().remove(k));
            assert(old(self).items@.contains(k));
        }
        Some(k)
    }
}

proof fn lemma_remove_keeps_no_duplicates<T>(s: Seq<T>, i: int)
    requires
        s.no_duplicates(),
        0 <= i < s.len(),
    ensures
        s.remove(i).no_duplicates(),
{
    let r = s.remove(i);
    assert forall|a: int, b: int| 0 <= a < b < r.len() implies r[a] != r[b] by {
        let a2 = if a < i { a } else { a + 1 };
        let b2 = if b < i { b } else { b + 1 };
        assert(r[a] == s[a2]);
        assert(r[b] == s[b2]);
    }
}

proof fn lemma_remove_contains<T>(s: Seq<T>, i: int, x: T)
    requires
        s.no_duplicates(),
        0 <= i < s.len(),
    ensures
        s.remove(i).contains(x) == (s.contains(x) && x != s[i]),
{
    let r = s.remove(i);
    if r.contains(x) {
        let j = choose|j: int| 0 <= j < r.len() && r[j] == x;
        let j2 = if j < i { j } else { j + 1 };
        assert(s[j2] == x);
        assert(j2 != i);
    }
    if s.contains(x) && x != s[i] {
        let j = choose|j: int| 0 <= j < s.len() && s[j] == x;
        assert(j != i);
        if j < i {
            assert(r[j] == x);
        } else {
            assert(r[j - 1] == x);
        }
    }
}

/// Tasks waiting on a set, each with how it is to be resumed; handed out
/// smallest task first.
pub struct Waiters<M> {
    tasks: KeySet,
    modes: HashMap<u64, M>,
}

impl<M> Waiters<M> {
    /// How each waiting task is to be resumed.
    pub closed spec fn waiting(&self) -> Map<u64, M> {
        self.modes@
    }

    /// The task list and the modes agree.
    pub closed spec fn wf(&self) -> bool {
        &&& self.tasks.wf()
        &&& self.tasks.keys() == self.modes@.dom()
    }

    /// No task waits.
    pub fn new() -> (r: Self)
        ensures
            r.wf(),
            r.waiting() == Map::<u64, M>::empty(),
    {
        let r = Waiters { tasks: KeySet::new(), modes: HashMap::new() };
        proof {
            assert(r.modes@ =~= Map::<u64, M>::empty());
            assert(r.tasks.keys() =~= r.modes@.dom());
        }
        r
    }

    /// Whether no task waits.
    pub fn is_empty(&self) -> (r: bool)
        requires
            self.wf(),
        ensures
            r == (self.waiting().dom() == Set::<u64>::empty()),
    {
        self.tasks.is_empty()
    }

    /// Records that `task` waits, to be resumed as `mode` (replacing an
    /// earlier mode of the same task).
    pub fn insert(&mut self, task: u64, mode: M)
        requires
            old(self).wf(),
        ensures
            final(self).wf(),
            final(self).waiting() == old(self).waiting().insert(task, mode),
    {
        self.tasks.insert(task);
        self.modes.insert(task, mode);
        proof {
            assert(self.tasks.keys() =~= self.modes@.dom());
        }
    }

    /// Stops `task` from waiting and returns its mode, if it waited.
    pub fn remove(&mut self, task: u64) -> (r: Option<M>)
        requires
            old(self).wf(),
        ensures
            final(self).wf(),
            final(self).waiting() == old(self).waiting().remove(task),
            match r {
                Some(m) => old(self).waiting().contains_key(task) && m == old(self).waiting()[task],
                None => !old(self).waiting().contains_key(task),
            },
    {
        self.tasks.remove(task);
        let r = self.modes.remove(&task);
        proof {
            assert(self.tasks.keys() =~= self.modes@.dom());
        }
        r
    }

    /// Removes and returns the waiting task with the smallest id, if any.
    pub fn pop_first(&mut self) -> (r: Option<(u64, M)>)
        requires
            old(self).wf(),
        ensures
            final(self).wf(),
            match r {
                Some((task, m)) => {
                    &&& old(self).waiting().contains_key(task)
                    &&& m == old(self).waiting()[task]
                    &&& forall|t: u64| old(self).waiting().contains_key(t) ==> task <= t
                    &&& final(self).waiting() == old(self).waiting().remove(task)
                },
                None => old(self).waiting().dom() == Set::<u64>::empty() && final(self).waiting()
                    == old(self).waiting(),
            },
    {
        match self.tasks.pop_first() {
            None => None,
            Some(task) => {
                let m = self.modes.remove(&task);
                proof {
                    assert(self.tasks.keys() =~= self.modes@.dom());
                }
                match m {
                    Some(m) => Some((task, m)),
                    None => None,
                }
            },
        }
    }
}

/// What kind of thing a waitable is. Waitables are ordered by kind, in this
/// order, then by handle.
#[derive(Clone, Copy, Debug, PartialEq, Eq, Structural)]
pub enum WaitableKind {
    /// A host task.
    Host,
    /// A guest task.
    Guest,
    /// The read or write end of a stream or future.
    Transmit,
}

/// The rank of a kind in the order of waitables.
pub open spec fn kind_rank(kind: WaitableKind) -> u64 {
    match kind {
        WaitableKind::Host => 0,
        WaitableKind::Guest => 1,
        WaitableKind::Transmit => 2,
    }
}

/// The key of a waitable: keys order waitables by kind, then by handle.
pub open spec fn waitable_key(kind: WaitableKind, rep: u32) -> u64 {
    (kind_rank(kind) * 0x1_0000_0000 + rep) as u64
}

/// The key of the waitable of the given kind and handle.
pub fn waitable(kind: WaitableKind, rep: u32) -> (r: u64)
    ensures
        r == waitable_key(kind, rep),
{
    let rank: u64 = match kind {
        WaitableKind::Host => 0,
        WaitableKind::Guest => 1,
        WaitableKind::Transmit => 2,
    };
    rank * 0x1_0000_0000 + rep as u64
}

/// What every waitable has: the event pending for it, if any, and the set
/// it belongs to, if any.
#[derive(Clone, Copy, Debug)]
pub struct WaitableCommon {
    pub event: Option<Event>,
    pub set: Option<u32>,
}

/// A waitable set: which of its waitables are ready, and which tasks wait
/// on it.
pub struct WaitableSet<M> {
    ready: KeySet,
    waiting: Waiters<M>,
}

/// Why an operation on waitables was refused.
#[derive(Clone, Copy, Debug, PartialEq, Eq, Structural)]
pub enum WaitableError {
    /// No such waitable.
    UnknownWaitable,
    /// No such waitable set.
    UnknownSet,
    /// A waitable set was dropped while tasks were waiting on it.
    HasWaiters,
}

/// The waitables and waitable sets of a component instance. `M` says how a
/// waiting task is to be resumed.
pub struct Waitables<M> {
    commons: HashMap<u64, WaitableCommon>,
    sets: HashMap<u32, WaitableSet<M>>,
}

impl<M> Waitables<M> {
    /// The state of waitable `w`, if it exists.
    pub closed spec fn common(&self, w: u64) -> Option<WaitableCommon> {
        if self.commons@.contains_key(w) {
            Some(self.commons@[w])
        } else {
            None
        }
    }

    /// Whether waitable set `s` exists.
    pub closed spec fn has_set(&self, s: u32) -> bool {
        self.sets@.contains_key(s)
    }

    /// The ready waitables of set `s`.
    pub closed spec fn ready(&self, s: u32) -> Set<u64> {
        self.sets@[s].ready.keys()
    }

    /// The tasks waiting on set `s`.
    pub closed spec fn waiting(&self, s: u32) -> Map<u64, M> {
        self.sets@[s].waiting.waiting()
    }

    /// Every set is well formed, and a waitable is ready in a set only if it
    /// belongs to that set and has an event pending.
    pub closed spec fn wf(&self) -> bool {
        &&& forall|s: u32| #[trigger]
            self.sets@.contains_key(s) ==> self.sets@[s].ready.wf()
                && self.sets@[s].waiting.wf()
        &&& forall|s: u32, w: u64|
            self.sets@.contains_key(s) && #[trigger] self.sets@[s].ready.keys().contains(w)
                ==> self.commons@.contains_key(w) && self.commons@[w].set == Some(s)
                && self.commons@[w].event is Some
    }

    /// No waitables and no sets.
    pub fn new() -> (r: Self)
        ensures
            r.wf(),
            forall|w: u64| #[trigger] r.common(w) is None,
            forall|s: u32| !#[trigger] r.has_set(s),
    {
        Waitables { commons: HashMap::new(), sets: HashMap::new() }
    }

    /// Creates waitable set `s`, with nothing ready and no one waiting.
    pub fn new_set(&mut self, s: u32)
        requires
            old(self).wf(),
            !old(self).has_set(s),
        ensures
            final(self).wf(),
            final(self).has_set(s),
            final(self).ready(s) == Set::<u64>::empty(),
            final(self).waiting(s) == Map::<u64, M>::empty(),
            forall|w: u64| #[trigger] final(self).common(w) == old(self).common(w),
            forall|t: u32|
                t != s ==> (#[trigger] final(self).has_set(t) == old(self).has_set(t)
                    && final(self).ready(t) == old(self).ready(t) && final(self).waiting(t)
                    == old(self).waiting(t)),
    {
        self.sets.insert(s, WaitableSet { ready: KeySet::new(), waiting: Waiters::new() });
    }

    /// Creates waitable `w`, with no event and in no set.
    pub fn add_waitable(&mut self, w: u64)
        requires
            old(self).wf(),
            old(self).common(w) is None,
        ensures
            final(self).wf(),
            final(self).common(w) matches Some(c) && c.event is None && c.set is None,
            forall|x: u64| x != w ==> #[trigger] final(self).common(x) == old(self).common(x),
            forall|t: u32|
                #[trigger] final(self).has_set(t) == old(self).has_set(t) && final(self).ready(t)
                    == old(self).ready(t) && final(self).waiting(t) == old(self).waiting(t),
    {
        self.commons.insert(w, WaitableCommon { event: None, set: None });
    }

    /// The state of waitable `w`, if it exists.
    pub fn get(&self, w: u64) -> (r: Option<WaitableCommon>)
        ensures
            r == self.common(w),
    {
        match self.commons.get(&w) {
            Some(c) => Some(*c),
            None => None,
        }
    }
}

impl<M> Waitables<M> {
    /// Marks waitable `w`, which belongs to set `s` and has an event, ready
    /// there, and hands out the first task waiting on `s`, if any.
    fn mark_ready(&mut self, w: u64, s: u32) -> (r: Option<(u64, M)>)
        requires
            old(self).wf(),
            old(self).has_set(s),
            old(self).common(w) matches Some(c) && c.set == Some(s) && c.event is Some,
        ensures
            final(self).wf(),
            final(self).has_set(s),
            final(self).ready(s) == old(self).ready(s).insert(w),
            woken(old(self).waiting(s), final(self).waiting(s), r),
            forall|x: u64| #[trigger] final(self).common(x) == old(self).common(x),
            forall|t: u32|
                t != s ==> (#[trigger] final(self).has_set(t) == old(self).has_set(t)
                    && final(self).ready(t) == old(self).ready(t) && final(self).waiting(t)
                    == old(self).waiting(t)),
    {
        let mut st = match self.sets.remove(&s) {
            Some(st) => st,
            None => return None,
        };
        proof {
            assert(old(self).sets@.contains_key(s));
        }
        st.ready.insert(w);
        let r = st.waiting.pop_first();
        self.sets.insert(s, st);
        proof {
            assert forall|t: u32, x: u64|
                self.sets@.contains_key(t) && #[trigger] self.sets@[t].ready.keys().contains(x)
                    implies self.commons@.contains_key(x) && self.commons@[x].set == Some(t)
                    && self.commons@[x].event is Some by {
                if t != s {
                    assert(old(self).sets@.contains_key(t));
                    assert(old(self).sets@[t].ready.keys().contains(x));
                } else if x != w {
                    assert(old(self).sets@[s].ready.keys().contains(x));
                }
            }
            assert forall|t: u32| #[trigger] self.sets@.contains_key(t) implies self.sets@[t].ready.wf()
                && self.sets@[t].waiting.wf() by {
                if t != s {
                    assert(old(self).sets@.contains_key(t));
                }
            }
        }
        r
    }

    /// Sets the event pending for waitable `w` and marks it ready in its set,
    /// handing out the first task waiting on that set, if any.
    pub fn set_event(&mut self, w: u64, event: Event) -> (r: Result<Option<(u64, M)>, WaitableError>)
        requires
            old(self).wf(),
        ensures
            final(self).wf(),
            match old(self).common(w) {
                None => r == Err::<Option<(u64, M)>, WaitableError>(
                    WaitableError::UnknownWaitable,
                ),
                Some(c) => match c.set {
                    None => r matches Ok(None) && final(self).common(w) == Some(
                        WaitableCommon { event: Some(event), set: None },
                    ) && same_sets(*old(self), *final(self)),
                    Some(s) => if !old(self).has_set(s) {
                        r == Err::<Option<(u64, M)>, WaitableError>(WaitableError::UnknownSet)
                    } else {
                        &&& r is Ok
                        &&& final(self).common(w) == Some(
                            WaitableCommon { event: Some(event), set: Some(s) },
                        )
                        &&& final(self).ready(s) == old(self).ready(s).insert(w)
                        &&& woken(old(self).waiting(s), final(self).waiting(s), r->Ok_0)
                        &&& final(self).has_set(s)
                        &&& others_unchanged(*old(self), *final(self), s)
                    },
                },
            },
            forall|x: u64| x != w ==> #[trigger] final(self).common(x) == old(self).common(x),
    {
        let c = match self.commons.get(&w) {
            Some(c) => *c,
            None => return Err(WaitableError::UnknownWaitable),
        };
        if let Some(s) = c.set {
            if !self.sets.contains_key(&s) {
                return Err(WaitableError::UnknownSet);
            }
        }
        self.commons.insert(w, WaitableCommon { event: Some(event), set: c.set });
        proof {
            assert forall|t: u32, x: u64|
                self.sets@.contains_key(t) && #[trigger] self.sets@[t].ready.keys().contains(x)
                    implies self.commons@.contains_key(x) && self.commons@[x].set == Some(t)
                    && self.commons@[x].event is Some by {
                assert(old(self).sets@.contains_key(t));
            }
        }
        match c.set {
            None => Ok(None),
            Some(s) => Ok(self.mark_ready(w, s)),
        }
    }

    /// Takes the event pending for waitable `w`, which is then no longer
    /// ready in its set.
    pub fn take_event(&mut self, w: u64) -> (r: Result<Option<Event>, WaitableError>)
        requires
            old(self).wf(),
        ensures
            final(self).wf(),
            match old(self).common(w) {
                None => r == Err::<Option<Event>, WaitableError>(WaitableError::UnknownWaitable),
                Some(c) => if c.set matches Some(s) && !old(self).has_set(s) {
                    r == Err::<Option<Event>, WaitableError>(WaitableError::UnknownSet)
                } else {
                    &&& r == Ok::<Option<Event>, WaitableError>(c.event)
                    &&& final(self).common(w) == Some(WaitableCommon { event: None, set: c.set })
                    &&& match c.set {
                        None => same_sets(*old(self), *final(self)),
                        Some(s) => {
                            &&& final(self).has_set(s)
                            &&& final(self).ready(s) == old(self).ready(s).remove(w)
                            &&& final(self).waiting(s) == old(self).waiting(s)
                            &&& others_unchanged(*old(self), *final(self), s)
                        },
                    }
                },
            },
            forall|x: u64| x != w ==> #[trigger] final(self).common(x) == old(self).common(x),
    {
        let c = match self.commons.get(&w) {
            Some(c) => *c,
            None => return Err(WaitableError::UnknownWaitable),
        };
        match c.set {
            None => {
                self.commons.insert(w, WaitableCommon { event: None, set: None });
                proof {
                    assert forall|t: u32, x: u64|
                        self.sets@.contains_key(t) && #[trigger] self.sets@[t].ready.keys().contains(x)
                            implies self.commons@.contains_key(x) && self.commons@[x].set == Some(t)
                            && self.commons@[x].event is Some by {
                        assert(old(self).sets@.contains_key(t));
                        assert(x != w);
                    }
                }
                Ok(c.event)
            },
            Some(s) => {
                let mut st = match self.sets.remove(&s) {
                    Some(st) => st,
                    None => return Err(WaitableError::UnknownSet),
                };
                proof {
                    assert(old(self).sets@.contains_key(s));
                }
                st.ready.remove(w);
                self.sets.insert(s, st);
                self.commons.insert(w, WaitableCommon { event: None, set: Some(s) });
                proof {
                    assert forall|t: u32, x: u64|
                        self.sets@.contains_key(t) && #[trigger] self.sets@[t].ready.keys().contains(x)
                            implies self.commons@.contains_key(x) && self.commons@[x].set == Some(t)
                            && self.commons@[x].event is Some by {
                        if t != s {
                            assert(old(self).sets@.contains_key(t));
                            assert(old(self).sets@[t].ready.keys().contains(x));
                            assert(x != w);
                        } else {
                            assert(old(self).sets@[s].ready.keys().contains(x));
                        }
                    }
                    assert forall|t: u32| #[trigger] self.sets@.contains_key(t) implies self.sets@[t].ready.wf()
                        && self.sets@[t].waiting.wf() by {
                        if t != s {
                            assert(old(self).sets@.contains_key(t));
                        }
                    }
                }
                Ok(c.event)
            },
        }
    }
}

/// `after` is `before` with the first waiting task handed out as `r`, or,
/// when no task waits, `before` itself with nothing handed out.
pub open spec fn woken<M>(before: Map<u64, M>, after: Map<u64, M>, r: Option<(u64, M)>) -> bool {
    match r {
        Some((task, m)) => {
            &&& before.contains_key(task)
            &&& m == before[task]
            &&& forall|t: u64| before.contains_key(t) ==> task <= t
            &&& after == before.remove(task)
        },
        None => before.dom() == Set::<u64>::empty() && after == before,
    }
}

/// No set changed.
pub open spec fn same_sets<M>(a: Waitables<M>, b: Waitables<M>) -> bool {
    forall|t: u32|
        #[trigger] b.has_set(t) == a.has_set(t) && b.ready(t) == a.ready(t) && b.waiting(t)
            == a.waiting(t)
}

/// No set other than `s` changed.
pub open spec fn others_unchanged<M>(a: Waitables<M>, b: Waitables<M>, s: u32) -> bool {
    forall|t: u32|
        t != s ==> (#[trigger] b.has_set(t) == a.has_set(t) && b.ready(t) == a.ready(t)
            && b.waiting(t) == a.waiting(t))
}

impl<M> Waitables<M> {
    /// Moves waitable `w` into set `set`, or out of any set with `None`. It
    /// leaves the ready waitables of its former set; in its new set it is
    /// ready if it has an event pending, which hands out the first task
    /// waiting there, if any.
    pub fn join(&mut self, w: u64, set: Option<u32>) -> (r: Result<
        Option<(u64, M)>,
        WaitableError,
    >)
        requires
            old(self).wf(),
        ensures
            final(self).wf(),
            match old(self).common(w) {
                None => r == Err::<Option<(u64, M)>, WaitableError>(
                    WaitableError::UnknownWaitable,
                ),
                Some(c) => if (set matches Some(s) && !old(self).has_set(s)) || (
                c.set matches Some(s) && !old(self).has_set(s)) {
                    r == Err::<Option<(u64, M)>, WaitableError>(WaitableError::UnknownSet)
                } else {
                    &&& r is Ok
                    &&& final(self).common(w) == Some(WaitableCommon { event: c.event, set })
                    &&& forall|t: u32| #[trigger]
                        final(self).has_set(t) == old(self).has_set(t)
                    &&& forall|t: u32| #[trigger]
                        final(self).ready(t) == joined_ready(old(self).ready(t), w, t, c, set)
                    &&& match set {
                        Some(s) if c.event is Some => {
                            &&& woken(old(self).waiting(s), final(self).waiting(s), r->Ok_0)
                            &&& forall|t: u32|
                                t != s ==> #[trigger] final(self).waiting(t) == old(
                                    self,
                                ).waiting(t)
                        },
                        _ => r->Ok_0 is None && forall|t: u32| #[trigger]
                            final(self).waiting(t) == old(self).waiting(t),
                    }
                },
            },
            forall|x: u64| x != w ==> #[trigger] final(self).common(x) == old(self).common(x),
    {
        let c = match self.commons.get(&w) {
            Some(c) => *c,
            None => return Err(WaitableError::UnknownWaitable),
        };
        if let Some(s) = set {
            if !self.sets.contains_key(&s) {
                return Err(WaitableError::UnknownSet);
            }
        }
        if let Some(s) = c.set {
            if !self.sets.contains_key(&s) {
                return Err(WaitableError::UnknownSet);
            }
        }
        let ghost mid = *self;
        if let Some(s) = c.set {
            let mut st = match self.sets.remove(&s) {
                Some(st) => st,
                None => return Err(WaitableError::UnknownSet),
            };
            proof {
                assert(old(self).sets@.contains_key(s));
            }
            st.ready.remove(w);
            self.sets.insert(s, st);
        }
        self.commons.insert(w, WaitableCommon { event: c.event, set });
        proof {
            assert forall|t: u32, x: u64|
                self.sets@.contains_key(t) && #[trigger] self.sets@[t].ready.keys().contains(x)
                    implies self.commons@.contains_key(x) && self.commons@[x].set == Some(t)
                    && self.commons@[x].event is Some by {
                assert(old(self).sets@.contains_key(t));
                if c.set == Some(t) {
                    assert(old(self).sets@[t].ready.keys().contains(x));
                    assert(x != w);
                } else {
                    assert(old(self).sets@[t].ready.keys().contains(x));
                    assert(x != w);
                }
            }
            assert forall|t: u32| #[trigger] self.sets@.contains_key(t) implies self.sets@[t].ready.wf()
                && self.sets@[t].waiting.wf() by {
                assert(old(self).sets@.contains_key(t));
            }
            assert forall|t: u32|
                #[trigger] self.has_set(t) == old(self).has_set(t) && self.waiting(t) == old(
                    self,
                ).waiting(t) && self.ready(t) == (if c.set == Some(t) {
                    old(self).ready(t).remove(w)
                } else {
                    old(self).ready(t)
                }) by {
                if c.set == Some(t) {
                } else {
                    assert(self.sets@[t] == old(self).sets@[t]);
                }
            }
        }
        let ghost left = *self;
        match set {
            Some(s) => {
                if c.event.is_some() {
                    let r = self.mark_ready(w, s);
                    proof {
                        assert forall|t: u32| #[trigger]
                            self.ready(t) == joined_ready(old(self).ready(t), w, t, c, set) by {
                            if t != s {
                                assert(self.has_set(t) == left.has_set(t));
                                assert(self.ready(t) == left.ready(t));
                            }
                        }
                        assert forall|t: u32| #[trigger] self.has_set(t) == old(self).has_set(t) by {
                            if t != s {
                                assert(self.has_set(t) == left.has_set(t));
                            }
                        }
                        assert forall|t: u32| t != s implies #[trigger] self.waiting(t) == old(
                            self,
                        ).waiting(t) by {
                            assert(self.has_set(t) == left.has_set(t));
                            assert(self.waiting(t) == left.waiting(t));
                        }
                    }
                    Ok(r)
                } else {
                    Ok(None)
                }
            },
            None => Ok(None),
        }
    }

    /// The next ready waitable of set `s`, the smallest first, with the
    /// event it had pending, which is taken; `None` when none is ready.
    pub fn next_ready(&mut self, s: u32) -> (r: Result<Option<(u64, Event)>, WaitableError>)
        requires
            old(self).wf(),
        ensures
            final(self).wf(),
            !old(self).has_set(s) ==> r == Err::<Option<(u64, Event)>, WaitableError>(
                WaitableError::UnknownSet,
            ) && same_sets(*old(self), *final(self)) && forall|x: u64| #[trigger]
                final(self).common(x) == old(self).common(x),
            old(self).has_set(s) ==> match r {
                Ok(Some((w, e))) => {
                    &&& old(self).ready(s).contains(w)
                    &&& forall|x: u64| old(self).ready(s).contains(x) ==> w <= x
                    &&& old(self).common(w) == Some(WaitableCommon { event: Some(e), set: Some(s) })
                    &&& final(self).common(w) == Some(WaitableCommon { event: None, set: Some(s) })
                    &&& final(self).ready(s) == old(self).ready(s).remove(w)
                    &&& final(self).waiting(s) == old(self).waiting(s)
                    &&& final(self).has_set(s)
                    &&& others_unchanged(*old(self), *final(self), s)
                    &&& forall|x: u64| x != w ==> #[trigger] final(self).common(x) == old(
                        self,
                    ).common(x)
                },
                Ok(None) => old(self).ready(s) == Set::<u64>::empty() && same_sets(
                    *old(self),
                    *final(self),
                ) && forall|x: u64| #[trigger] final(self).common(x) == old(self).common(x),
                Err(_) => false,
            },
    {
        if !self.sets.contains_key(&s) {
            return Err(WaitableError::UnknownSet);
        }
        let mut st = match self.sets.remove(&s) {
            Some(st) => st,
            None => return Err(WaitableError::UnknownSet),
        };
        let w = match st.ready.pop_first() {
            Some(w) => w,
            None => {
                self.sets.insert(s, st);
                proof {
                    assert forall|t: u32, x: u64|
                        self.sets@.contains_key(t) && #[trigger] self.sets@[t].ready.keys().contains(x)
                            implies self.commons@.contains_key(x) && self.commons@[x].set == Some(t)
                            && self.commons@[x].event is Some by {
                        assert(old(self).sets@.contains_key(t));
                        assert(old(self).sets@[t].ready.keys().contains(x));
                    }
                    assert forall|t: u32| #[trigger] self.sets@.contains_key(t) implies self.sets@[t].ready.wf()
                        && self.sets@[t].waiting.wf() by {
                        assert(old(self).sets@.contains_key(t));
                    }
                    assert forall|t: u32|
                        #[trigger] self.has_set(t) == old(self).has_set(t) && self.ready(t) == old(self).ready(t)
                            && self.waiting(t) == old(self).waiting(t) by {
                        if t != s {
                            assert(self.sets@[t] == old(self).sets@[t]);
                        }
                    }
                }
                return Ok(None);
            },
        };
        self.sets.insert(s, st);
        let c = match self.commons.get(&w) {
            Some(c) => *c,
            None => return Err(WaitableError::UnknownWaitable),
        };
        let e = match c.event {
            Some(e) => e,
            None => return Err(WaitableError::UnknownWaitable),
        };
        self.commons.insert(w, WaitableCommon { event: None, set: c.set });
        proof {
            assert forall|t: u32, x: u64|
                self.sets@.contains_key(t) && #[trigger] self.sets@[t].ready.keys().contains(x)
                    implies self.commons@.contains_key(x) && self.commons@[x].set == Some(t)
                    && self.commons@[x].event is Some by {
                if t != s {
                    assert(old(self).sets@.contains_key(t));
                    assert(old(self).sets@[t].ready.keys().contains(x));
                    if x == w {
                        assert(old(self).sets@[s].ready.keys().contains(w));
                    }
                } else {
                    assert(old(self).sets@[s].ready.keys().contains(x));
                }
            }
            assert forall|t: u32| #[trigger] self.sets@.contains_key(t) implies self.sets@[t].ready.wf()
                && self.sets@[t].waiting.wf() by {
                if t != s {
                    assert(old(self).sets@.contains_key(t));
                }
            }
        }
        Ok(Some((w, e)))
    }
}

/// The ready waitables of set `t` after waitable `w`, in state `c`, joins
/// `set`: it leaves its former set and is ready in its new one if it has an
/// event pending.
pub open spec fn joined_ready(
    before: Set<u64>,
    w: u64,
    t: u32,
    c: WaitableCommon,
    set: Option<u32>,
) -> Set<u64> {
    let left = if c.set == Some(t) {
        before.remove(w)
    } else {
        before
    };
    if set == Some(t) && c.event is Some {
        left.insert(w)
    } else {
        left
    }
}

impl<M> Waitables<M> {
    /// Whether set `s` has a ready waitable.
    pub fn has_ready(&self, s: u32) -> (r: Result<bool, WaitableError>)
        requires
            self.wf(),
        ensures
            if self.has_set(s) {
                r == Ok::<bool, WaitableError>(self.ready(s) != Set::<u64>::empty())
            } else {
                r == Err::<bool, WaitableError>(WaitableError::UnknownSet)
            },
    {
        match self.sets.get(&s) {
            Some(st) => Ok(!st.ready.is_empty()),
            None => Err(WaitableError::UnknownSet),
        }
    }

    /// Records that `task` waits on set `s`, to be resumed as `mode`.
    pub fn add_waiter(&mut self, s: u32, task: u64, mode: M) -> (r: Result<(), WaitableError>)
        requires
            old(self).wf(),
        ensures
            final(self).wf(),
            forall|x: u64| #[trigger] final(self).common(x) == old(self).common(x),
            if old(self).has_set(s) {
                &&& r is Ok
                &&& final(self).has_set(s)
                &&& final(self).waiting(s) == old(self).waiting(s).insert(task, mode)
                &&& final(self).ready(s) == old(self).ready(s)
                &&& others_unchanged(*old(self), *final(self), s)
            } else {
                r == Err::<(), WaitableError>(WaitableError::UnknownSet) && same_sets(
                    *old(self),
                    *final(self),
                )
            },
    {
        if !self.sets.contains_key(&s) {
            return Err(WaitableError::UnknownSet);
        }
        let mut st = match self.sets.remove(&s) {
            Some(st) => st,
            None => return Err(WaitableError::UnknownSet),
        };
        st.waiting.insert(task, mode);
        self.sets.insert(s, st);
        proof {
            assert(self.sets@ =~= old(self).sets@.insert(s, self.sets@[s]));
            self.lemma_set_replaced(*old(self), s);
        }
        Ok(())
    }

    /// Stops `task` from waiting on set `s` and returns how it was to be
    /// resumed, if it was waiting.
    pub fn remove_waiter(&mut self, s: u32, task: u64) -> (r: Result<Option<M>, WaitableError>)
        requires
            old(self).wf(),
        ensures
            final(self).wf(),
            forall|x: u64| #[trigger] final(self).common(x) == old(self).common(x),
            if old(self).has_set(s) {
                &&& final(self).has_set(s)
                &&& final(self).waiting(s) == old(self).waiting(s).remove(task)
                &&& final(self).ready(s) == old(self).ready(s)
                &&& others_unchanged(*old(self), *final(self), s)
                &&& match r {
                    Ok(Some(m)) => old(self).waiting(s).contains_key(task) && m == old(
                        self,
                    ).waiting(s)[task],
                    Ok(None) => !old(self).waiting(s).contains_key(task),
                    Err(_) => false,
                }
            } else {
                r matches Err(e) && e == WaitableError::UnknownSet && same_sets(
                    *old(self),
                    *final(self),
                )
            },
    {
        if !self.sets.contains_key(&s) {
            return Err(WaitableError::UnknownSet);
        }
        let mut st = match self.sets.remove(&s) {
            Some(st) => st,
            None => return Err(WaitableError::UnknownSet),
        };
        let m = st.waiting.remove(task);
        self.sets.insert(s, st);
        proof {
            assert(self.sets@ =~= old(self).sets@.insert(s, self.sets@[s]));
            self.lemma_set_replaced(*old(self), s);
        }
        Ok(m)
    }

    /// Drops waitable set `s`. Fails when tasks still wait on it; the set is
    /// dropped either way.
    pub fn drop_set(&mut self, s: u32) -> (r: Result<(), WaitableError>)
        requires
            old(self).wf(),
        ensures
            final(self).wf(),
            forall|x: u64| #[trigger] final(self).common(x) == old(self).common(x),
            !final(self).has_set(s),
            others_unchanged(*old(self), *final(self), s),
            if !old(self).has_set(s) {
                r == Err::<(), WaitableError>(WaitableError::UnknownSet)
            } else if old(self).waiting(s).dom() != Set::<u64>::empty() {
                r == Err::<(), WaitableError>(WaitableError::HasWaiters)
            } else {
                r is Ok
            },
    {
        let st = match self.sets.remove(&s) {
            Some(st) => st,
            None => return Err(WaitableError::UnknownSet),
        };
        proof {
            assert forall|t: u32, x: u64|
                self.sets@.contains_key(t) && #[trigger] self.sets@[t].ready.keys().contains(x)
                    implies self.commons@.contains_key(x) && self.commons@[x].set == Some(t)
                    && self.commons@[x].event is Some by {
                assert(old(self).sets@.contains_key(t));
                assert(old(self).sets@[t].ready.keys().contains(x));
            }
            assert forall|t: u32| #[trigger] self.sets@.contains_key(t) implies self.sets@[t].ready.wf()
                && self.sets@[t].waiting.wf() by {
                assert(old(self).sets@.contains_key(t));
            }
            assert forall|t: u32| t != s implies (#[trigger] self.has_set(t) == old(self).has_set(t)
                && self.ready(t) == old(self).ready(t) && self.waiting(t) == old(self).waiting(t)) by {
                assert(self.sets@[t] == old(self).sets@[t]);
            }
            assert(old(self).sets@.contains_key(s));
        }
        if !st.waiting.is_empty() {
            return Err(WaitableError::HasWaiters);
        }
        Ok(())
    }

    /// Removes waitable `w`, which must have left its set first, and returns
    /// its state.
    pub fn remove_waitable(&mut self, w: u64) -> (r: Result<WaitableCommon, WaitableError>)
        requires
            old(self).wf(),
            old(self).common(w) matches Some(c) ==> c.set is None,
        ensures
            final(self).wf(),
            final(self).common(w) is None,
            forall|x: u64| x != w ==> #[trigger] final(self).common(x) == old(self).common(x),
            same_sets(*old(self), *final(self)),
            match old(self).common(w) {
                Some(c) => r matches Ok(x) && x == c,
                None => r == Err::<WaitableCommon, WaitableError>(WaitableError::UnknownWaitable),
            },
    {
        match self.commons.remove(&w) {
            Some(c) => {
                proof {
                    assert forall|t: u32, x: u64|
                        self.sets@.contains_key(t) && #[trigger] self.sets@[t].ready.keys().contains(x)
                            implies self.commons@.contains_key(x) && self.commons@[x].set == Some(t)
                            && self.commons@[x].event is Some by {
                        assert(old(self).sets@.contains_key(t));
                        assert(old(self).sets@[t].ready.keys().contains(x));
                    }
                }
                Ok(c)
            },
            None => Err(WaitableError::UnknownWaitable),
        }
    }

    /// After set `s` was taken out and put back with its ready waitables
    /// unchanged, the state is still well formed and no other set changed.
    proof fn lemma_set_replaced(&self, before: Self, s: u32)
        requires
            before.wf(),
            before.has_set(s),
            self.commons@ == before.commons@,
            self.sets@ == before.sets@.insert(s, self.sets@[s]),
            self.sets@[s].ready == before.sets@[s].ready,
            self.sets@[s].waiting.wf(),
        ensures
            self.wf(),
            self.has_set(s),
            self.ready(s) == before.ready(s),
            forall|x: u64| #[trigger] self.common(x) == before.common(x),
            others_unchanged(before, *self, s),
    {
        assert forall|t: u32, x: u64|
            self.sets@.contains_key(t) && #[trigger] self.sets@[t].ready.keys().contains(x)
                implies self.commons@.contains_key(x) && self.commons@[x].set == Some(t)
                && self.commons@[x].event is Some by {
            assert(before.sets@.contains_key(t));
            assert(before.sets@[t].ready.keys().contains(x));
        }
        assert forall|t: u32| #[trigger] self.sets@.contains_key(t) implies self.sets@[t].ready.wf()
            && self.sets@[t].waiting.wf() by {
            assert(before.sets@.contains_key(t));
        }
    }
}

} // verus!
