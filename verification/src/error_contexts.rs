//! Reference counting of `error-context` values: each error context is
//! counted once per reference in every component-local table that holds
//! it, and once more in a global count that is the sum of those; its
//! state lives exactly as long as the global count is positive.

use std::collections::HashMap;
use vstd::multiset::Multiset;
use vstd::prelude::*;

verus! {

broadcast use {vstd::std_specs::hash::group_hash_axioms, vstd::multiset::group_multiset_axioms};

/// Why an error-context operation was refused.
#[derive(Clone, Copy, Debug, PartialEq, Eq, Structural)]
pub enum ErrorContextError {
    /// The table holds no reference to that error context.
    UnknownHandle,
}

/// The key of the local count of error context `rep` in the table of type
/// index `ty`.
pub open spec fn local_key(ty: u32, rep: u32) -> u64 {
    ((ty as u64) << 32u64) | (rep as u64)
}

proof fn lemma_local_key(ty: u32, rep: u32)
    ensures
        local_key(ty, rep) >> 32u64 == ty as u64,
        local_key(ty, rep) & 0xffff_ffffu64 == rep as u64,
{
    assert((((ty as u64) << 32u64) | (rep as u64)) >> 32u64 == ty as u64) by (bit_vector);
    assert((((ty as u64) << 32u64) | (rep as u64)) & 0xffff_ffffu64 == rep as u64) by (bit_vector);
}

proof fn lemma_local_key_injective(t1: u32, r1: u32, t2: u32, r2: u32)
    ensures
        local_key(t1, r1) == local_key(t2, r2) ==> t1 == t2 && r1 == r2,
{
    lemma_local_key(t1, r1);
    lemma_local_key(t2, r2);
}

fn key_of(ty: u32, rep: u32) -> (r: u64)
    ensures
        r == local_key(ty, rep),
{
    ((ty as u64) << 32u64) | (rep as u64)
}

/// The reference counts and states of the error contexts of a component
/// instance.
pub struct ErrorContextRefs {
    local: HashMap<u64, u64>,
    global: HashMap<u32, u64>,
    messages: HashMap<u32, String>,
    holders: Ghost<Map<u32, Multiset<u32>>>,
}

impl ErrorContextRefs {
    /// The references held to error context `rep`: the type index of the
    /// table of each, once per reference.
    pub closed spec fn holders(&self, rep: u32) -> Multiset<u32> {
        if self.holders@.contains_key(rep) {
            self.holders@[rep]
        } else {
            Multiset::empty()
        }
    }

    /// The count of references to `rep` in the table of type index `ty`.
    pub closed spec fn local_refs(&self, ty: u32, rep: u32) -> nat {
        if self.local@.contains_key(local_key(ty, rep)) {
            self.local@[local_key(ty, rep)] as nat
        } else {
            0
        }
    }

    /// The global count of references to `rep`.
    pub closed spec fn global_refs(&self, rep: u32) -> nat {
        if self.global@.contains_key(rep) {
            self.global@[rep] as nat
        } else {
            0
        }
    }

    /// The debug message of the live error context `rep`.
    pub closed spec fn debug_message(&self, rep: u32) -> Option<Seq<char>> {
        if self.messages@.contains_key(rep) {
            Some(self.messages@[rep]@)
        } else {
            None
        }
    }

    /// Every count matches the references held, a count is kept only while
    /// positive, and the state of an error context is kept exactly while
    /// its global count is.
    pub closed spec fn wf(&self) -> bool {
        &&& forall|ty: u32, rep: u32| #[trigger]
            self.local_refs(ty, rep) == self.holders(rep).count(ty)
        &&& forall|rep: u32| #[trigger] self.global_refs(rep) == self.holders(rep).len()
        &&& forall|k: u64| #[trigger] self.local@.contains_key(k) ==> self.local@[k] > 0
        &&& forall|rep: u32| #[trigger] self.global@.contains_key(rep) ==> self.global@[rep] > 0
        &&& forall|rep: u32| #[trigger]
            self.messages@.contains_key(rep) == self.global@.contains_key(rep)
    }

    /// No error contexts.
    pub fn new() -> (r: Self)
        ensures
            r.wf(),
            forall|rep: u32| #[trigger] r.holders(rep) == Multiset::<u32>::empty(),
    {
        let r = ErrorContextRefs {
            local: HashMap::new(),
            global: HashMap::new(),
            messages: HashMap::new(),
            holders: Ghost(Map::empty()),
        };
        proof {
            assert forall|ty: u32, rep: u32| #[trigger]
                r.local_refs(ty, rep) == r.holders(rep).count(ty) by {}
        }
        r
    }

    /// The global count of references to `rep`.
    pub fn global_count(&self, rep: u32) -> (r: u64)
        ensures
            r == self.global_refs(rep),
    {
        match self.global.get(&rep) {
            Some(g) => *g,
            None => 0,
        }
    }

    /// The debug message of error context `rep`, if it is live.
    pub fn message(&self, rep: u32) -> (r: Option<&String>)
        ensures
            match self.debug_message(rep) {
                Some(m) => r matches Some(s) && s@ == m,
                None => r is None,
            },
    {
        self.messages.get(&rep)
    }

    /// Records a new error context `rep` with its debug message, referenced
    /// once from the table of type index `ty`.
    pub fn create(&mut self, ty: u32, rep: u32, message: String)
        requires
            old(self).wf(),
            old(self).holders(rep).len() == 0,
        ensures
            final(self).wf(),
            final(self).holders(rep) == Multiset::<u32>::empty().insert(ty),
            final(self).debug_message(rep) == Some(message@),
            forall|other: u32|
                other != rep ==> #[trigger] final(self).holders(other) == old(self).holders(
                    other,
                ) && final(self).debug_message(other) == old(self).debug_message(other),
    {
        let ghost before = *self;
        let key = key_of(ty, rep);
        proof {
            assert(before.global_refs(rep) == 0);
            assert(before.local_refs(ty, rep) == before.holders(rep).count(ty));
        }
        self.local.insert(key, 1);
        self.global.insert(rep, 1);
        self.messages.insert(rep, message);
        let ghost h = Multiset::<u32>::empty().insert(ty);
        proof {
            self.holders@ = self.holders@.insert(rep, h);
            assert forall|t: u32, r: u32| #[trigger]
                self.local_refs(t, r) == self.holders(r).count(t) by {
                lemma_local_key_injective(t, r, ty, rep);
                assert(before.local_refs(t, r) == before.holders(r).count(t));
                if r == rep {
                    assert(before.holders(r).count(t) <= before.holders(r).len());
                }
            }
            assert forall|r: u32| #[trigger] self.global_refs(r) == self.holders(r).len() by {
                assert(before.global_refs(r) == before.holders(r).len());
            }
        }
    }

    /// Drops one reference to error context `rep` from the table of type
    /// index `ty`. When it was the last reference anywhere, the error
    /// context is deleted and its debug message returned.
    pub fn drop_ref(&mut self, ty: u32, rep: u32) -> (r: Result<Option<String>, ErrorContextError>)
        requires
            old(self).wf(),
        ensures
            final(self).wf(),
            old(self).holders(rep).count(ty) == 0 ==> r == Err::<
                Option<String>,
                ErrorContextError,
            >(ErrorContextError::UnknownHandle) && *final(self) == *old(self),
            old(self).holders(rep).count(ty) > 0 ==> {
                &&& r is Ok
                &&& final(self).holders(rep) == old(self).holders(rep).remove(ty)
                &&& (r->Ok_0 is Some) == (old(self).holders(rep).len() == 1)
                &&& r->Ok_0 matches Some(m) ==> old(self).debug_message(rep) == Some(m@)
                    && final(self).debug_message(rep) is None
                &&& r->Ok_0 is None ==> final(self).debug_message(rep) == old(
                    self,
                ).debug_message(rep)
                &&& forall|other: u32|
                    other != rep ==> #[trigger] final(self).holders(other) == old(
                        self,
                    ).holders(other) && final(self).debug_message(other) == old(
                        self,
                    ).debug_message(other)
            },
    {
        let ghost before = *self;
        let key = key_of(ty, rep);
        proof {
            assert(before.local_refs(ty, rep) == before.holders(rep).count(ty));
            assert(before.global_refs(rep) == before.holders(rep).len());
        }
        let count = match self.local.get(&key) {
            Some(c) => *c,
            None => return Err(ErrorContextError::UnknownHandle),
        };
        if count == 1 {
            self.local.remove(&key);
        } else {
            self.local.insert(key, count - 1);
        }
        let g = match self.global.get(&rep) {
            Some(g) => *g,
            None => {
                proof {
                    assert(before.holders(rep).count(ty) <= before.holders(rep).len());
                }
                return Err(ErrorContextError::UnknownHandle);
            },
        };
        proof {
            assert(before.holders(rep).count(ty) <= before.holders(rep).len());
        }
        let ghost h = before.holders(rep).remove(ty);
        proof {
            self.holders@ = self.holders@.insert(rep, h);
            assert(h.len() == before.holders(rep).len() - 1) by {
                assert(Multiset::singleton(ty).subset_of(before.holders(rep)));
            }
        }
        let deleted = if g == 1 {
            self.global.remove(&rep);
            self.messages.remove(&rep)
        } else {
            self.global.insert(rep, g - 1);
            None
        };
        proof {
            assert forall|t: u32, r: u32| #[trigger]
                self.local_refs(t, r) == self.holders(r).count(t) by {
                lemma_local_key_injective(t, r, ty, rep);
                assert(before.local_refs(t, r) == before.holders(r).count(t));
            }
            assert forall|r: u32| #[trigger] self.global_refs(r) == self.holders(r).len() by {
                assert(before.global_refs(r) == before.holders(r).len());
            }
            assert forall|r: u32| #[trigger]
                self.messages@.contains_key(r) == self.global@.contains_key(r) by {
                assert(before.messages@.contains_key(r) == before.global@.contains_key(r));
            }
        }
        Ok(deleted)
    }

    /// Moves a reference to error context `rep` into the table of type
    /// index `dst`, given that the table of type index `src` holds one: the
    /// destination gains a reference, and so does the global count.
    pub fn transfer(&mut self, src: u32, rep: u32, dst: u32) -> (r: Result<(), ErrorContextError>)
        requires
            old(self).wf(),
            old(self).global_refs(rep) < u64::MAX,
        ensures
            final(self).wf(),
            old(self).holders(rep).count(src) == 0 ==> r == Err::<(), ErrorContextError>(
                ErrorContextError::UnknownHandle,
            ) && *final(self) == *old(self),
            old(self).holders(rep).count(src) > 0 ==> {
                &&& r is Ok
                &&& final(self).holders(rep) == old(self).holders(rep).insert(dst)
                &&& final(self).debug_message(rep) == old(self).debug_message(rep)
                &&& forall|other: u32|
                    other != rep ==> #[trigger] final(self).holders(other) == old(
                        self,
                    ).holders(other) && final(self).debug_message(other) == old(
                        self,
                    ).debug_message(other)
            },
    {
        let ghost before = *self;
        proof {
            assert(before.local_refs(src, rep) == before.holders(rep).count(src));
            assert(before.local_refs(dst, rep) == before.holders(rep).count(dst));
            assert(before.global_refs(rep) == before.holders(rep).len());
            assert(before.holders(rep).count(dst) <= before.holders(rep).len());
            assert(before.holders(rep).count(src) <= before.holders(rep).len());
        }
        let src_key = key_of(src, rep);
        if !self.local.contains_key(&src_key) {
            return Err(ErrorContextError::UnknownHandle);
        }
        let g = match self.global.get(&rep) {
            Some(g) => *g,
            None => return Err(ErrorContextError::UnknownHandle),
        };
        let dst_key = key_of(dst, rep);
        let count = match self.local.get(&dst_key) {
            Some(c) => *c,
            None => 0,
        };
        self.local.insert(dst_key, count + 1);
        self.global.insert(rep, g + 1);
        let ghost h = before.holders(rep).insert(dst);
        proof {
            self.holders@ = self.holders@.insert(rep, h);
            assert forall|t: u32, r: u32| #[trigger]
                self.local_refs(t, r) == self.holders(r).count(t) by {
                lemma_local_key_injective(t, r, dst, rep);
                assert(before.local_refs(t, r) == before.holders(r).count(t));
            }
            assert forall|r: u32| #[trigger] self.global_refs(r) == self.holders(r).len() by {
                assert(before.global_refs(r) == before.holders(r).len());
            }
        }
        Ok(())
    }
}

/// A reference moved into a table and then dropped from it leaves the
/// references of the error context as they were.
pub proof fn lemma_transfer_then_drop(held: Multiset<u32>, dst: u32)
    ensures
        held.insert(dst).count(dst) > 0,
        held.insert(dst).remove(dst) == held,
{
    assert(held.insert(dst).remove(dst) =~= held);
}

/// A fresh error context is deleted by the drop of its only reference.
pub proof fn lemma_create_then_drop(ty: u32)
    ensures
        Multiset::<u32>::empty().insert(ty).count(ty) > 0,
        Multiset::<u32>::empty().insert(ty).len() == 1,
        Multiset::<u32>::empty().insert(ty).remove(ty).len() == 0,
{
    assert(Multiset::<u32>::empty().insert(ty).remove(ty) =~= Multiset::<u32>::empty());
}

} // verus!
