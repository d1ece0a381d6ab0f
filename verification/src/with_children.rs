//! Resources shared between a parent and read-only children, such as the
//! header fields of a request and the `fields` handles a guest gets for them.

use std::sync::Arc;
use std::sync::RwLock;
use vstd::prelude::*;

verus! {

#[verifier::external_type_specification]
#[verifier::external_body]
#[verifier::reject_recursive_types(T)]
pub struct ExRwLock<T: ?Sized>(RwLock<T>);

/// The lock guarding a shared value was poisoned by a panic while held.
#[derive(Clone, Copy, Debug, PartialEq, Eq, Structural)]
pub struct LockPoisoned;

/// A value held by a parent, which may modify it, and shared with children,
/// which may only read it.
#[verifier::reject_recursive_types(T)]
pub enum WithChildren<T> {
    Parent(Arc<RwLock<T>>),
    Child(Arc<RwLock<T>>),
}

/// `RwLock::new`: a lock holding `v`.
#[verifier::external_body]
fn rwlock_new<T>(v: T) -> (r: RwLock<T>) {
    RwLock::new(v)
}

/// `Clone` of `Arc`: another handle to the same lock.
#[verifier::external_body]
fn arc_clone<T>(a: &Arc<RwLock<T>>) -> (r: Arc<RwLock<T>>)
    ensures
        r == *a,
{
    Arc::clone(a)
}

/// `RwLock::read`, cloning the value out. What it reads depends on what the
/// holders of the lock wrote; it fails if the lock is poisoned.
#[verifier::external_body]
fn rwlock_read_clone<T: Clone>(l: &RwLock<T>) -> (r: Result<T, LockPoisoned>) {
    match l.read() {
        Ok(v) => Ok(v.clone()),
        Err(_) => Err(LockPoisoned),
    }
}

/// `RwLock::write`, replacing the value and returning the one it held; it
/// fails, changing nothing, if the lock is poisoned.
#[verifier::external_body]
fn rwlock_replace<T>(l: &RwLock<T>, v: T) -> (r: Result<T, LockPoisoned>) {
    match l.write() {
        Ok(mut g) => Ok(std::mem::replace(&mut *g, v)),
        Err(_) => Err(LockPoisoned),
    }
}

/// `Arc::try_unwrap`: the lock if this is the only handle to it, or the
/// handle back otherwise.
#[verifier::external_body]
fn arc_try_unwrap<T>(a: Arc<RwLock<T>>) -> (r: Result<RwLock<T>, Arc<RwLock<T>>>)
    ensures
        r matches Err(back) ==> back == a,
{
    Arc::try_unwrap(a)
}

/// `RwLock::into_inner`: the value held; it fails if the lock is poisoned.
#[verifier::external_body]
fn rwlock_into_inner<T>(l: RwLock<T>) -> (r: Result<T, LockPoisoned>) {
    match l.into_inner() {
        Ok(v) => Ok(v),
        Err(_) => Err(LockPoisoned),
    }
}

impl<T> WithChildren<T> {
    /// Whether this handle is the parent.
    pub open spec fn is_parent(&self) -> bool {
        self is Parent
    }

    /// The shared lock.
    pub open spec fn shared(&self) -> Arc<RwLock<T>> {
        match self {
            WithChildren::Parent(v) => *v,
            WithChildren::Child(v) => *v,
        }
    }

    /// A parent holding `v`.
    pub fn new(v: T) -> (r: Self)
        ensures
            r.is_parent(),
    {
        WithChildren::Parent(Arc::new(rwlock_new(v)))
    }

    /// The shared lock.
    fn as_arc(&self) -> (r: &Arc<RwLock<T>>)
        ensures
            *r == self.shared(),
    {
        match self {
            WithChildren::Parent(v) => v,
            WithChildren::Child(v) => v,
        }
    }

    /// The shared lock, giving up this handle.
    fn into_arc(self) -> (r: Arc<RwLock<T>>)
        ensures
            r == self.shared(),
    {
        match self {
            WithChildren::Parent(v) => v,
            WithChildren::Child(v) => v,
        }
    }

    /// Whether this handle is the parent.
    pub fn is_parent_handle(&self) -> (r: bool)
        ensures
            r == self.is_parent(),
    {
        matches!(self, WithChildren::Parent(_))
    }

    /// A new child referencing the same value as `self`.
    pub fn child(&self) -> (r: Self)
        ensures
            !r.is_parent(),
            r.shared() == self.shared(),
    {
        WithChildren::Child(arc_clone(self.as_arc()))
    }

    /// A parent holding a clone of the value. Fails if the lock is
    /// poisoned.
    pub fn clone(&self) -> (r: Result<Self, LockPoisoned>)
        where
            T: Clone,
        ensures
            r matches Ok(p) ==> p.is_parent(),
    {
        match rwlock_read_clone(&**self.as_arc()) {
            Ok(v) => Ok(WithChildren::new(v)),
            Err(e) => Err(e),
        }
    }

    /// The value: taken out if this is the only handle to it, cloned
    /// otherwise. Fails if the lock is poisoned.
    pub fn unwrap_or_clone(self) -> (r: Result<T, LockPoisoned>)
        where
            T: Clone,
    {
        match arc_try_unwrap(self.into_arc()) {
            Ok(l) => rwlock_into_inner(l),
            Err(a) => rwlock_read_clone(&*a),
        }
    }

    /// A clone of the value. Fails if the lock is poisoned.
    pub fn get(&self) -> (r: Result<T, LockPoisoned>)
        where
            T: Clone,
    {
        rwlock_read_clone(&**self.as_arc())
    }

    /// A clone of the value, to be modified and stored back with `replace`,
    /// if this handle is the parent; a child may not modify the value and
    /// gets `None`. Fails if the lock is poisoned.
    pub fn get_mut(&mut self) -> (r: Result<Option<T>, LockPoisoned>)
        where
            T: Clone,
        ensures
            !old(self).is_parent() ==> r == Ok::<Option<T>, LockPoisoned>(None),
            old(self).is_parent() ==> !(r matches Ok(None)),
            *final(self) == *old(self),
    {
        match self {
            WithChildren::Parent(a) => match rwlock_read_clone(&**a) {
                Ok(v) => Ok(Some(v)),
                Err(e) => Err(e),
            },
            WithChildren::Child(_) => Ok(None),
        }
    }

    /// Replaces the value, if this handle is the parent, and returns the
    /// value it held; a child may not modify the value and gets `None`,
    /// changing nothing. Fails if the lock is poisoned.
    pub fn replace(&mut self, v: T) -> (r: Result<Option<T>, LockPoisoned>)
        ensures
            !old(self).is_parent() ==> r == Ok::<Option<T>, LockPoisoned>(None),
            old(self).is_parent() ==> !(r matches Ok(None)),
            *final(self) == *old(self),
    {
        match self {
            WithChildren::Parent(a) => match rwlock_replace(&**a, v) {
                Ok(old) => Ok(Some(old)),
                Err(e) => Err(e),
            },
            WithChildren::Child(_) => Ok(None),
        }
    }
}

impl<T: Default> Default for WithChildren<T> {
    /// A parent holding the default value.
    fn default() -> (r: Self)
        ensures
            r.is_parent(),
    {
        WithChildren::new(T::default())
    }
}

} // verus!
