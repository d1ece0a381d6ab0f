//! Host-side handles to component-model futures, streams and error contexts,
//! and their conversion to and from dynamically typed component values.

use std::marker::PhantomData;
use vstd::prelude::*;

verus! {

/// The handle of a `future` inside a dynamically typed value.
#[derive(Clone, Copy, Debug, PartialEq, Eq, Structural)]
pub struct FutureAny(pub u32);

/// The handle of a `stream` inside a dynamically typed value.
#[derive(Clone, Copy, Debug, PartialEq, Eq, Structural)]
pub struct StreamAny(pub u32);

/// The handle of an `error-context` inside a dynamically typed value.
#[derive(Clone, Copy, Debug, PartialEq, Eq, Structural)]
pub struct ErrorContextAny(pub u32);

/// A dynamically typed component value, as far as handles are concerned.
#[derive(Clone, Copy, Debug, PartialEq, Eq, Structural)]
pub enum Val {
    Bool(bool),
    S32(i32),
    U32(u32),
    U64(u64),
    Char(char),
    Future(FutureAny),
    Stream(StreamAny),
    ErrorContext(ErrorContextAny),
}

/// The type of a component value, as named in error messages.
#[derive(Clone, Copy, Debug, PartialEq, Eq, Structural)]
pub enum ValKind {
    Bool,
    S32,
    U32,
    U64,
    Char,
    Future,
    Stream,
    ErrorContext,
}

/// The type of a value.
pub open spec fn kind_of(v: Val) -> ValKind {
    match v {
        Val::Bool(_) => ValKind::Bool,
        Val::S32(_) => ValKind::S32,
        Val::U32(_) => ValKind::U32,
        Val::U64(_) => ValKind::U64,
        Val::Char(_) => ValKind::Char,
        Val::Future(_) => ValKind::Future,
        Val::Stream(_) => ValKind::Stream,
        Val::ErrorContext(_) => ValKind::ErrorContext,
    }
}

impl Val {
    /// The type of this value.
    pub fn kind(&self) -> (r: ValKind)
        ensures
            r == kind_of(*self),
    {
        match self {
            Val::Bool(_) => ValKind::Bool,
            Val::S32(_) => ValKind::S32,
            Val::U32(_) => ValKind::U32,
            Val::U64(_) => ValKind::U64,
            Val::Char(_) => ValKind::Char,
            Val::Future(_) => ValKind::Future,
            Val::Stream(_) => ValKind::Stream,
            Val::ErrorContext(_) => ValKind::ErrorContext,
        }
    }
}

impl ValKind {
    /// The name of the type, as the component model writes it.
    pub fn desc(&self) -> (r: &'static str)
        ensures
            r@ == match *self {
                ValKind::Bool => "bool"@,
                ValKind::S32 => "s32"@,
                ValKind::U32 => "u32"@,
                ValKind::U64 => "u64"@,
                ValKind::Char => "char"@,
                ValKind::Future => "future"@,
                ValKind::Stream => "stream"@,
                ValKind::ErrorContext => "error-context"@,
            },
    {
        match self {
            ValKind::Bool => "bool",
            ValKind::S32 => "s32",
            ValKind::U32 => "u32",
            ValKind::U64 => "u64",
            ValKind::Char => "char",
            ValKind::Future => "future",
            ValKind::Stream => "stream",
            ValKind::ErrorContext => "error-context",
        }
    }
}

/// Why a value could not be taken as a handle.
#[derive(Clone, Copy, Debug, PartialEq, Eq, Structural)]
pub enum FromValError {
    /// The value has another type: "expected `{expected}`; got `{got}`".
    Expected { expected: ValKind, got: ValKind },
    /// The handle names no transmit in the instance's table.
    NotPresent(u32),
}

/// Whether `rep` is among the handles of a table.
pub open spec fn is_live(live: Seq<u32>, rep: u32) -> bool {
    live.contains(rep)
}

/// Looks `rep` up among the live handles.
fn find_rep(live: &Vec<u32>, rep: u32) -> (r: bool)
    ensures
        r == is_live(live@, rep),
{
    let mut i: usize = 0;
    while i < live.len()
        invariant
            i <= live@.len(),
            forall|k: int| 0 <= k < i ==> live@[k] != rep,
        decreases live@.len() - i,
    {
        if live[i] == rep {
            assert(live@[i as int] == rep);
            return true;
        }
        i = i + 1;
    }
    false
}

/// The outcome of taking a value as a `future` or `stream` handle.
pub open spec fn handle_from_val(value: Val, expected: ValKind, live: Seq<u32>) -> Result<
    u32,
    FromValError,
> {
    let rep = match value {
        Val::Future(FutureAny(r)) => if expected == ValKind::Future {
            Some(r)
        } else {
            None
        },
        Val::Stream(StreamAny(r)) => if expected == ValKind::Stream {
            Some(r)
        } else {
            None
        },
        _ => None,
    };
    match rep {
        None => Err(FromValError::Expected { expected, got: kind_of(value) }),
        Some(r) => if is_live(live, r) {
            Ok(r)
        } else {
            Err(FromValError::NotPresent(r))
        },
    }
}

/// The read end of a component-model `future` held by the host, named by
/// its handle in the instance's table.
pub struct HostFuture<T> {
    rep: u32,
    _phantom: PhantomData<T>,
}

impl<T> View for HostFuture<T> {
    type V = u32;

    closed spec fn view(&self) -> u32 {
        self.rep
    }
}

impl<T> HostFuture<T> {
    fn new(rep: u32) -> (r: Self)
        ensures
            r@ == rep,
    {
        HostFuture { rep, _phantom: PhantomData }
    }

    /// This handle as a dynamically typed value.
    pub fn into_val(self) -> (r: Val)
        ensures
            r == Val::Future(FutureAny(self@)),
    {
        Val::Future(FutureAny(self.rep))
    }

    /// Takes a value as a `future` handle. `live` lists the handles of the
    /// transmits in the instance's table; the handle must be among them.
    pub fn from_val(value: &Val, live: &Vec<u32>) -> (r: Result<Self, FromValError>)
        ensures
            match handle_from_val(*value, ValKind::Future, live@) {
                Ok(rep) => r matches Ok(h) && h@ == rep,
                Err(e) => r matches Err(x) && x == e,
            },
    {
        let rep = match value {
            Val::Future(FutureAny(rep)) => *rep,
            _ => return Err(FromValError::Expected { expected: ValKind::Future, got: value.kind() }),
        };
        if !find_rep(live, rep) {
            return Err(FromValError::NotPresent(rep));
        }
        Ok(Self::new(rep))
    }
}

/// The read end of a component-model `stream` held by the host, named by
/// its handle in the instance's table.
pub struct HostStream<T> {
    rep: u32,
    _phantom: PhantomData<T>,
}

impl<T> View for HostStream<T> {
    type V = u32;

    closed spec fn view(&self) -> u32 {
        self.rep
    }
}

impl<T> HostStream<T> {
    fn new(rep: u32) -> (r: Self)
        ensures
            r@ == rep,
    {
        HostStream { rep, _phantom: PhantomData }
    }

    /// This handle as a dynamically typed value.
    pub fn into_val(self) -> (r: Val)
        ensures
            r == Val::Stream(StreamAny(self@)),
    {
        Val::Stream(StreamAny(self.rep))
    }

    /// Takes a value as a `stream` handle. `live` lists the handles of the
    /// transmits in the instance's table; the handle must be among them.
    pub fn from_val(value: &Val, live: &Vec<u32>) -> (r: Result<Self, FromValError>)
        ensures
            match handle_from_val(*value, ValKind::Stream, live@) {
                Ok(rep) => r matches Ok(h) && h@ == rep,
                Err(e) => r matches Err(x) && x == e,
            },
    {
        let rep = match value {
            Val::Stream(StreamAny(rep)) => *rep,
            _ => return Err(FromValError::Expected { expected: ValKind::Stream, got: value.kind() }),
        };
        if !find_rep(live, rep) {
            return Err(FromValError::NotPresent(rep));
        }
        Ok(Self::new(rep))
    }
}

/// A component-model `error-context`, named by its handle.
pub struct ErrorContext {
    rep: u32,
}

impl View for ErrorContext {
    type V = u32;

    closed spec fn view(&self) -> u32 {
        self.rep
    }
}

impl ErrorContext {
    pub(crate) fn new(rep: u32) -> (r: Self)
        ensures
            r@ == rep,
    {
        ErrorContext { rep }
    }

    /// This error context as a dynamically typed value.
    pub fn into_val(self) -> (r: Val)
        ensures
            r == Val::ErrorContext(ErrorContextAny(self@)),
    {
        Val::ErrorContext(ErrorContextAny(self.rep))
    }

    /// Takes a value as an `error-context`.
    pub fn from_val(value: &Val) -> (r: Result<Self, FromValError>)
        ensures
            match *value {
                Val::ErrorContext(ErrorContextAny(rep)) => r matches Ok(e) && e@ == rep,
                _ => r == Err::<Self, FromValError>(
                    FromValError::Expected { expected: ValKind::ErrorContext, got: kind_of(*value) },
                ),
            },
    {
        match value {
            Val::ErrorContext(ErrorContextAny(rep)) => Ok(Self::new(*rep)),
            _ => Err(FromValError::Expected { expected: ValKind::ErrorContext, got: value.kind() }),
        }
    }
}

/// Converting a handle to a value and back gives the same handle, provided
/// it is still in the table.
pub proof fn lemma_handle_roundtrip(rep: u32, live: Seq<u32>)
    requires
        is_live(live, rep),
    ensures
        handle_from_val(Val::Future(FutureAny(rep)), ValKind::Future, live) == Ok::<
            u32,
            FromValError,
        >(rep),
        handle_from_val(Val::Stream(StreamAny(rep)), ValKind::Stream, live) == Ok::<
            u32,
            FromValError,
        >(rep),
        handle_from_val(Val::Future(FutureAny(rep)), ValKind::Stream, live) is Err,
        handle_from_val(Val::Stream(StreamAny(rep)), ValKind::Future, live) is Err,
{
}

} // verus!
