//! Buffers that host code hands to stream writers and readers.

use std::collections::VecDeque;
use crate::abi::CLOSED;
use vstd::prelude::*;

verus! {

/// A buffer whose items may be written to a stream.
pub trait WriteBuffer<T> {
    /// The items still to be written, first item first.
    spec fn pending(&self) -> Seq<T>;

    /// Number of items remaining to be written.
    fn remaining(&self) -> (r: usize)
        ensures
            r == self.pending().len(),
    ;

    /// Drops the first `count` items.
    fn skip(&mut self, count: usize)
        requires
            count <= old(self).pending().len(),
        ensures
            final(self).pending() == old(self).pending().skip(count as int),
    ;

    /// Moves the first `count` items out of the buffer, in order.
    fn take(&mut self, count: usize) -> (r: Vec<T>)
        requires
            count <= old(self).pending().len(),
        ensures
            r@ == old(self).pending().take(count as int),
            final(self).pending() == old(self).pending().skip(count as int),
    ;
}

/// A buffer into which items read from a stream may be moved.
pub trait ReadBuffer<T> {
    /// The items received so far.
    spec fn received(&self) -> Seq<T>;

    /// How many more items fit.
    spec fn room(&self) -> nat;

    /// Number of items which may be read before this buffer is full.
    fn remaining_capacity(&self) -> (r: usize)
        ensures
            r == self.room(),
    ;

    /// Moves `input` into this buffer, after what it already holds.
    fn copy_from(&mut self, input: Vec<T>)
        requires
            input@.len() <= old(self).room(),
        ensures
            final(self).received() == old(self).received() + input@,
            final(self).room() == old(self).room() - input@.len(),
    ;
}

/// Container for sending or receiving at most one element at a time.
pub struct Single<T>(Option<T>);

impl<T> Single<T> {
    /// The value held, if any.
    pub closed spec fn value(&self) -> Option<T> {
        self.0
    }

    /// Creates an instance holding `value`.
    pub fn new(value: T) -> (r: Self)
        ensures
            r.value() == Some(value),
    {
        Single(Some(value))
    }

    /// Creates an instance holding nothing.
    pub fn empty() -> (r: Self)
        ensures
            r.value() is None,
    {
        Single(None)
    }

    /// Removes the value (if any), leaving this instance empty.
    pub fn take(&mut self) -> (r: Option<T>)
        ensures
            r == old(self).value(),
            final(self).value() is None,
    {
        let r = self.0.take();
        r
    }
}

/// The items of an optional value, as a sequence of length at most one.
pub open spec fn option_items<T>(v: Option<T>) -> Seq<T> {
    match v {
        Some(x) => seq![x],
        None => Seq::empty(),
    }
}

impl<T> WriteBuffer<T> for Single<T> {
    open spec fn pending(&self) -> Seq<T> {
        option_items(self.value())
    }

    fn remaining(&self) -> (r: usize) {
        if self.0.is_some() {
            1
        } else {
            0
        }
    }

    fn skip(&mut self, count: usize) {
        if count == 1 {
            self.0 = None;
        }
        proof {
            assert(old(self).pending().skip(count as int) =~= self.pending());
        }
    }

    fn take(&mut self, count: usize) -> (r: Vec<T>) {
        let mut out = Vec::new();
        if count == 1 {
            match self.0.take() {
                Some(x) => out.push(x),
                None => {},
            }
        }
        proof {
            assert(old(self).pending().skip(count as int) =~= self.pending());
            assert(old(self).pending().take(count as int) =~= out@);
        }
        out
    }
}

impl<T> ReadBuffer<T> for Single<T> {
    open spec fn received(&self) -> Seq<T> {
        option_items(self.value())
    }

    open spec fn room(&self) -> nat {
        if self.value() is Some {
            0
        } else {
            1
        }
    }

    fn remaining_capacity(&self) -> (r: usize) {
        if self.0.is_some() {
            0
        } else {
            1
        }
    }

    fn copy_from(&mut self, input: Vec<T>) {
        let ghost given = input@;
        let mut input = input;
        if input.len() == 1 {
            self.0 = input.pop();
        }
        proof {
            assert(self.received() =~= old(self).received() + given);
        }
    }
}

/// A write buffer backed by a queue of items.
pub struct VecBuffer<T> {
    buffer: VecDeque<T>,
}

impl<T> VecBuffer<T> {
    /// The items not yet written, first item first.
    pub closed spec fn items(&self) -> Seq<T> {
        self.buffer@
    }

    /// Creates an empty buffer with room for `capacity` items.
    pub fn with_capacity(capacity: usize) -> (r: Self)
        ensures
            r.items() == Seq::<T>::empty(),
    {
        VecBuffer { buffer: VecDeque::with_capacity(capacity) }
    }

    /// Creates a buffer holding the items of `items`, in order.
    pub fn from_vec(items: Vec<T>) -> (r: Self)
        ensures
            r.items() == items@,
    {
        let mut items = items;
        let mut buffer: VecDeque<T> = VecDeque::with_capacity(items.len());
        let ghost all = items@;
        while items.len() > 0
            invariant
                all == items@ + buffer@,
            decreases items.len(),
        {
            let x = items.pop().unwrap();
            buffer.push_front(x);
            proof {
                assert(all =~= items@ + buffer@);
            }
        }
        proof {
            assert(buffer@ =~= all);
        }
        VecBuffer { buffer }
    }

    /// Removes all items, keeping the buffer's allocation.
    pub fn reset(&mut self)
        ensures
            final(self).items() == Seq::<T>::empty(),
    {
        self.buffer.clear();
    }

    /// The item at position `i` of the pending items.
    pub fn get(&self, i: usize) -> (r: &T)
        requires
            i < self.items().len(),
        ensures
            *r == self.items()[i as int],
    {
        &self.buffer[i]
    }
}

impl<T> WriteBuffer<T> for VecBuffer<T> {
    open spec fn pending(&self) -> Seq<T> {
        self.items()
    }

    fn remaining(&self) -> (r: usize) {
        self.buffer.len()
    }

    fn skip(&mut self, count: usize) {
        let _ = self.take(count);
    }

    fn take(&mut self, count: usize) -> (r: Vec<T>) {
        let mut out: Vec<T> = Vec::new();
        let mut i: usize = 0;
        let ghost start = self.buffer@;
        while i < count
            invariant
                i <= count,
                count <= start.len(),
                out@ == start.take(i as int),
                self.buffer@ == start.skip(i as int),
            decreases count - i,
        {
            let x = self.buffer.pop_front().unwrap();
            out.push(x);
            i = i + 1;
            proof {
                assert(out@ =~= start.take(i as int));
                assert(self.buffer@ =~= start.skip(i as int));
            }
        }
        out
    }
}

/// Moves as many items as fit from `src` into `dst` and returns how many
/// moved: the smaller of what `src` holds and what `dst` has room for.
pub fn transfer<T, W: WriteBuffer<T>, R: ReadBuffer<T>>(src: &mut W, dst: &mut R) -> (n: usize)
    ensures
        n == if old(src).pending().len() <= old(dst).room() {
            old(src).pending().len()
        } else {
            old(dst).room()
        },
        final(src).pending() == old(src).pending().skip(n as int),
        final(dst).received() == old(dst).received() + old(src).pending().take(n as int),
        final(dst).room() == old(dst).room() - n,
{
    let available = src.remaining();
    let room = dst.remaining_capacity();
    let n = if available <= room {
        available
    } else {
        room
    };
    let items = src.take(n);
    dst.copy_from(items);
    n
}

/// What a host read hands back: its buffer, and whether the writer end had
/// closed instead of writing.
pub struct HostResult<B> {
    pub buffer: B,
    pub closed: bool,
}

/// A host reader's buffer meets a host writer: as many items move as the
/// buffer has room for (see `transfer`); the buffer goes back open, and the
/// count moved is the answer.
pub fn accept_host_writer<T, W: WriteBuffer<T>, R: ReadBuffer<T>>(src: &mut W, buffer: R) -> (r: (
    HostResult<R>,
    usize,
))
    ensures
        r.1 == if old(src).pending().len() <= buffer.room() {
            old(src).pending().len()
        } else {
            buffer.room()
        },
        !r.0.closed,
        final(src).pending() == old(src).pending().skip(r.1 as int),
        r.0.buffer.received() == buffer.received() + old(src).pending().take(r.1 as int),
        r.0.buffer.room() == buffer.room() - r.1,
{
    let mut buffer = buffer;
    let n = transfer(src, &mut buffer);
    (HostResult { buffer, closed: false }, n)
}

/// A host reader's buffer meets the end of the writer: the buffer goes back
/// untouched and marked closed, and the answer is `CLOSED`.
pub fn accept_end_writer<B>(buffer: B) -> (r: (HostResult<B>, u32))
    ensures
        r.0.buffer == buffer,
        r.0.closed,
        r.1 == CLOSED,
{
    (HostResult { buffer, closed: true }, CLOSED)
}

/// Why a guest's list of items for a stream was refused.
#[derive(Clone, Copy, Debug, PartialEq, Eq, Structural)]
pub enum GuestListError {
    /// The address is not aligned for the item type.
    NotAligned,
    /// The list does not lie inside the guest's memory.
    OutOfBounds,
}

/// Whether `count` items of `size` bytes at `address` lie inside a memory
/// of `len` bytes.
pub open spec fn list_in_bounds(len: nat, address: nat, size: nat, count: nat) -> bool {
    address <= len && size * count <= len - address
}

/// How many items a guest reader takes from a host write: the guest's list
/// (`count` items of `size` bytes, alignment `align`, at `address`) must be
/// aligned and inside its memory; then as many items move as the guest asked
/// for and the host has, whichever is fewer.
pub fn reader_accept_count(
    memory_len: usize,
    address: usize,
    align: usize,
    size: usize,
    count: usize,
    available: usize,
) -> (r: Result<usize, GuestListError>)
    requires
        align > 0,
        size * count <= usize::MAX,
    ensures
        r == if address % align != 0 {
            Err(GuestListError::NotAligned)
        } else if !list_in_bounds(memory_len as nat, address as nat, size as nat, count as nat) {
            Err(GuestListError::OutOfBounds)
        } else if available <= count {
            Ok::<usize, GuestListError>(available)
        } else {
            Ok::<usize, GuestListError>(count)
        },
{
    if address % align != 0 {
        return Err(GuestListError::NotAligned);
    }
    if address > memory_len || size * count > memory_len - address {
        return Err(GuestListError::OutOfBounds);
    }
    if available <= count {
        Ok(available)
    } else {
        Ok(count)
    }
}

/// How many items a guest writer gives to a host read: as many as the guest
/// offers and the host has room for, whichever is fewer; unless the items
/// carry no data (`unit`), the guest's list of that many items must be
/// aligned and inside its memory.
pub fn writer_accept_count(
    memory_len: usize,
    address: usize,
    align: usize,
    size: usize,
    count: usize,
    room: usize,
    unit: bool,
) -> (r: Result<usize, GuestListError>)
    requires
        align > 0,
        size * count <= usize::MAX,
    ensures
        ({
            let n = if count <= room {
                count
            } else {
                room
            };
            r == if unit {
                Ok::<usize, GuestListError>(n)
            } else if address % align != 0 {
                Err(GuestListError::NotAligned)
            } else if !list_in_bounds(memory_len as nat, address as nat, size as nat, n as nat) {
                Err(GuestListError::OutOfBounds)
            } else {
                Ok::<usize, GuestListError>(n)
            }
        }),
{
    let n = if count <= room {
        count
    } else {
        room
    };
    if unit {
        return Ok(n);
    }
    if address % align != 0 {
        return Err(GuestListError::NotAligned);
    }
    proof {
        assert(size * n <= size * count) by (nonlinear_arith)
            requires
                n <= count,
        ;
    }
    if address > memory_len || size * n > memory_len - address {
        return Err(GuestListError::OutOfBounds);
    }
    Ok(n)
}

/// Checks a guest's list of `count` items of `size` bytes at `address` in a
/// memory of `memory_len` bytes: it must be aligned to `align` and lie
/// inside the memory.
pub fn check_guest_list(memory_len: usize, address: usize, align: usize, size: usize, count: usize) -> (r:
    Result<(), GuestListError>)
    requires
        align > 0,
        size * count <= usize::MAX,
    ensures
        r == if address % align != 0 {
            Err(GuestListError::NotAligned)
        } else if !list_in_bounds(memory_len as nat, address as nat, size as nat, count as nat) {
            Err(GuestListError::OutOfBounds)
        } else {
            Ok::<(), GuestListError>(())
        },
{
    if address % align != 0 {
        return Err(GuestListError::NotAligned);
    }
    if address > memory_len || size * count > memory_len - address {
        return Err(GuestListError::OutOfBounds);
    }
    Ok(())
}

/// Why a copy between a guest writer's and a guest reader's lists was
/// refused, and on which side.
#[derive(Clone, Copy, Debug, PartialEq, Eq, Structural)]
pub enum CopyError {
    /// The writer's list.
    Write(GuestListError),
    /// The reader's list.
    Read(GuestListError),
}

/// The memory after `bytes` are written at `at`.
pub open spec fn overwritten(mem: Seq<u8>, at: int, bytes: Seq<u8>) -> Seq<u8> {
    mem.subrange(0, at) + bytes + mem.subrange(at + bytes.len(), mem.len() as int)
}

/// The outcome of copying `count` items of `size` bytes, whose layout has
/// no pointers or handles, from the writer's memory `src` at
/// `write_address` to the reader's memory `dst` at `read_address`: both
/// addresses must be aligned to `align`, then both lists must lie inside
/// their memories; nothing is checked when no byte moves.
pub open spec fn flat_copy_outcome(
    src: Seq<u8>,
    write_address: nat,
    dst: Seq<u8>,
    read_address: nat,
    align: nat,
    len: nat,
) -> Result<Seq<u8>, CopyError> {
    if len == 0 {
        Ok(dst)
    } else if write_address % align != 0 {
        Err(CopyError::Write(GuestListError::NotAligned))
    } else if read_address % align != 0 {
        Err(CopyError::Read(GuestListError::NotAligned))
    } else if !list_in_bounds(src.len(), write_address, len, 1) {
        Err(CopyError::Write(GuestListError::OutOfBounds))
    } else if !list_in_bounds(dst.len(), read_address, len, 1) {
        Err(CopyError::Read(GuestListError::OutOfBounds))
    } else {
        Ok(
            overwritten(
                dst,
                read_address as int,
                src.subrange(write_address as int, (write_address + len) as int),
            ),
        )
    }
}

/// Copies `count` flat items of `size` bytes from a guest writer's memory
/// to a guest reader's memory, byte for byte. On a refusal the reader's
/// memory is unchanged.
pub fn flat_copy(
    src: &Vec<u8>,
    write_address: usize,
    dst: &mut Vec<u8>,
    read_address: usize,
    size: usize,
    align: usize,
    count: usize,
) -> (r: Result<(), CopyError>)
    requires
        align > 0,
        size * count <= usize::MAX,
    ensures
        match flat_copy_outcome(
            src@,
            write_address as nat,
            old(dst)@,
            read_address as nat,
            align as nat,
            (size * count) as nat,
        ) {
            Ok(after) => r is Ok && final(dst)@ == after,
            Err(e) => r == Err::<(), CopyError>(e) && final(dst)@ == old(dst)@,
        },
{
    let len: usize = size * count;
    if len == 0 {
        return Ok(());
    }
    if write_address % align != 0 {
        return Err(CopyError::Write(GuestListError::NotAligned));
    }
    if read_address % align != 0 {
        return Err(CopyError::Read(GuestListError::NotAligned));
    }
    if write_address > src.len() || len > src.len() - write_address {
        return Err(CopyError::Write(GuestListError::OutOfBounds));
    }
    if read_address > dst.len() || len > dst.len() - read_address {
        return Err(CopyError::Read(GuestListError::OutOfBounds));
    }
    let ghost before = dst@;
    let src_len: usize = src.len();
    let dst_len: usize = dst.len();
    let mut i: usize = 0;
    while i < len
        invariant
            i <= len,
            src_len == src@.len(),
            dst_len == before.len(),
            write_address + len <= src_len,
            read_address + len <= dst_len,
            dst@.len() == before.len(),
            forall|j: int| 0 <= j < read_address ==> dst@[j] == before[j],
            forall|j: int| read_address + len <= j < before.len() ==> dst@[j] == before[j],
            forall|j: int|
                read_address <= j < read_address + i ==> #[trigger] dst@[j] == src@[j - read_address
                    + write_address],
        decreases len - i,
    {
        let b = src[write_address + i];
        dst.set(read_address + i, b);
        i = i + 1;
    }
    proof {
        let moved = src@.subrange(write_address as int, write_address + len);
        assert(dst@ =~= overwritten(before, read_address as int, moved));
    }
    Ok(())
}

} // verus!
