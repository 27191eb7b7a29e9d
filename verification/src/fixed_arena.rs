//! A bump allocator over a single block of caller-chosen size and alignment.
//!
//! The arena owns `capacity` bytes and a cursor `used`. Every allocation
//! advances the cursor by the byte size of the request and hands back the
//! offset the region starts at; a request that would push the cursor past the
//! capacity returns [`AllocError::AtCapacity`] and leaves the arena untouched.
//! `reset` moves the cursor back to zero in constant time, reclaiming every
//! region at once. The block is never reallocated, so offsets handed out stay
//! valid until the next reset.

use vstd::prelude::*;

use crate::errors::AllocError;
use crate::layout::{fits, array_size, array_total_size, max_alloc_size};

verus! {

/// The abstract state of a fixed arena: the cursor, the alignment the block
/// was acquired with, and the bytes of the block.
pub ghost struct FixedArenaView {
    pub used: nat,
    pub base_align: nat,
    pub mem: Seq<u8>,
}

impl FixedArenaView {
    /// The byte capacity of the arena: the length of its block.
    pub open spec fn capacity(self) -> nat {
        self.mem.len()
    }
}

/// `n` is a power of two.
pub open spec fn is_power_of_two(n: int) -> bool
    decreases n,
{
    if n <= 0 {
        false
    } else if n == 1 {
        true
    } else {
        n % 2 == 0 && is_power_of_two(n / 2)
    }
}

/// A bump allocator over one heap block that never grows.
pub struct FixedArena {
    mem: Vec<u8>,
    used: usize,
    base_align: usize,
}

impl View for FixedArena {
    type V = FixedArenaView;

    closed spec fn view(&self) -> FixedArenaView {
        FixedArenaView {
            used: self.used as nat,
            base_align: self.base_align as nat,
            mem: self.mem@,
        }
    }
}

impl FixedArena {
    /// The arena's invariant: the cursor never passes the capacity.
    pub closed spec fn wf(&self) -> bool {
        self.used <= self.mem.len()
    }

    /// The invariant, restated over the abstract state: at every observable
    /// point, `0 <= used <= capacity`.
    pub proof fn lemma_cursor_in_bounds(&self)
        requires
            self.wf(),
        ensures
            self@.used <= self@.capacity(),
    {
    }

    /// Make a new fixed arena with the given byte capacity and alignment.
    ///
    /// The alignment must be a power of two and the capacity must leave the
    /// layout within the signed offset range; arguments outside that are a
    /// programmer error, not a runtime condition.
    pub fn with_capacity(capacity: usize, align: usize) -> (r: FixedArena)
        requires
            is_power_of_two(align as int),
            capacity + align <= max_alloc_size(),
        ensures
            r.wf(),
            r@.used == 0,
            r@.base_align == align,
            r@.capacity() == capacity,
    {
        FixedArena { mem: vec![0u8; capacity], used: 0, base_align: align }
    }

    /// The core of every allocation: advance the cursor by `size` bytes and
    /// return the offset the region starts at, or report `AtCapacity` and
    /// leave the arena exactly as it was. The request succeeds if and only if
    /// `size` bytes fit between the cursor and the capacity.
    pub fn get_alloc_ptr(&mut self, size: usize) -> (r: Result<usize, AllocError>)
        requires
            old(self).wf(),
        ensures
            final(self).wf(),
            final(self)@.base_align == old(self)@.base_align,
            final(self)@.mem == old(self)@.mem,
            r is Ok <==> fits(old(self)@.used as int, size as int, old(self)@.capacity() as int),
            r matches Ok(off) ==> off == old(self)@.used
                && final(self)@.used == old(self)@.used + size,
            r is Err ==> final(self)@ == old(self)@,
            r matches Err(e) ==> e == AllocError::AtCapacity,
    {
        if size <= self.mem.len() - self.used {
            let off = self.used;
            self.used = self.used + size;
            Ok(off)
        } else {
            Err(AllocError::AtCapacity)
        }
    }

    /// Write `val` into the block at `offset`, touching nothing else.
    fn write_bytes(&mut self, offset: usize, val: &[u8])
        requires
            old(self).wf(),
            offset + val@.len() <= old(self)@.capacity(),
        ensures
            final(self).wf(),
            final(self)@.used == old(self)@.used,
            final(self)@.base_align == old(self)@.base_align,
            final(self)@.mem.len() == old(self)@.mem.len(),
            forall|i: int| offset <= i < offset + val@.len()
                ==> final(self)@.mem[i] == val@[i - offset],
            forall|i: int| 0 <= i < old(self)@.mem.len()
                && !(offset <= i < offset + val@.len())
                ==> final(self)@.mem[i] == old(self)@.mem[i],
    {
        let mut j: usize = 0;
        while j < val.len()
            invariant
                self.wf(),
                j <= val@.len(),
                offset + val@.len() <= self@.capacity(),
                self@.used == old(self)@.used,
                self@.base_align == old(self)@.base_align,
                self@.mem.len() == old(self)@.mem.len(),
                forall|i: int| offset <= i < offset + j ==> self@.mem[i] == val@[i - offset],
                forall|i: int| 0 <= i < old(self)@.mem.len()
                    && !(offset <= i < offset + val@.len())
                    ==> self@.mem[i] == old(self)@.mem[i],
            decreases val@.len() - j,
        {
            self.mem[offset + j] = val[j];
            j = j + 1;
        }
    }

    /// Write `count` zero bytes into the block at `offset`, touching nothing
    /// else.
    fn write_zero_bytes(&mut self, offset: usize, count: usize)
        requires
            old(self).wf(),
            offset + count <= old(self)@.capacity(),
        ensures
            final(self).wf(),
            final(self)@.used == old(self)@.used,
            final(self)@.base_align == old(self)@.base_align,
            final(self)@.mem.len() == old(self)@.mem.len(),
            forall|i: int| offset <= i < offset + count ==> final(self)@.mem[i] == 0,
            forall|i: int| 0 <= i < old(self)@.mem.len()
                && !(offset <= i < offset + count)
                ==> final(self)@.mem[i] == old(self)@.mem[i],
    {
        let mut j: usize = 0;
        while j < count
            invariant
                self.wf(),
                j <= count,
                offset + count <= self@.capacity(),
                self@.used == old(self)@.used,
                self@.base_align == old(self)@.base_align,
                self@.mem.len() == old(self)@.mem.len(),
                forall|i: int| offset <= i < offset + j ==> self@.mem[i] == 0,
                forall|i: int| 0 <= i < old(self)@.mem.len()
                    && !(offset <= i < offset + count)
                    ==> self@.mem[i] == old(self)@.mem[i],
            decreases count - j,
        {
            self.mem[offset + j] = 0;
            j = j + 1;
        }
    }

    /// Allocate one value, given as its bytes, and initialise the region with
    /// it. On success the returned offset is the old cursor, the cursor
    /// advances by exactly `val.len()`, the region holds `val`, and no other
    /// byte of the arena changes. The request succeeds if and only if it fits
    /// the remaining capacity; on failure the arena is untouched.
    pub fn alloc_value(&mut self, val: &[u8]) -> (r: Result<usize, AllocError>)
        requires
            old(self).wf(),
        ensures
            final(self).wf(),
            final(self)@.base_align == old(self)@.base_align,
            final(self)@.capacity() == old(self)@.capacity(),
            r is Ok <==> fits(old(self)@.used as int, val@.len() as int,
                old(self)@.capacity() as int),
            r matches Ok(off) ==> {
                &&& off == old(self)@.used
                &&& final(self)@.used == old(self)@.used + val@.len()
                &&& forall|i: int| off <= i < off + val@.len()
                    ==> final(self)@.mem[i] == val@[i - off]
                &&& forall|i: int| 0 <= i < old(self)@.mem.len()
                    && !(off <= i < off + val@.len())
                    ==> final(self)@.mem[i] == old(self)@.mem[i]
            },
            r is Err ==> final(self)@ == old(self)@,
            r matches Err(e) ==> e == AllocError::AtCapacity,
    {
        match self.get_alloc_ptr(val.len()) {
            Ok(off) => {
                self.write_bytes(off, val);
                Ok(off)
            },
            Err(e) => Err(e),
        }
    }

    /// Allocate `size` bytes and zero them. Same cursor discipline as
    /// [`FixedArena::alloc_value`]; every byte of the returned region reads as
    /// zero.
    pub fn alloc_zeroed(&mut self, size: usize) -> (r: Result<usize, AllocError>)
        requires
            old(self).wf(),
        ensures
            final(self).wf(),
            final(self)@.base_align == old(self)@.base_align,
            final(self)@.capacity() == old(self)@.capacity(),
            r is Ok <==> fits(old(self)@.used as int, size as int,
                old(self)@.capacity() as int),
            r matches Ok(off) ==> {
                &&& off == old(self)@.used
                &&& final(self)@.used == old(self)@.used + size
                &&& forall|i: int| off <= i < off + size ==> final(self)@.mem[i] == 0
                &&& forall|i: int| 0 <= i < old(self)@.mem.len()
                    && !(off <= i < off + size)
                    ==> final(self)@.mem[i] == old(self)@.mem[i]
            },
            r is Err ==> final(self)@ == old(self)@,
            r matches Err(e) ==> e == AllocError::AtCapacity,
    {
        match self.get_alloc_ptr(size) {
            Ok(off) => {
                self.write_zero_bytes(off, size);
                Ok(off)
            },
            Err(e) => Err(e),
        }
    }

    /// Allocate an array of `count` elements and initialise every element
    /// with `val`, the bytes of one element. On success the region holds
    /// `count` back-to-back copies of `val`. The total size is
    /// `val.len() * count` and must stay within the signed offset range;
    /// beyond it lies a programmer error, not a capacity condition.
    pub fn alloc_array(&mut self, val: &[u8], count: usize) -> (r: Result<usize, AllocError>)
        requires
            old(self).wf(),
            array_size(val@.len() as int, count as int) <= max_alloc_size(),
        ensures
            final(self).wf(),
            final(self)@.base_align == old(self)@.base_align,
            final(self)@.capacity() == old(self)@.capacity(),
            r is Ok <==> fits(old(self)@.used as int,
                array_size(val@.len() as int, count as int),
                old(self)@.capacity() as int),
            r matches Ok(off) ==> {
                &&& off == old(self)@.used
                &&& final(self)@.used == old(self)@.used
                    + array_size(val@.len() as int, count as int)
                &&& forall|i: int| off <= i < off + array_size(val@.len() as int, count as int)
                    ==> final(self)@.mem[i] == val@[(i - off) % val@.len() as int]
                &&& forall|i: int| 0 <= i < old(self)@.mem.len()
                    && !(off <= i < off + array_size(val@.len() as int, count as int))
                    ==> final(self)@.mem[i] == old(self)@.mem[i]
            },
            r is Err ==> final(self)@ == old(self)@,
            r matches Err(e) ==> e == AllocError::AtCapacity,
    {
        let elem = val.len();
        let total = array_total_size(elem, count);
        match self.get_alloc_ptr(total) {
            Ok(off) => {
                let mut k: usize = 0;
                while k < count
                    invariant
                        self.wf(),
                        k <= count,
                        elem == val@.len(),
                        total == array_size(elem as int, count as int),
                        off + total <= self@.capacity(),
                        self@.used == off + total,
                        self@.base_align == old(self)@.base_align,
                        self@.mem.len() == old(self)@.mem.len(),
                        k * elem <= total,
                        forall|i: int| off <= i < off + k * elem
                            ==> self@.mem[i] == val@[(i - off) % elem as int],
                        forall|i: int| 0 <= i < old(self)@.mem.len()
                            && !(off <= i < off + total)
                            ==> self@.mem[i] == old(self)@.mem[i],
                    decreases count - k,
                {
                    proof {
                        vstd::arithmetic::mul::lemma_mul_is_distributive_add_other_way(
                            elem as int, k as int, 1);
                        vstd::arithmetic::mul::lemma_mul_inequality(
                            k as int + 1, count as int, elem as int);
                        vstd::arithmetic::mul::lemma_mul_is_commutative(
                            k as int + 1, elem as int);
                        vstd::arithmetic::mul::lemma_mul_is_commutative(
                            count as int, elem as int);
                        vstd::arithmetic::mul::lemma_mul_nonnegative(
                            k as int, elem as int);
                    }
                    let base = off + k * elem;
                    let ghost prev_mem = self@.mem;
                    self.write_bytes(base, val);
                    proof {
                        assert forall|i: int| off <= i < off + (k + 1) * elem
                            implies self@.mem[i] == val@[(i - off) % elem as int] by {
                            if i < base {
                                assert(self@.mem[i] == prev_mem[i]);
                            } else {
                                assert(self@.mem[i] == val@[i - base]);
                                vstd::arithmetic::div_mod::lemma_fundamental_div_mod_converse_mod(
                                    i - off, elem as int, k as int, i - base);
                            }
                        }
                    }
                    k = k + 1;
                }
                proof {
                    vstd::arithmetic::mul::lemma_mul_is_commutative(count as int, elem as int);
                }
                Ok(off)
            },
            Err(e) => Err(e),
        }
    }

    /// Allocate a zero-initialised array of `count` elements of `elem_size`
    /// bytes each. Every byte of the returned region reads as zero.
    pub fn alloc_zeroed_array(&mut self, elem_size: usize, count: usize) -> (r: Result<
        usize,
        AllocError,
    >)
        requires
            old(self).wf(),
            array_size(elem_size as int, count as int) <= max_alloc_size(),
        ensures
            final(self).wf(),
            final(self)@.base_align == old(self)@.base_align,
            final(self)@.capacity() == old(self)@.capacity(),
            r is Ok <==> fits(old(self)@.used as int,
                array_size(elem_size as int, count as int),
                old(self)@.capacity() as int),
            r matches Ok(off) ==> {
                &&& off == old(self)@.used
                &&& final(self)@.used == old(self)@.used
                    + array_size(elem_size as int, count as int)
                &&& forall|i: int| off <= i < off + array_size(elem_size as int, count as int)
                    ==> final(self)@.mem[i] == 0
                &&& forall|i: int| 0 <= i < old(self)@.mem.len()
                    && !(off <= i < off + array_size(elem_size as int, count as int))
                    ==> final(self)@.mem[i] == old(self)@.mem[i]
            },
            r is Err ==> final(self)@ == old(self)@,
            r matches Err(e) ==> e == AllocError::AtCapacity,
    {
        let total = array_total_size(elem_size, count);
        match self.get_alloc_ptr(total) {
            Ok(off) => {
                self.write_zero_bytes(off, total);
                Ok(off)
            },
            Err(e) => Err(e),
        }
    }

    /// Allocate an array of `count` elements of `elem_size` bytes each
    /// without initialising it. The cursor advances and the region's bytes
    /// are whatever the block already held; the caller must write every slot
    /// before reading it.
    pub fn alloc_uninitialized_array(&mut self, elem_size: usize, count: usize) -> (r: Result<
        usize,
        AllocError,
    >)
        requires
            old(self).wf(),
            array_size(elem_size as int, count as int) <= max_alloc_size(),
        ensures
            final(self).wf(),
            final(self)@.base_align == old(self)@.base_align,
            final(self)@.mem == old(self)@.mem,
            r is Ok <==> fits(old(self)@.used as int,
                array_size(elem_size as int, count as int),
                old(self)@.capacity() as int),
            r matches Ok(off) ==> off == old(self)@.used
                && final(self)@.used == old(self)@.used
                    + array_size(elem_size as int, count as int),
            r is Err ==> final(self)@ == old(self)@,
            r matches Err(e) ==> e == AllocError::AtCapacity,
    {
        let total = array_total_size(elem_size, count);
        self.get_alloc_ptr(total)
    }

    /// Move the cursor back to zero, reclaiming every allocation at once.
    /// The block and its bytes are untouched. Taking the arena exclusively
    /// is what makes this sound: no offset handed out before the reset can
    /// be read through the arena while the reset happens.
    pub fn reset(&mut self)
        requires
            old(self).wf(),
        ensures
            final(self).wf(),
            final(self)@.used == 0,
            final(self)@.base_align == old(self)@.base_align,
            final(self)@.mem == old(self)@.mem,
    {
        self.used = 0;
    }

    /// The current cursor: the byte offset the next allocation starts at.
    pub fn used(&self) -> (r: usize)
        ensures
            r == self@.used,
    {
        self.used
    }

    /// The byte capacity the arena was built with.
    pub fn capacity(&self) -> (r: usize)
        ensures
            r == self@.capacity(),
    {
        self.mem.len()
    }

    /// The alignment the block was acquired with.
    pub fn base_align(&self) -> (r: usize)
        ensures
            r == self@.base_align,
    {
        self.base_align
    }

    /// Read one byte of the block.
    pub fn byte_at(&self, offset: usize) -> (r: u8)
        requires
            offset < self@.capacity(),
        ensures
            r == self@.mem[offset as int],
    {
        self.mem[offset]
    }

    /// Write one byte of an allocated region. Only bytes below the cursor —
    /// bytes some allocation has handed out — may be written.
    pub fn write_at(&mut self, offset: usize, value: u8)
        requires
            old(self).wf(),
            offset < old(self)@.used,
        ensures
            final(self).wf(),
            final(self)@.used == old(self)@.used,
            final(self)@.base_align == old(self)@.base_align,
            final(self)@.mem == old(self)@.mem.update(offset as int, value),
    {
        self.mem[offset] = value;
    }
}

} // verus!
