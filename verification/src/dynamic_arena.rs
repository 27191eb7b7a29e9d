//! A bump allocator over a reserved virtual-address span whose committed
//! prefix grows on demand and can be shrunk back on reset.
//!
//! The arena reserves `reserved` bytes up front and commits only a prefix of
//! them. Before a region is handed out the arena checks whether the request
//! still fits the committed prefix; if not, it asks the platform to commit up
//! to twice the bytes now needed, clamped to the reservation, so the cost of
//! committing is amortised over many allocations. Growing never moves
//! anything: offsets handed out earlier keep their bytes. A request that
//! cannot fit the reservation at all returns [`AllocError::AtCapacity`] and
//! leaves the arena untouched. `reset` reclaims everything in constant time
//! without giving pages back; `reset_and_shrink` additionally decommits down
//! to a page-aligned target.

use vstd::prelude::*;

use crate::errors::AllocError;
use crate::layout::{fits, array_size, array_total_size, max_alloc_size, page_round_up,
    page_round_up_exec, lemma_page_round_up_properties};
use crate::platform::{Platform, PlatformFunctions, platform_wf};

verus! {

/// The page granularity used when no explicit one is supplied: the page size
/// of commodity systems.
pub const DEFAULT_PAGE_SIZE: usize = 4096;

/// The commit target the growth protocol picks when `mem_needed` bytes must
/// be usable: twice the need, clamped to the reservation, and no change when
/// the committed prefix already covers the need.
pub open spec fn grow_target(mem_needed: int, committed: int, reserved: int) -> int {
    if mem_needed <= committed {
        committed
    } else if 2 * mem_needed <= reserved {
        2 * mem_needed
    } else {
        reserved
    }
}

/// The committed span after the platform commits `size` bytes over a span of
/// `old_len` bytes: commits are rounded up to whole pages and never shrink
/// the span.
pub open spec fn span_after_commit(old_len: int, size: int, page: int) -> int {
    if page_round_up(size, page) > old_len {
        page_round_up(size, page)
    } else {
        old_len
    }
}

/// The abstract state of a dynamic arena: the cursor, the committed byte
/// count the growth protocol tracks, the reservation, the page granularity,
/// and the bytes of the committed span. The span covers whole pages, so its
/// length can exceed `committed` when `committed` is not page-aligned.
pub ghost struct DynamicArenaView {
    pub used: nat,
    pub committed: nat,
    pub reserved: nat,
    pub page_size: nat,
    pub mem: Seq<u8>,
}

/// A bump allocator over one reservation with a committed prefix that grows
/// on demand.
pub struct DynamicArena {
    platform: Platform,
    used: usize,
    committed: usize,
    reserved: usize,
}

impl View for DynamicArena {
    type V = DynamicArenaView;

    closed spec fn view(&self) -> DynamicArenaView {
        DynamicArenaView {
            used: self.used as nat,
            committed: self.committed as nat,
            reserved: self.reserved as nat,
            page_size: self.platform@.page_size,
            mem: self.platform@.mem,
        }
    }
}

impl DynamicArena {
    /// The arena's invariant: the cursor never passes the committed prefix,
    /// the committed prefix never passes the reservation, the platform span
    /// backs every committed byte, and the reservation leaves room for the
    /// growth arithmetic.
    pub closed spec fn wf(&self) -> bool {
        &&& platform_wf(self.platform@)
        &&& self.platform@.reserved == self.reserved
        &&& self.used <= self.committed
        &&& self.committed <= self.reserved
        &&& self.committed <= self.platform@.mem.len()
        &&& self.reserved + self.platform@.page_size <= usize::MAX / 2
    }

    /// The invariant, restated over the abstract state: at every observable
    /// point, `0 <= used <= committed <= reserved`, every committed byte is
    /// backed by the platform span, and the span covers whole pages.
    pub proof fn lemma_cursor_in_bounds(&self)
        requires
            self.wf(),
        ensures
            self@.used <= self@.committed <= self@.reserved,
            self@.committed <= self@.mem.len(),
            self@.mem.len() as int % self@.page_size as int == 0,
            1 <= self@.page_size,
    {
    }

    /// Make a dynamic arena over a fresh reservation of `reserved` bytes at
    /// page granularity `page_size`, with the first `capacity` bytes
    /// committed. The reservation must be at least the capacity; asking for
    /// less is a programmer error.
    pub fn with_capacity_reserve_and_page_size(
        capacity: usize,
        reserved: usize,
        page_size: usize,
    ) -> (r: DynamicArena)
        requires
            1 <= page_size,
            capacity <= reserved,
            reserved + page_size <= usize::MAX / 2,
        ensures
            r.wf(),
            r@.used == 0,
            r@.committed == capacity,
            r@.reserved == reserved,
            r@.page_size == page_size,
            r@.mem.len() == page_round_up(capacity as int, page_size as int),
    {
        let mut platform = Platform::reserve(page_size, reserved);
        platform.commit(capacity);
        proof {
            lemma_page_round_up_properties(capacity as int, page_size as int);
        }
        DynamicArena { platform, used: 0, committed: capacity, reserved }
    }

    /// Make a dynamic arena with the default page granularity.
    pub fn with_capacity_reserve(capacity: usize, reserved: usize) -> (r: DynamicArena)
        requires
            capacity <= reserved,
            reserved + DEFAULT_PAGE_SIZE <= usize::MAX / 2,
        ensures
            r.wf(),
            r@.used == 0,
            r@.committed == capacity,
            r@.reserved == reserved,
            r@.page_size == DEFAULT_PAGE_SIZE,
            r@.mem.len() == page_round_up(capacity as int, DEFAULT_PAGE_SIZE as int),
    {
        DynamicArena::with_capacity_reserve_and_page_size(capacity, reserved, DEFAULT_PAGE_SIZE)
    }

    /// Grow the committed prefix so that `new_mem_needed` more bytes fit, or
    /// report `AtCapacity` when even the reservation cannot hold them. On
    /// success the cursor is untouched, previously committed bytes keep
    /// their values, and the committed prefix follows the growth protocol:
    /// unchanged when the need already fits, otherwise twice the need
    /// clamped to the reservation.
    fn grow(&mut self, new_mem_needed: usize) -> (r: Result<(), AllocError>)
        requires
            old(self).wf(),
        ensures
            final(self).wf(),
            final(self)@.used == old(self)@.used,
            final(self)@.reserved == old(self)@.reserved,
            final(self)@.page_size == old(self)@.page_size,
            old(self)@.mem.len() <= final(self)@.mem.len(),
            r is Ok <==> fits(old(self)@.used as int, new_mem_needed as int,
                old(self)@.reserved as int),
            r is Err ==> final(self)@ == old(self)@,
            r matches Err(e) ==> e == AllocError::AtCapacity,
            r is Ok ==> final(self)@.committed == grow_target(
                old(self)@.used as int + new_mem_needed,
                old(self)@.committed as int,
                old(self)@.reserved as int,
            ),
            r is Ok ==> old(self)@.used + new_mem_needed <= final(self)@.committed,
            r is Ok ==> forall|i: int| 0 <= i < old(self)@.mem.len()
                ==> final(self)@.mem[i] == old(self)@.mem[i],
            r is Ok ==> final(self)@.mem.len() == (
                if old(self)@.used + new_mem_needed <= old(self)@.committed {
                    old(self)@.mem.len() as int
                } else {
                    span_after_commit(
                        old(self)@.mem.len() as int,
                        grow_target(old(self)@.used + new_mem_needed,
                            old(self)@.committed as int, old(self)@.reserved as int),
                        old(self)@.page_size as int,
                    )
                }),
    {
        if new_mem_needed > self.reserved - self.used {
            return Err(AllocError::AtCapacity);
        }
        let mem_needed = self.used + new_mem_needed;
        if mem_needed > self.committed {
            let double_mem_needed = 2 * mem_needed;
            let mem_to_commit = if double_mem_needed <= self.reserved {
                double_mem_needed
            } else {
                self.reserved
            };
            self.platform.commit(mem_to_commit);
            proof {
                lemma_page_round_up_properties(mem_to_commit as int,
                    self.platform@.page_size as int);
            }
            self.committed = mem_to_commit;
        }
        Ok(())
    }

    /// The core of every allocation: make `size` bytes usable, growing the
    /// committed prefix if needed, then advance the cursor and return the
    /// offset the region starts at. The request succeeds if and only if it
    /// fits the reservation; on failure the arena is untouched.
    pub fn get_alloc_ptr(&mut self, size: usize) -> (r: Result<usize, AllocError>)
        requires
            old(self).wf(),
        ensures
            final(self).wf(),
            final(self)@.reserved == old(self)@.reserved,
            final(self)@.page_size == old(self)@.page_size,
            old(self)@.mem.len() <= final(self)@.mem.len(),
            r is Ok <==> fits(old(self)@.used as int, size as int, old(self)@.reserved as int),
            r is Err ==> final(self)@ == old(self)@,
            r matches Err(e) ==> e == AllocError::AtCapacity,
            r matches Ok(off) ==> {
                &&& off == old(self)@.used
                &&& final(self)@.used == old(self)@.used + size
                &&& final(self)@.committed == grow_target(old(self)@.used as int + size,
                    old(self)@.committed as int, old(self)@.reserved as int)
                &&& forall|i: int| 0 <= i < old(self)@.mem.len()
                    ==> final(self)@.mem[i] == old(self)@.mem[i]
            },
    {
        match self.grow(size) {
            Ok(_) => {
                let off = self.used;
                self.used = self.used + size;
                Ok(off)
            },
            Err(e) => Err(e),
        }
    }

    /// Write `val` into the committed span at `offset`, touching nothing
    /// else.
    fn write_bytes(&mut self, offset: usize, val: &[u8])
        requires
            old(self).wf(),
            offset + val@.len() <= old(self)@.committed,
        ensures
            final(self).wf(),
            final(self)@.used == old(self)@.used,
            final(self)@.committed == old(self)@.committed,
            final(self)@.reserved == old(self)@.reserved,
            final(self)@.page_size == old(self)@.page_size,
            final(self)@.mem.len() == old(self)@.mem.len(),
            forall|i: int| offset <= i < offset + val@.len()
                ==> final(self)@.mem[i] == val@[i - offset],
            forall|i: int| 0 <= i < old(self)@.mem.len()
                && !(offset <= i < offset + val@.len())
                ==> final(self)@.mem[i] == old(self)@.mem[i],
    {
        let mut j: usize = 0;
        while j < val.len()
            invariant
                self.wf(),
                j <= val@.len(),
                offset + val@.len() <= self@.committed,
                self@.used == old(self)@.used,
                self@.committed == old(self)@.committed,
                self@.reserved == old(self)@.reserved,
                self@.page_size == old(self)@.page_size,
                self@.mem.len() == old(self)@.mem.len(),
                forall|i: int| offset <= i < offset + j ==> self@.mem[i] == val@[i - offset],
                forall|i: int| 0 <= i < old(self)@.mem.len()
                    && !(offset <= i < offset + val@.len())
                    ==> self@.mem[i] == old(self)@.mem[i],
            decreases val@.len() - j,
        {
            self.platform.write_byte(offset + j, val[j]);
            j = j + 1;
        }
    }

    /// Write `count` zero bytes into the committed span at `offset`,
    /// touching nothing else.
    fn write_zero_bytes(&mut self, offset: usize, count: usize)
        requires
            old(self).wf(),
            offset + count <= old(self)@.committed,
        ensures
            final(self).wf(),
            final(self)@.used == old(self)@.used,
            final(self)@.committed == old(self)@.committed,
            final(self)@.reserved == old(self)@.reserved,
            final(self)@.page_size == old(self)@.page_size,
            final(self)@.mem.len() == old(self)@.mem.len(),
            forall|i: int| offset <= i < offset + count ==> final(self)@.mem[i] == 0,
            forall|i: int| 0 <= i < old(self)@.mem.len()
                && !(offset <= i < offset + count)
                ==> final(self)@.mem[i] == old(self)@.mem[i],
    {
        let mut j: usize = 0;
        while j < count
            invariant
                self.wf(),
                j <= count,
                offset + count <= self@.committed,
                self@.used == old(self)@.used,
                self@.committed == old(self)@.committed,
                self@.reserved == old(self)@.reserved,
                self@.page_size == old(self)@.page_size,
                self@.mem.len() == old(self)@.mem.len(),
                forall|i: int| offset <= i < offset + j ==> self@.mem[i] == 0,
                forall|i: int| 0 <= i < old(self)@.mem.len()
                    && !(offset <= i < offset + count)
                    ==> self@.mem[i] == old(self)@.mem[i],
            decreases count - j,
        {
            self.platform.write_byte(offset + j, 0);
            j = j + 1;
        }
    }

    /// Allocate one value, given as its bytes, and initialise the region
    /// with it. On success the returned offset is the old cursor, the cursor
    /// advances by exactly `val.len()`, the region holds `val`, and every
    /// byte the arena held before keeps its value — growing commits new
    /// pages but never moves existing ones. The request succeeds if and only
    /// if it fits the reservation; on failure the arena is untouched.
    pub fn alloc_value(&mut self, val: &[u8]) -> (r: Result<usize, AllocError>)
        requires
            old(self).wf(),
        ensures
            final(self).wf(),
            final(self)@.reserved == old(self)@.reserved,
            final(self)@.page_size == old(self)@.page_size,
            old(self)@.mem.len() <= final(self)@.mem.len(),
            r is Ok <==> fits(old(self)@.used as int, val@.len() as int,
                old(self)@.reserved as int),
            r is Err ==> final(self)@ == old(self)@,
            r matches Err(e) ==> e == AllocError::AtCapacity,
            r matches Ok(off) ==> {
                &&& off == old(self)@.used
                &&& final(self)@.used == old(self)@.used + val@.len()
                &&& final(self)@.committed == grow_target(old(self)@.used as int + val@.len(),
                    old(self)@.committed as int, old(self)@.reserved as int)
                &&& forall|i: int| off <= i < off + val@.len()
                    ==> final(self)@.mem[i] == val@[i - off]
                &&& forall|i: int| 0 <= i < old(self)@.mem.len()
                    && !(off <= i < off + val@.len())
                    ==> final(self)@.mem[i] == old(self)@.mem[i]
            },
    {
        match self.get_alloc_ptr(val.len()) {
            Ok(off) => {
                self.write_bytes(off, val);
                Ok(off)
            },
            Err(e) => Err(e),
        }
    }

    /// Allocate `size` bytes and zero them. Same cursor and growth
    /// discipline as [`DynamicArena::alloc_value`]; every byte of the
    /// returned region reads as zero.
    pub fn alloc_zeroed(&mut self, size: usize) -> (r: Result<usize, AllocError>)
        requires
            old(self).wf(),
        ensures
            final(self).wf(),
            final(self)@.reserved == old(self)@.reserved,
            final(self)@.page_size == old(self)@.page_size,
            old(self)@.mem.len() <= final(self)@.mem.len(),
            r is Ok <==> fits(old(self)@.used as int, size as int, old(self)@.reserved as int),
            r is Err ==> final(self)@ == old(self)@,
            r matches Err(e) ==> e == AllocError::AtCapacity,
            r matches Ok(off) ==> {
                &&& off == old(self)@.used
                &&& final(self)@.used == old(self)@.used + size
                &&& final(self)@.committed == grow_target(old(self)@.used as int + size,
                    old(self)@.committed as int, old(self)@.reserved as int)
                &&& forall|i: int| off <= i < off + size ==> final(self)@.mem[i] == 0
                &&& forall|i: int| 0 <= i < old(self)@.mem.len()
                    && !(off <= i < off + size)
                    ==> final(self)@.mem[i] == old(self)@.mem[i]
            },
    {
        match self.get_alloc_ptr(size) {
            Ok(off) => {
                self.write_zero_bytes(off, size);
                Ok(off)
            },
            Err(e) => Err(e),
        }
    }

    /// Allocate an array of `count` elements and initialise every element
    /// with `val`, the bytes of one element. On success the region holds
    /// `count` back-to-back copies of `val`. The total size is
    /// `val.len() * count` and must stay within the signed offset range;
    /// beyond it lies a programmer error, not a capacity condition.
    pub fn alloc_array(&mut self, val: &[u8], count: usize) -> (r: Result<usize, AllocError>)
        requires
            old(self).wf(),
            array_size(val@.len() as int, count as int) <= max_alloc_size(),
        ensures
            final(self).wf(),
            final(self)@.reserved == old(self)@.reserved,
            final(self)@.page_size == old(self)@.page_size,
            old(self)@.mem.len() <= final(self)@.mem.len(),
            r is Ok <==> fits(old(self)@.used as int,
                array_size(val@.len() as int, count as int), old(self)@.reserved as int),
            r is Err ==> final(self)@ == old(self)@,
            r matches Err(e) ==> e == AllocError::AtCapacity,
            r matches Ok(off) ==> {
                &&& off == old(self)@.used
                &&& final(self)@.used == old(self)@.used
                    + array_size(val@.len() as int, count as int)
                &&& final(self)@.committed == grow_target(
                    old(self)@.used as int + array_size(val@.len() as int, count as int),
                    old(self)@.committed as int, old(self)@.reserved as int)
                &&& forall|i: int| off <= i < off + array_size(val@.len() as int, count as int)
                    ==> final(self)@.mem[i] == val@[(i - off) % val@.len() as int]
                &&& forall|i: int| 0 <= i < old(self)@.mem.len()
                    && !(off <= i < off + array_size(val@.len() as int, count as int))
                    ==> final(self)@.mem[i] == old(self)@.mem[i]
            },
    {
        let elem = val.len();
        let total = array_total_size(elem, count);
        match self.get_alloc_ptr(total) {
            Ok(off) => {
                let ghost entry_mem = self@.mem;
                let mut k: usize = 0;
                while k < count
                    invariant
                        self.wf(),
                        k <= count,
                        elem == val@.len(),
                        total == array_size(elem as int, count as int),
                        off + total <= self@.committed,
                        self@.used == off + total,
                        self@.committed == grow_target(off + total as int,
                            old(self)@.committed as int, old(self)@.reserved as int),
                        self@.reserved == old(self)@.reserved,
                        self@.page_size == old(self)@.page_size,
                        self@.mem.len() == entry_mem.len(),
                        k * elem <= total,
                        forall|i: int| off <= i < off + k * elem
                            ==> self@.mem[i] == val@[(i - off) % elem as int],
                        forall|i: int| 0 <= i < entry_mem.len()
                            && !(off <= i < off + total)
                            ==> self@.mem[i] == entry_mem[i],
                        forall|i: int| 0 <= i < old(self)@.mem.len()
                            ==> entry_mem[i] == old(self)@.mem[i],
                        old(self)@.mem.len() <= entry_mem.len(),
                    decreases count - k,
                {
                    proof {
                        vstd::arithmetic::mul::lemma_mul_is_distributive_add_other_way(
                            elem as int, k as int, 1);
                        vstd::arithmetic::mul::lemma_mul_inequality(
                            k as int + 1, count as int, elem as int);
                        vstd::arithmetic::mul::lemma_mul_is_commutative(
                            k as int + 1, elem as int);
                        vstd::arithmetic::mul::lemma_mul_is_commutative(
                            count as int, elem as int);
                        vstd::arithmetic::mul::lemma_mul_nonnegative(
                            k as int, elem as int);
                    }
                    let base = off + k * elem;
                    let ghost prev_mem = self@.mem;
                    self.write_bytes(base, val);
                    proof {
                        assert forall|i: int| off <= i < off + (k + 1) * elem
                            implies self@.mem[i] == val@[(i - off) % elem as int] by {
                            if i < base {
                                assert(self@.mem[i] == prev_mem[i]);
                            } else {
                                assert(self@.mem[i] == val@[i - base]);
                                vstd::arithmetic::div_mod::lemma_fundamental_div_mod_converse_mod(
                                    i - off, elem as int, k as int, i - base);
                            }
                        }
                    }
                    k = k + 1;
                }
                proof {
                    vstd::arithmetic::mul::lemma_mul_is_commutative(count as int, elem as int);
                }
                Ok(off)
            },
            Err(e) => Err(e),
        }
    }

    /// Allocate a zero-initialised array of `count` elements of `elem_size`
    /// bytes each. Every byte of the returned region reads as zero.
    pub fn alloc_zeroed_array(&mut self, elem_size: usize, count: usize) -> (r: Result<
        usize,
        AllocError,
    >)
        requires
            old(self).wf(),
            array_size(elem_size as int, count as int) <= max_alloc_size(),
        ensures
            final(self).wf(),
            final(self)@.reserved == old(self)@.reserved,
            final(self)@.page_size == old(self)@.page_size,
            old(self)@.mem.len() <= final(self)@.mem.len(),
            r is Ok <==> fits(old(self)@.used as int,
                array_size(elem_size as int, count as int), old(self)@.reserved as int),
            r is Err ==> final(self)@ == old(self)@,
            r matches Err(e) ==> e == AllocError::AtCapacity,
            r matches Ok(off) ==> {
                &&& off == old(self)@.used
                &&& final(self)@.used == old(self)@.used
                    + array_size(elem_size as int, count as int)
                &&& final(self)@.committed == grow_target(
                    old(self)@.used as int + array_size(elem_size as int, count as int),
                    old(self)@.committed as int, old(self)@.reserved as int)
                &&& forall|i: int| off <= i < off + array_size(elem_size as int, count as int)
                    ==> final(self)@.mem[i] == 0
                &&& forall|i: int| 0 <= i < old(self)@.mem.len()
                    && !(off <= i < off + array_size(elem_size as int, count as int))
                    ==> final(self)@.mem[i] == old(self)@.mem[i]
            },
    {
        let total = array_total_size(elem_size, count);
        match self.get_alloc_ptr(total) {
            Ok(off) => {
                self.write_zero_bytes(off, total);
                Ok(off)
            },
            Err(e) => Err(e),
        }
    }

    /// Allocate an array of `count` elements of `elem_size` bytes each
    /// without initialising it. The cursor advances, previously committed
    /// bytes keep their values, and the region's bytes are whatever the
    /// span holds; the caller must write every slot before reading it.
    pub fn alloc_uninitialized_array(&mut self, elem_size: usize, count: usize) -> (r: Result<
        usize,
        AllocError,
    >)
        requires
            old(self).wf(),
            array_size(elem_size as int, count as int) <= max_alloc_size(),
        ensures
            final(self).wf(),
            final(self)@.reserved == old(self)@.reserved,
            final(self)@.page_size == old(self)@.page_size,
            old(self)@.mem.len() <= final(self)@.mem.len(),
            r is Ok <==> fits(old(self)@.used as int,
                array_size(elem_size as int, count as int), old(self)@.reserved as int),
            r is Err ==> final(self)@ == old(self)@,
            r matches Err(e) ==> e == AllocError::AtCapacity,
            r matches Ok(off) ==> {
                &&& off == old(self)@.used
                &&& final(self)@.used == old(self)@.used
                    + array_size(elem_size as int, count as int)
                &&& final(self)@.committed == grow_target(
                    old(self)@.used as int + array_size(elem_size as int, count as int),
                    old(self)@.committed as int, old(self)@.reserved as int)
                &&& forall|i: int| 0 <= i < old(self)@.mem.len()
                    ==> final(self)@.mem[i] == old(self)@.mem[i]
            },
    {
        let total = array_total_size(elem_size, count);
        self.get_alloc_ptr(total)
    }

    /// Move the cursor back to zero, reclaiming every allocation at once.
    /// Committed pages stay committed, so the next allocation cycle reuses
    /// them without growing. Taking the arena exclusively is what makes this
    /// sound: no offset handed out before the reset can be read through the
    /// arena while the reset happens.
    pub fn reset(&mut self)
        requires
            old(self).wf(),
        ensures
            final(self).wf(),
            final(self)@.used == 0,
            final(self)@.committed == old(self)@.committed,
            final(self)@.reserved == old(self)@.reserved,
            final(self)@.page_size == old(self)@.page_size,
            final(self)@.mem == old(self)@.mem,
    {
        self.used = 0;
    }

    /// Reset the arena and shrink the committed prefix down to `new_size`
    /// bytes, rounded up to the next page boundary. A target at or above the
    /// current committed prefix changes nothing beyond the reset; a target
    /// below it decommits everything past the page boundary, so a target of
    /// zero gives every page back. When the committed prefix is smaller than
    /// one page — the sub-page construction — no whole page can be given
    /// back and the prefix stays as it is.
    pub fn reset_and_shrink(&mut self, new_size: usize)
        requires
            old(self).wf(),
        ensures
            final(self).wf(),
            final(self)@.used == 0,
            final(self)@.reserved == old(self)@.reserved,
            final(self)@.page_size == old(self)@.page_size,
            new_size >= old(self)@.committed ==> final(self)@.committed == old(self)@.committed
                && final(self)@.mem == old(self)@.mem,
            new_size < old(self)@.committed
                && page_round_up(new_size as int, old(self)@.page_size as int)
                    <= old(self)@.committed
                ==> final(self)@.committed
                        == page_round_up(new_size as int, old(self)@.page_size as int)
                    && final(self)@.mem.len()
                        == page_round_up(new_size as int, old(self)@.page_size as int)
                    && forall|i: int| 0 <= i < final(self)@.mem.len()
                        ==> final(self)@.mem[i] == old(self)@.mem[i],
            new_size < old(self)@.committed
                && page_round_up(new_size as int, old(self)@.page_size as int)
                    > old(self)@.committed
                ==> final(self)@.committed == old(self)@.committed
                    && final(self)@.mem == old(self)@.mem,
    {
        self.used = 0;
        if new_size < self.committed {
            let page_size = self.platform.get_page_size();
            let free_from = page_round_up_exec(new_size, page_size);
            proof {
                lemma_page_round_up_properties(new_size as int, page_size as int);
            }
            if free_from <= self.committed {
                let free_size = self.reserved - free_from;
                self.platform.decommit(free_from, free_size);
                self.committed = free_from;
            }
        }
    }

    /// The current cursor: the byte offset the next allocation starts at.
    pub fn used(&self) -> (r: usize)
        ensures
            r == self@.used,
    {
        self.used
    }

    /// The byte count the growth protocol has committed so far.
    pub fn committed(&self) -> (r: usize)
        ensures
            r == self@.committed,
    {
        self.committed
    }

    /// The byte length of the reservation: the hard limit for `used`.
    pub fn reserved(&self) -> (r: usize)
        ensures
            r == self@.reserved,
    {
        self.reserved
    }

    /// The byte length of the span the platform has actually committed:
    /// whole pages, at least the committed byte count whenever the arena is
    /// well-formed.
    pub fn committed_span(&self) -> (r: usize)
        ensures
            r == self@.mem.len(),
    {
        self.platform.committed_span()
    }

    /// The page granularity the arena commits and decommits with.
    pub fn page_size(&self) -> (r: usize)
        requires
            self.wf(),
        ensures
            r == self@.page_size,
    {
        self.platform.get_page_size()
    }

    /// Read one byte of the committed prefix.
    pub fn byte_at(&self, offset: usize) -> (r: u8)
        requires
            self.wf(),
            offset < self@.committed,
        ensures
            r == self@.mem[offset as int],
    {
        self.platform.read_byte(offset)
    }

    /// Write one byte of an allocated region. Only bytes below the cursor —
    /// bytes some allocation has handed out — may be written.
    pub fn write_at(&mut self, offset: usize, value: u8)
        requires
            old(self).wf(),
            offset < old(self)@.used,
        ensures
            final(self).wf(),
            final(self)@.used == old(self)@.used,
            final(self)@.committed == old(self)@.committed,
            final(self)@.reserved == old(self)@.reserved,
            final(self)@.page_size == old(self)@.page_size,
            final(self)@.mem == old(self)@.mem.update(offset as int, value),
    {
        self.platform.write_byte(offset, value);
    }
}

} // verus!
