//! The virtual-memory interface the dynamic arena is built on, together with
//! an in-process model of it.
//!
//! The operating system hands out memory in three steps: a contiguous span of
//! addresses is *reserved* without consuming physical pages, a prefix of the
//! reservation is *committed* (made readable and writable) page by page, and
//! committed pages can be *decommitted* again while the reservation stays in
//! place. [`PlatformFunctions`] states that protocol as a contract: an
//! implementation is a value that owns one reservation, remembers the page
//! granularity, and exposes the committed prefix for byte access.
//!
//! [`Platform`] implements the contract with heap storage standing in for the
//! committed pages. It rounds every commit and decommit to the page
//! granularity exactly as the memory-protection calls of an operating system
//! do, so the arena logic proved against the contract matches what raw
//! system memory would provide.

use vstd::prelude::*;

use crate::layout::{page_round_up, page_round_up_exec, lemma_page_round_up_properties,
    lemma_page_round_up_monotone};

verus! {

/// The abstract state of one reservation: its page granularity, the byte
/// length it was reserved with, and the contents of its committed prefix.
/// The committed span is the length of `mem`.
pub ghost struct PlatformView {
    pub page_size: nat,
    pub reserved: nat,
    pub mem: Seq<u8>,
}

/// What every well-formed reservation satisfies: pages are non-empty, the
/// committed span covers whole pages only, it never exceeds the reservation
/// rounded up to the page granularity, and the whole reservation fits the
/// address space with a page to spare.
pub open spec fn platform_wf(v: PlatformView) -> bool {
    &&& 1 <= v.page_size
    &&& v.mem.len() as int % v.page_size as int == 0
    &&& v.mem.len() <= page_round_up(v.reserved as int, v.page_size as int)
    &&& v.page_size + v.reserved <= usize::MAX
}

/// The virtual-memory operations the dynamic arena relies on. A value of an
/// implementing type owns one reserved span; dropping the value (or calling
/// [`PlatformFunctions::release`]) gives the whole reservation back.
pub trait PlatformFunctions: Sized + View<V = PlatformView> {
    /// The page granularity of this reservation, in bytes.
    fn get_page_size(&self) -> (r: usize)
        requires
            platform_wf(self@),
        ensures
            r == self@.page_size,
    ;

    /// Reserve a span of `size` bytes at page granularity `page_size`.
    /// Nothing is committed yet.
    fn reserve(page_size: usize, size: usize) -> (r: Self)
        requires
            1 <= page_size,
            page_size + size <= usize::MAX,
        ensures
            platform_wf(r@),
            r@.page_size == page_size,
            r@.reserved == size,
            r@.mem.len() == 0,
    ;

    /// Give the whole reservation back to the system.
    fn release(self)
    ;

    /// Make the first `size` bytes of the reservation readable and writable.
    /// The committed span grows to cover `size` at page granularity; pages
    /// that are already committed stay committed and keep their bytes.
    fn commit(&mut self, size: usize)
        requires
            platform_wf(old(self)@),
            size <= old(self)@.reserved,
        ensures
            platform_wf(final(self)@),
            final(self)@.page_size == old(self)@.page_size,
            final(self)@.reserved == old(self)@.reserved,
            final(self)@.mem.len() == (if page_round_up(size as int, old(self)@.page_size as int)
                > old(self)@.mem.len() {
                page_round_up(size as int, old(self)@.page_size as int)
            } else {
                old(self)@.mem.len() as int
            }),
            forall|i: int| 0 <= i < old(self)@.mem.len()
                ==> final(self)@.mem[i] == old(self)@.mem[i],
    ;

    /// Decommit the tail of the reservation from byte `free_from` on, keeping
    /// the reservation itself. `free_from` must lie on a page boundary and
    /// the range must reach the end of the reservation.
    fn decommit(&mut self, free_from: usize, free_size: usize)
        requires
            platform_wf(old(self)@),
            free_from % old(self)@.page_size as usize == 0,
            free_from + free_size == old(self)@.reserved,
        ensures
            platform_wf(final(self)@),
            final(self)@.page_size == old(self)@.page_size,
            final(self)@.reserved == old(self)@.reserved,
            final(self)@.mem.len() == (if free_from < old(self)@.mem.len() {
                free_from as int
            } else {
                old(self)@.mem.len() as int
            }),
            forall|i: int| 0 <= i < final(self)@.mem.len()
                ==> final(self)@.mem[i] == old(self)@.mem[i],
    ;

    /// The byte length of the committed span: whole pages, covering every
    /// committed byte.
    fn committed_span(&self) -> (r: usize)
        ensures
            r == self@.mem.len(),
    ;

    /// Read one committed byte.
    fn read_byte(&self, offset: usize) -> (r: u8)
        requires
            offset < self@.mem.len(),
        ensures
            r == self@.mem[offset as int],
    ;

    /// Write one committed byte.
    fn write_byte(&mut self, offset: usize, value: u8)
        requires
            offset < old(self)@.mem.len(),
        ensures
            final(self)@.page_size == old(self)@.page_size,
            final(self)@.reserved == old(self)@.reserved,
            final(self)@.mem == old(self)@.mem.update(offset as int, value),
    ;
}

/// An in-process reservation: heap bytes stand in for committed pages, and
/// the page-granularity rounding matches what the memory-protection calls of
/// an operating system perform on a real reservation.
pub struct Platform {
    page_size: usize,
    reserved: usize,
    mem: Vec<u8>,
}

impl View for Platform {
    type V = PlatformView;

    closed spec fn view(&self) -> PlatformView {
        PlatformView {
            page_size: self.page_size as nat,
            reserved: self.reserved as nat,
            mem: self.mem@,
        }
    }
}

impl PlatformFunctions for Platform {
    fn get_page_size(&self) -> (r: usize) {
        self.page_size
    }

    fn reserve(page_size: usize, size: usize) -> (r: Self) {
        proof {
            lemma_page_round_up_properties(size as int, page_size as int);
            vstd::arithmetic::div_mod::lemma_small_mod(0nat, page_size as nat);
        }
        Platform { page_size, reserved: size, mem: Vec::new() }
    }

    fn release(self) {
    }

    fn commit(&mut self, size: usize) {
        let target = page_round_up_exec(size, self.page_size);
        proof {
            lemma_page_round_up_properties(size as int, self.page_size as int);
            lemma_page_round_up_monotone(size as int, self.reserved as int,
                self.page_size as int);
            lemma_page_round_up_properties(self.reserved as int, self.page_size as int);
        }
        if target > self.mem.len() {
            let ghost old_mem = self.mem@;
            self.mem.resize(target, 0u8);
            proof {
                assert(forall|i: int| 0 <= i < old_mem.len()
                    ==> self.mem@[i] == old_mem[i]) by {
                    assert(self.mem@.subrange(0, old_mem.len() as int) == old_mem);
                }
            }
        }
    }

    fn decommit(&mut self, free_from: usize, free_size: usize) {
        self.mem.truncate(free_from);
        proof {
            if free_from < old(self).mem.len() {
                assert(self.mem@ == old(self).mem@.subrange(0, free_from as int));
            }
        }
    }

    fn committed_span(&self) -> (r: usize) {
        self.mem.len()
    }

    fn read_byte(&self, offset: usize) -> (r: u8) {
        self.mem[offset]
    }

    fn write_byte(&mut self, offset: usize, value: u8) {
        self.mem[offset] = value;
    }
}

} // verus!
