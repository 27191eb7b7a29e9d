//! The laws both arenas obey, stated over the abstract quantities that their
//! contracts speak of: the cursor, the limit (capacity or reservation), the
//! committed prefix of the dynamic arena, and the page granularity.

use vstd::prelude::*;

use crate::layout::{fits, page_round_up, lemma_page_round_up_properties, lemma_page_multiple_gap};
use crate::dynamic_arena::grow_target;

verus! {

/// The total byte size of a sequence of allocation requests.
pub open spec fn sum_sizes(sizes: Seq<int>) -> int
    decreases sizes.len(),
{
    if sizes.len() == 0 {
        0
    } else {
        sizes[0] + sum_sizes(sizes.drop_first())
    }
}

/// Every request in the sequence asks for a non-negative byte count.
pub open spec fn sizes_ok(sizes: Seq<int>) -> bool {
    forall|i: int| 0 <= i < sizes.len() ==> sizes[i] >= 0
}

/// An arena whose cursor stands at `used` serves this whole sequence of
/// requests, in order, without ever reporting `AtCapacity`. This is the
/// success condition of the allocation operations, iterated: each request
/// succeeds exactly when it fits between the cursor and the limit, and on
/// success the cursor advances by the request's size.
pub open spec fn all_fit_from(used: int, limit: int, sizes: Seq<int>) -> bool
    decreases sizes.len(),
{
    if sizes.len() == 0 {
        true
    } else {
        fits(used, sizes[0], limit) && all_fit_from(used + sizes[0], limit, sizes.drop_first())
    }
}

/// A sequence of non-negative requests has a non-negative total.
pub proof fn lemma_sum_sizes_nonneg(sizes: Seq<int>)
    requires
        sizes_ok(sizes),
    ensures
        sum_sizes(sizes) >= 0,
    decreases sizes.len(),
{
    if sizes.len() > 0 {
        lemma_sum_sizes_nonneg(sizes.drop_first());
    }
}

/// A sequence of requests all succeed from cursor `used` exactly when their
/// total fits between the cursor and the limit. Success never depends on
/// anything else — not on the bytes written, and for the dynamic arena not
/// on how far the committed prefix has grown.
pub proof fn lemma_alloc_sequence(used: int, limit: int, sizes: Seq<int>)
    requires
        0 <= used <= limit,
        sizes_ok(sizes),
    ensures
        all_fit_from(used, limit, sizes) <==> used + sum_sizes(sizes) <= limit,
    decreases sizes.len(),
{
    if sizes.len() > 0 {
        lemma_sum_sizes_nonneg(sizes.drop_first());
        if fits(used, sizes[0], limit) {
            lemma_alloc_sequence(used + sizes[0], limit, sizes.drop_first());
        }
    }
}

/// The total of `k` equal requests of `s` bytes each is `k * s`.
pub proof fn lemma_sum_constant(k: nat, s: int)
    ensures
        sum_sizes(Seq::new(k, |i: int| s)) == k * s,
    decreases k,
{
    let q = Seq::new(k, |i: int| s);
    if k > 0 {
        lemma_sum_constant((k - 1) as nat, s);
        assert(q.drop_first() =~= Seq::new((k - 1) as nat, |i: int| s));
        assert(s + (k - 1) * s == k * s) by (nonlinear_arith);
    } else {
        assert(k * s == 0) by (nonlinear_arith)
            requires
                k == 0,
        ;
    }
}

/// Filling an arena: from a fresh or freshly reset arena, `limit / s`
/// requests of `s` bytes each all succeed; they leave the cursor at
/// `(limit / s) * s`, and one more request of `s` bytes no longer fits.
pub proof fn lemma_fill_then_reject(limit: int, s: int)
    requires
        1 <= s,
        0 <= limit,
    ensures
        all_fit_from(0, limit, Seq::new((limit / s) as nat, |i: int| s)),
        sum_sizes(Seq::new((limit / s) as nat, |i: int| s)) == (limit / s) * s,
        !fits((limit / s) * s, s, limit),
{
    let q = limit / s;
    vstd::arithmetic::div_mod::lemma_fundamental_div_mod(limit, s);
    vstd::arithmetic::div_mod::lemma_mod_bound(limit, s);
    vstd::arithmetic::div_mod::lemma_div_pos_is_pos(limit, s);
    assert(q * s == s * q) by (nonlinear_arith);
    assert(q * s <= limit < q * s + s);
    lemma_sum_constant(q as nat, s);
    let sizes = Seq::new(q as nat, |i: int| s);
    assert(sizes_ok(sizes));
    lemma_alloc_sequence(0, limit, sizes);
}

/// Resetting restores the cursor to zero and changes nothing else an
/// allocation depends on, so any sequence of requests whose total fits the
/// limit succeeds after a reset exactly as it does from a fresh arena.
pub proof fn lemma_refill_after_reset(limit: int, sizes: Seq<int>)
    requires
        0 <= limit,
        sizes_ok(sizes),
        sum_sizes(sizes) <= limit,
    ensures
        all_fit_from(0, limit, sizes),
{
    lemma_alloc_sequence(0, limit, sizes);
}

/// `i` lies in the byte range that starts at `off` and is `len` bytes long.
pub open spec fn in_range(i: int, off: int, len: int) -> bool {
    off <= i < off + len
}

/// Regions handed out by distinct allocations never overlap. A later
/// allocation's offset is the cursor at its call, and the cursor only moves
/// forward between resets, so a later region begins at or after the end of
/// any earlier one; two such byte ranges share no index.
pub proof fn lemma_regions_disjoint(off1: int, len1: int, off2: int, len2: int)
    requires
        off1 + len1 <= off2,
    ensures
        forall|i: int| in_range(i, off1, len1) ==> !in_range(i, off2, len2),
{
}

/// An allocation that no longer fits the committed prefix grows it: the
/// growth protocol always commits at least the bytes needed, never more
/// than the reservation, and strictly more than was committed before.
pub proof fn lemma_growth_on_demand(mem_needed: int, committed: int, reserved: int)
    requires
        0 <= committed < mem_needed <= reserved,
    ensures
        committed < grow_target(mem_needed, committed, reserved) <= reserved,
        mem_needed <= grow_target(mem_needed, committed, reserved),
{
}

/// Where the growth protocol lands on a page boundary: the target is a page
/// multiple whenever the doubled need is one, or whenever the clamp to a
/// page-aligned reservation applies. (The doubled need itself is not
/// page-aligned in general, and then neither is the committed count the
/// arena records; the span the platform actually commits covers whole pages
/// regardless.)
pub proof fn lemma_grow_target_page_aligned(
    mem_needed: int,
    committed: int,
    reserved: int,
    page: int,
)
    requires
        1 <= page,
        reserved % page == 0,
        committed % page == 0,
        (2 * mem_needed) % page == 0 || 2 * mem_needed >= reserved,
    ensures
        grow_target(mem_needed, committed, reserved) % page == 0,
{
}

/// Shrinking below a page-aligned committed prefix reaches its target
/// exactly: the target rounded up to the next page boundary still lies at
/// or below the committed prefix, so after `reset_and_shrink` the committed
/// count equals the rounded target — and equals zero for a target of zero.
pub proof fn lemma_shrink_target_reachable(new_size: int, committed: int, page: int)
    requires
        1 <= page,
        0 <= new_size < committed,
        committed % page == 0,
    ensures
        page_round_up(new_size, page) <= committed,
        page_round_up(new_size, page) % page == 0,
        new_size == 0 ==> page_round_up(new_size, page) == 0,
{
    lemma_page_round_up_properties(new_size, page);
    vstd::arithmetic::div_mod::lemma_small_mod(0nat, page as nat);
    if page_round_up(new_size, page) > committed {
        lemma_page_multiple_gap(committed, page_round_up(new_size, page), page);
    }
}

} // verus!
