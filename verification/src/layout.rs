//! Size and page arithmetic shared by both arenas.
//!
//! An arena advances a cursor by the byte size of each allocation; an array
//! allocation covers `count` elements of `elem_size` bytes each. The dynamic
//! arena additionally rounds byte counts up to the operating-system page
//! granularity when it commits or decommits memory. Everything here is the
//! arithmetic behind those two activities, with the lemmas the arenas need.

use vstd::prelude::*;

verus! {

/// The largest total byte size a single allocation may have. Array sizes are
/// computed as `elem_size * count` and must stay within the signed offset
/// range of the platform; a request beyond it is a programmer error, not a
/// capacity condition.
pub open spec fn max_alloc_size() -> int {
    usize::MAX as int / 2
}

/// A request of `size` bytes fits an arena whose cursor stands at `used` and
/// whose limit (capacity or reservation) is `limit`.
pub open spec fn fits(used: int, size: int, limit: int) -> bool {
    used + size <= limit
}

/// Total byte size of an array of `count` elements of `elem_size` bytes.
pub open spec fn array_size(elem_size: int, count: int) -> int {
    elem_size * count
}

/// Exact total byte size of an array allocation.
///
/// The bound mirrors the layout computation of the standard library: a total
/// beyond the signed offset range cannot be allocated and the caller must not
/// request it.
pub fn array_total_size(elem_size: usize, count: usize) -> (total: usize)
    requires
        array_size(elem_size as int, count as int) <= max_alloc_size(),
    ensures
        total == array_size(elem_size as int, count as int),
{
    proof {
        assert(elem_size * count >= 0) by (nonlinear_arith);
    }
    elem_size * count
}

/// `size` rounded up to the next multiple of `page`.
pub open spec fn page_round_up(size: int, page: int) -> int
    recommends
        1 <= page,
{
    if size % page == 0 {
        size
    } else {
        size + (page - size % page)
    }
}

/// What rounding up to a page boundary guarantees: the result is a multiple
/// of `page`, it is at least `size`, and it overshoots by less than one page.
pub proof fn lemma_page_round_up_properties(size: int, page: int)
    requires
        1 <= page,
        0 <= size,
    ensures
        page_round_up(size, page) % page == 0,
        size <= page_round_up(size, page) < size + page,
        size % page == 0 ==> page_round_up(size, page) == size,
{
    let r = size % page;
    vstd::arithmetic::div_mod::lemma_mod_bound(size, page);
    if r != 0 {
        let q = size / page;
        vstd::arithmetic::div_mod::lemma_fundamental_div_mod(size, page);
        assert(page_round_up(size, page) == (q + 1) * page) by {
            vstd::arithmetic::mul::lemma_mul_is_distributive_add_other_way(page, q, 1);
        }
        vstd::arithmetic::div_mod::lemma_mod_multiples_basic(q + 1, page);
    }
}

/// Two distinct multiples of `page` lie at least one page apart.
pub proof fn lemma_page_multiple_gap(a: int, b: int, page: int)
    requires
        1 <= page,
        0 <= a < b,
        a % page == 0,
        b % page == 0,
    ensures
        a + page <= b,
{
    vstd::arithmetic::div_mod::lemma_sub_mod_noop(b, a, page);
    assert((b - a) % page == 0) by {
        vstd::arithmetic::div_mod::lemma_small_mod(0nat, page as nat);
    }
    vstd::arithmetic::div_mod::lemma_mod_is_zero((b - a) as nat, page as nat);
}

/// Rounding up is monotone: a smaller byte count never rounds to a larger
/// page boundary.
pub proof fn lemma_page_round_up_monotone(a: int, b: int, page: int)
    requires
        1 <= page,
        0 <= a <= b,
    ensures
        page_round_up(a, page) <= page_round_up(b, page),
{
    lemma_page_round_up_properties(a, page);
    lemma_page_round_up_properties(b, page);
    let ra = page_round_up(a, page);
    let rb = page_round_up(b, page);
    if ra > rb {
        lemma_page_multiple_gap(rb, ra, page);
        assert(a <= b <= rb);
        assert(ra < a + page);
    }
}

/// `size` rounded up to the next multiple of `page`, as executable code.
pub fn page_round_up_exec(size: usize, page: usize) -> (r: usize)
    requires
        1 <= page,
        size + page <= usize::MAX,
    ensures
        r == page_round_up(size as int, page as int),
{
    let rem = size % page;
    if rem == 0 {
        size
    } else {
        size + (page - rem)
    }
}

} // verus!
