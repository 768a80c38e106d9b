//! What the allocator owes for a single request: what a grant must satisfy, when a grant is
//! owed, and what each request does to each part of the state.

use crate::align::{law_clearing_splits_bits, law_rounding_is_tight, lemma_multiples,
    lemma_pow2_positive, lemma_pow2_product};
use crate::alloc_laws::{law_bytes_placed, law_pages_aligned, law_pages_placed};
use crate::region::{AllocError, Region};
use vstd::arithmetic::div_mod::{lemma_fundamental_div_mod, lemma_mod_bound};
use vstd::arithmetic::power2::is_pow2;
use vstd::prelude::*;

verus! {

/// A fresh range is free as a whole: nothing of it is used, and all of it is available.
pub proof fn law_fresh_range_is_free(start: int, size: int, page: int)
    requires
        0 <= start,
        0 <= size,
        start + size <= usize::MAX,
        page > 0,
    ensures
        ({
            let region = Region::over(start, size);
            &&& region.inv()
            &&& region.start == start
            &&& region.b_pos == start
            &&& region.p_pos == start + size
            &&& region.end == start + size
            &&& region.count == 0
            &&& region.total_bytes() == size
            &&& region.used_bytes() == 0
            &&& region.available_bytes() == size
            &&& region.used_pages(page) == 0
            &&& region.is_empty() <==> size == 0
            &&& region.available_pages(page) == region.total_pages(page)
        }),
{
    vstd::arithmetic::div_mod::lemma_div_basics(page);
}

/// An offer is taken exactly if it has a byte and there is no range yet, and then the whole of
/// it is free. An offer of nothing is invalid, any other finds no room, and both change
/// nothing.
pub proof fn law_offer_is_taken_when_empty(region: Region, start: int, size: int)
    requires
        size >= 0,
    ensures
        region.memory_answer(size) is Ok <==> size > 0 && region.start == region.end,
        region.memory_answer(size) == Err::<(), AllocError>(AllocError::InvalidParam) <==> size
            == 0,
        region.memory_answer(size) == Err::<(), AllocError>(AllocError::NoMemory) <==> size > 0
            && region.start != region.end,
        ({
            let after = region.after_add_memory(start, size);
            if size > 0 && region.start == region.end {
                &&& after.start == start
                &&& after.b_pos == start
                &&& after.p_pos == start + size
                &&& after.end == start + size
                &&& after.count == 0
            } else {
                after == region
            }
        }),
{
}

/// Bytes are granted whenever they fit: if any multiple of the alignment has room for them
/// between the two areas, the request is granted, however many blocks are live, and at no
/// higher address.
pub proof fn law_bytes_that_fit_are_granted(region: Region, size: int, align: int, m: int)
    requires
        region.inv(),
        size > 0,
        is_pow2(align),
        0 < m,
        m % align == 0,
        region.b_pos <= m,
        m + size <= region.p_pos,
        region.b_pos > 0,
    ensures
        region.bytes_answer(size, align) is Ok,
        region.bytes_answer(size, align)->Ok_0 <= m,
{
    lemma_pow2_positive(align);
    lemma_multiples(region.b_pos, align);
    law_rounding_is_tight(region.b_pos, align, m);
}

/// Granted bytes lie at the least multiple of the alignment that is not in the bytes area,
/// never at address zero, and end before the pages area.
pub proof fn law_granted_bytes_are_first_fit(region: Region, size: int, align: int, m: int)
    requires
        region.inv(),
        size > 0,
        region.bytes_answer(size, align) is Ok,
    ensures
        ({
            let first = region.bytes_answer(size, align)->Ok_0;
            &&& is_pow2(align)
            &&& 0 < first
            &&& first % align == 0
            &&& region.b_pos <= first
            &&& first + size <= region.p_pos
            &&& m % align == 0 && region.b_pos <= m ==> first <= m
        }),
{
    law_bytes_placed(region, size, align);
    lemma_pow2_positive(align);
    if m % align == 0 {
        law_rounding_is_tight(region.b_pos, align, m);
    }
}

/// A request for bytes is invalid exactly if its alignment is no power of two, or if only
/// address zero could serve it. Otherwise it is refused only where no multiple of the
/// alignment has room.
pub proof fn law_bytes_are_refused_for_cause(region: Region, size: int, align: int, m: int)
    requires
        region.inv(),
        size > 0,
    ensures
        region.bytes_answer(size, align) == Err::<int, AllocError>(AllocError::InvalidParam) <==>
            !is_pow2(align) || (region.b_pos == 0 && size <= region.p_pos),
        region.bytes_answer(size, align) == Err::<int, AllocError>(AllocError::NoMemory)
            && m % align == 0 && region.b_pos <= m ==> m + size > region.p_pos,
{
    if is_pow2(align) {
        lemma_pow2_positive(align);
        lemma_multiples(region.b_pos, align);
        if m % align == 0 {
            law_rounding_is_tight(region.b_pos, align, m);
        }
        if region.b_pos == 0 {
            vstd::arithmetic::div_mod::lemma_small_mod(0, align as nat);
            law_rounding_is_tight(0, align, 0);
        }
    }
}

/// The answer to a request for bytes hangs on nothing but where the two areas end.
pub proof fn law_bytes_answer_ignores_the_rest(a: Region, b: Region, size: int, align: int)
    requires
        a.b_pos == b.b_pos,
        a.p_pos == b.p_pos,
    ensures
        a.bytes_answer(size, align) == b.bytes_answer(size, align),
{
}

/// What a request for bytes does to the state: a grant moves the end of the bytes area to the
/// end of the block and counts it; anything else, and a block of no bytes, does nothing.
pub proof fn law_bytes_move_one_end(region: Region, size: int, align: int)
    requires
        size >= 0,
    ensures
        ({
            let after = region.after_alloc(size, align);
            &&& after.start == region.start
            &&& after.end == region.end
            &&& after.p_pos == region.p_pos
            &&& size == 0 || region.bytes_answer(size, align) is Err ==> after == region
            &&& size > 0 && region.bytes_answer(size, align) is Ok ==> {
                &&& after.b_pos - size == region.bytes_answer(size, align)->Ok_0
                &&& after.count - region.count == 1
            }
        }),
{
}

/// What the caller gets for a request for bytes: for none, some address that is not null; for
/// any, the first address of the grant, or the refusal.
pub proof fn law_bytes_served_is_the_answer(
    region: Region,
    size: int,
    align: int,
    r: Result<usize, AllocError>,
)
    requires
        size >= 0,
        region.bytes_served(size, align, r),
    ensures
        r is Err <==> size > 0 && region.bytes_answer(size, align) is Err,
        r is Err ==> r->Err_0 == region.bytes_answer(size, align)->Err_0,
        r is Ok && size == 0 ==> r->Ok_0 != 0,
        r is Ok && size > 0 ==> r->Ok_0 == region.bytes_answer(size, align)->Ok_0,
{
}

/// Giving back bytes counts one block less and touches nothing else, except that the bytes
/// area is free when no block is left. A block of no bytes, or with none live, is ignored.
pub proof fn law_give_back_counts_down(region: Region, size: int)
    requires
        region.inv(),
        size >= 0,
    ensures
        ({
            let after = region.after_dealloc(size);
            &&& after.start == region.start
            &&& after.end == region.end
            &&& after.p_pos == region.p_pos
            &&& size == 0 || region.count == 0 ==> after == region
            &&& size > 0 && region.count > 0 ==> region.count - after.count == 1
            &&& after.count > 0 ==> after.b_pos == region.b_pos
            &&& after.count == 0 ==> after.b_pos == region.start
        }),
{
}

/// Giving a block back does not hang on its size.
pub proof fn law_give_back_ignores_the_size(region: Region, a: int, b: int)
    requires
        a > 0,
        b > 0,
    ensures
        region.after_dealloc(a) == region.after_dealloc(b),
{
}

/// Pages are granted whenever they fit: if any multiple of the alignment has room for them
/// between the two areas, the request is granted, and at no lower address.
pub proof fn law_pages_that_fit_are_granted(
    region: Region,
    num: int,
    align: int,
    page: int,
    m: int,
)
    requires
        region.inv(),
        num > 0,
        is_pow2(align),
        is_pow2(page),
        num * page <= usize::MAX,
        align * page <= usize::MAX,
        m % (align * page) == 0,
        region.b_pos <= m,
        m + num * page <= region.p_pos,
    ensures
        region.pages_answer(num, align, page) is Ok,
        m <= region.pages_answer(num, align, page)->Ok_0,
{
    lemma_pow2_product(align, page);
    lemma_pow2_positive(align * page);
    law_rounding_is_tight(region.p_pos - num * page, align * page, m);
}

/// Granted pages lie between the two areas, at the greatest multiple of the alignment that has
/// room for them.
pub proof fn law_granted_pages_are_last_fit(
    region: Region,
    num: int,
    align: int,
    page: int,
    m: int,
)
    requires
        region.inv(),
        num >= 0,
        is_pow2(page),
        region.pages_answer(num, align, page) is Ok,
    ensures
        ({
            let first = region.pages_answer(num, align, page)->Ok_0;
            &&& num > 0
            &&& is_pow2(align)
            &&& first % (align * page) == 0
            &&& region.b_pos <= first
            &&& first + num * page <= region.p_pos
            &&& m % (align * page) == 0 && m + num * page <= region.p_pos ==> m <= first
        }),
{
    lemma_pow2_positive(page);
    law_pages_placed(region, num, align, page);
    law_pages_aligned(region, num, align, page);
    lemma_pow2_product(align, page);
    lemma_pow2_positive(align * page);
    if m % (align * page) == 0 {
        law_rounding_is_tight(region.p_pos - num * page, align * page, m);
    }
}

/// A request for pages is invalid exactly if it asks for none, its alignment is no power of
/// two, or a size in bytes does not fit in a word. Otherwise it is refused only where no
/// multiple of the alignment has room.
pub proof fn law_pages_are_refused_for_cause(
    region: Region,
    num: int,
    align: int,
    page: int,
    m: int,
)
    requires
        region.inv(),
        num >= 0,
        page > 0,
    ensures
        region.pages_answer(num, align, page) == Err::<int, AllocError>(AllocError::InvalidParam)
            <==> num == 0 || !is_pow2(align) || num * page > usize::MAX || align * page
            > usize::MAX,
        region.pages_answer(num, align, page) == Err::<int, AllocError>(AllocError::NoMemory)
            && is_pow2(page) && m % (align * page) == 0 && region.b_pos <= m ==> m + num * page
            > region.p_pos,
{
    if region.pages_answer(num, align, page) == Err::<int, AllocError>(AllocError::NoMemory)
        && is_pow2(page) && m % (align * page) == 0 && region.b_pos <= m && m + num * page
        <= region.p_pos {
        law_pages_that_fit_are_granted(region, num, align, page, m);
    }
}

/// With pages whose size is no power of two, a request that is not invalid and for which there
/// are bytes enough below `p_pos` goes to the highest address that leaves room, less the bits
/// that `align * page - 1` has. It is granted exactly if that is not in the bytes area.
pub proof fn law_odd_pages_lose_low_bits(
    region: Region,
    num: int,
    align: int,
    page: int,
    raw: usize,
    mask: usize,
    x: usize,
)
    requires
        region.inv(),
        num > 0,
        is_pow2(align),
        page > 0,
        !is_pow2(page),
        num * page <= usize::MAX,
        align * page <= usize::MAX,
        raw + num * page == region.p_pos,
        mask + 1 == align * page,
        x & mask == 0,
        x | (raw & mask) == raw,
    ensures
        region.b_pos <= x <==> region.pages_answer(num, align, page) is Ok,
        region.b_pos <= x ==> region.pages_answer(num, align, page)->Ok_0 == x,
        x < region.b_pos ==> region.pages_answer(num, align, page) == Err::<int, AllocError>(
            AllocError::NoMemory,
        ),
{
    law_clearing_splits_bits(raw, (align * page) as usize);
}

/// Where there are fewer bytes below `p_pos` than the pages take, there is no memory for them.
pub proof fn law_too_many_pages_are_refused(region: Region, num: int, align: int, page: int)
    requires
        num > 0,
        is_pow2(align),
        num * page <= usize::MAX,
        align * page <= usize::MAX,
        region.p_pos < num * page,
    ensures
        region.pages_answer(num, align, page) == Err::<int, AllocError>(AllocError::NoMemory),
{
}

/// The answer to a request for pages hangs on nothing but where the two areas end.
pub proof fn law_pages_answer_ignores_the_rest(
    a: Region,
    b: Region,
    num: int,
    align: int,
    page: int,
)
    requires
        a.b_pos == b.b_pos,
        a.p_pos == b.p_pos,
    ensures
        a.pages_answer(num, align, page) == b.pages_answer(num, align, page),
{
}

/// What a request for pages does to the state: a grant moves the beginning of the pages area
/// to the first page; a refusal does nothing.
pub proof fn law_pages_move_other_end(region: Region, num: int, align: int, page: int)
    ensures
        ({
            let after = region.after_alloc_pages(num, align, page);
            &&& after.start == region.start
            &&& after.end == region.end
            &&& after.b_pos == region.b_pos
            &&& after.count == region.count
            &&& region.pages_answer(num, align, page) is Err ==> after == region
            &&& region.pages_answer(num, align, page) is Ok ==> after.p_pos
                == region.pages_answer(num, align, page)->Ok_0
        }),
{
}

/// Giving pages back frees none: no position moves, and no block is counted less.
pub proof fn law_pages_are_not_freed(region: Region, pos: int, num: int)
    ensures
        ({
            let after = region.after_dealloc_pages(pos, num);
            &&& after.start == region.start
            &&& after.end == region.end
            &&& after.b_pos == region.b_pos
            &&& after.p_pos == region.p_pos
            &&& after.count == region.count
        }),
{
}

/// The sizes in bytes lead from one position to the next.
pub proof fn law_sizes_lead_along(region: Region)
    ensures
        region.start + region.used_bytes() == region.b_pos,
        region.b_pos + region.available_bytes() == region.p_pos,
        region.start + region.total_bytes() == region.end,
        region.is_empty() <==> region.total_bytes() == 0,
{
}

/// Pages are counted whole: as many as fit, and one more would not.
pub proof fn law_pages_are_counted_whole(region: Region, page: int)
    requires
        page > 0,
    ensures
        region.total_pages(page) * page <= region.end - region.start < region.total_pages(page)
            * page + page,
        region.used_pages(page) * page <= region.end - region.p_pos < region.used_pages(page)
            * page + page,
        region.available_pages(page) * page <= region.p_pos - region.b_pos
            < region.available_pages(page) * page + page,
{
    lemma_whole(region.end - region.start, page);
    lemma_whole(region.end - region.p_pos, page);
    lemma_whole(region.p_pos - region.b_pos, page);
}

proof fn lemma_whole(bytes: int, page: int)
    requires
        page > 0,
    ensures
        bytes / page * page <= bytes < bytes / page * page + page,
{
    lemma_fundamental_div_mod(bytes, page);
    lemma_mod_bound(bytes, page);
    let q = bytes / page;
    assert(page * q == q * page) by (nonlinear_arith);
}

/// The four positions are in order and fit in a word, the counter never exceeds the bytes in
/// use, and it is zero exactly when there are none.
pub proof fn law_positions_stay_in_order(region: Region)
    requires
        region.inv(),
    ensures
        0 <= region.start <= region.b_pos <= region.p_pos <= region.end <= usize::MAX,
        0 <= region.count <= region.used_bytes(),
        region.count == 0 <==> region.used_bytes() == 0,
{
}

} // verus!
