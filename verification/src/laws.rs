//! What holds of the operations taken together.

use vstd::prelude::*;
use vstd::arithmetic::div_mod::{
    lemma_div_is_ordered,
    lemma_div_pos_is_pos,
    lemma_fundamental_div_mod,
};
use vstd::arithmetic::mul::lemma_mul_nonnegative;
use crate::align::{
    align_down_spec,
    align_up_spec,
    is_multiple,
    lemma_align_down_is_monotonic,
    lemma_align_up,
    lemma_multiple_of_multiple,
    lemma_multiples_add_up,
    lemma_pow2_is_positive,
};
use crate::region::{page_count, valid_page_align, AllocError, Region, Request};

verus! {

/// A range that was just taken over has its cursors in order.
pub proof fn lemma_fresh_is_wf(start: int, size: int)
    requires
        0 <= size,
    ensures
        Region::fresh(start, size).wf(),
{
}

/// Carving bytes keeps the cursors in order.
pub proof fn lemma_alloc_bytes_keeps_order(r: Region, size: int)
    requires
        r.wf(),
        0 <= size,
    ensures
        r.alloc_bytes(size).wf(),
{
}

/// Giving bytes back keeps the cursors in order, unless the block ends at
/// the byte cursor and starts below the range.
pub proof fn lemma_dealloc_keeps_order(r: Region, pos: int, size: int)
    requires
        r.wf(),
        0 <= size,
        pos + size == r.byte_cursor ==> r.start <= pos,
    ensures
        r.dealloc(pos, size).wf(),
{
}

/// Carving pages keeps the cursors in order, unless rounding up puts the
/// block's start above the end of the range.
pub proof fn lemma_alloc_pages_keeps_order(r: Region, count: int, align: int, page_size: int)
    requires
        r.wf(),
        r.alloc_pages_result(count, align, page_size) is Ok ==> r.page_candidate(
            count,
            align,
            page_size,
        ) <= r.end,
    ensures
        r.alloc_pages(count, align, page_size).wf(),
{
}

/// Giving pages back keeps the cursors in order, unless the block starts
/// at the page cursor and ends above the range.
pub proof fn lemma_dealloc_pages_keeps_order(r: Region, pos: int, count: int, page_size: int)
    requires
        r.wf(),
        0 <= count,
        0 < page_size,
        pos == r.page_cursor ==> pos + count * page_size <= r.end,
    ensures
        r.dealloc_pages(pos, count, page_size).wf(),
{
    lemma_mul_nonnegative(count, page_size);
}

/// A request that stays within the range keeps the cursors in order.
pub proof fn lemma_step_keeps_order(r: Region, request: Request, page_size: int)
    requires
        r.wf(),
        0 < page_size,
        r.stays_in_range(request, page_size),
    ensures
        r.step(request, page_size).wf(),
{
    match request {
        Request::AllocBytes { size } => lemma_alloc_bytes_keeps_order(r, size),
        Request::Dealloc { pos, size } => lemma_dealloc_keeps_order(r, pos, size),
        Request::AllocPages { count, align } => lemma_alloc_pages_keeps_order(
            r,
            count,
            align,
            page_size,
        ),
        Request::DeallocPages { pos, count } => lemma_dealloc_pages_keeps_order(
            r,
            pos,
            count,
            page_size,
        ),
    }
}

/// Through any sequence of requests of which each stays within the range
/// as it stands when the request is made, the cursors are in order after
/// every one of them.
pub proof fn lemma_order_holds_throughout(r: Region, requests: Seq<Request>, page_size: int)
    requires
        r.wf(),
        0 < page_size,
        forall|i: int|
            0 <= i < requests.len() ==> (#[trigger] r.run(
                requests.take(i),
                page_size,
            )).stays_in_range(requests[i], page_size),
    ensures
        forall|i: int|
            0 <= i <= requests.len() ==> (#[trigger] r.run(requests.take(i), page_size)).wf(),
    decreases requests.len(),
{
    if requests.len() == 0 {
        assert forall|i: int| 0 <= i <= requests.len() implies (#[trigger] r.run(
            requests.take(i),
            page_size,
        )).wf() by {
            assert(requests.take(i).len() == 0);
        }
    } else {
        let n = requests.len() - 1;
        let before = requests.drop_last();
        assert forall|i: int| 0 <= i <= before.len() implies before.take(i) == requests.take(
            i,
        ) by {
            assert(before.take(i) =~= requests.take(i));
        }
        assert forall|i: int| 0 <= i < before.len() implies (#[trigger] r.run(
            before.take(i),
            page_size,
        )).stays_in_range(before[i], page_size) by {
            assert(before.take(i) == requests.take(i));
            assert(r.run(requests.take(i), page_size).stays_in_range(requests[i], page_size));
        }
        lemma_order_holds_throughout(r, before, page_size);
        assert forall|i: int| 0 <= i <= requests.len() implies (#[trigger] r.run(
            requests.take(i),
            page_size,
        )).wf() by {
            if i <= n {
                assert(before.take(i) == requests.take(i));
                assert(r.run(before.take(i), page_size).wf());
            } else {
                assert(requests.take(i) =~= requests);
                assert(requests.take(n) =~= before);
                assert(r.run(before.take(n), page_size).wf());
                assert(before.take(n) =~= before);
                assert(r.run(requests.take(n), page_size).stays_in_range(
                    requests[n],
                    page_size,
                ));
                lemma_step_keeps_order(r.run(before, page_size), requests.last(), page_size);
            }
        }
    }
}

/// An alignment that page blocks can be asked to have is a positive
/// multiple of the page size.
pub proof fn lemma_valid_page_align_is_positive(align: int, page_size: int)
    requires
        0 < page_size,
        valid_page_align(align, page_size),
    ensures
        0 < page_size <= align,
        is_multiple(align, page_size),
{
    lemma_pow2_is_positive(align / page_size);
    lemma_fundamental_div_mod(align, page_size);
    assert(page_size <= page_size * (align / page_size)) by (nonlinear_arith)
        requires
            0 < page_size,
            1 <= align / page_size,
    ;
}

/// Where the page cursor is a multiple of the alignment, a block of pages
/// starts at or below it, and so within the range.
pub proof fn lemma_page_candidate_is_below_cursor(
    r: Region,
    count: int,
    align: int,
    page_size: int,
)
    requires
        0 <= count,
        0 < page_size,
        valid_page_align(align, page_size),
        is_multiple(r.page_cursor, align),
    ensures
        r.page_candidate(count, align, page_size) <= r.page_cursor,
{
    lemma_valid_page_align_is_positive(align, page_size);
    lemma_mul_nonnegative(count, page_size);
    lemma_align_up(r.page_cursor - count * page_size, align);
}

/// A block of pages that is carved starts at a multiple of its alignment
/// and of the page size, wherever the page cursor stood: from the first
/// block on, the page cursor is on a page boundary.
pub proof fn lemma_alloc_pages_lands_on_a_page(r: Region, count: int, align: int, page_size: int)
    requires
        0 < page_size,
        r.alloc_pages_result(count, align, page_size) is Ok,
    ensures
        is_multiple(r.page_candidate(count, align, page_size), align),
        is_multiple(r.page_candidate(count, align, page_size), page_size),
        r.alloc_pages(count, align, page_size).page_cursor == r.page_candidate(
            count,
            align,
            page_size,
        ),
{
    lemma_valid_page_align_is_positive(align, page_size);
    lemma_align_up(r.page_cursor - count * page_size, align);
    lemma_multiple_of_multiple(r.page_candidate(count, align, page_size), align, page_size);
}

/// Where the page cursor is a multiple of the page size, giving pages back
/// leaves it one.
pub proof fn lemma_dealloc_pages_stays_on_a_page(r: Region, pos: int, count: int, page_size: int)
    requires
        0 < page_size,
        is_multiple(r.page_cursor, page_size),
    ensures
        is_multiple(r.dealloc_pages(pos, count, page_size).page_cursor, page_size),
{
    lemma_multiples_add_up(r.page_cursor, count, page_size);
}

/// Bytes that were carved and are given back at once leave the state as
/// it was before.
pub proof fn lemma_alloc_bytes_then_dealloc_restores(r: Region, size: int)
    requires
        r.alloc_bytes_result(size) is Ok,
    ensures
        r.alloc_bytes_result(size) == Ok::<int, AllocError>(r.byte_cursor),
        r.alloc_bytes(size).dealloc(r.byte_cursor, size) == r,
{
}

/// Bytes given back that do not end at the byte cursor change nothing.
pub proof fn lemma_dealloc_below_top_changes_nothing(r: Region, pos: int, size: int)
    requires
        pos + size != r.byte_cursor,
    ensures
        r.dealloc(pos, size) == r,
{
}

/// Pages that were carved and are given back at once leave the state as
/// it was before, where the block's start needed no rounding.
pub proof fn lemma_alloc_pages_then_dealloc_restores(
    r: Region,
    count: int,
    align: int,
    page_size: int,
)
    requires
        r.page_cursor <= usize::MAX,
        0 < page_size,
        r.alloc_pages_result(count, align, page_size) is Ok,
        is_multiple(r.page_cursor - count * page_size, align),
    ensures
        r.alloc_pages_result(count, align, page_size) == Ok::<int, AllocError>(
            r.page_cursor - count * page_size,
        ),
        r.alloc_pages(count, align, page_size).dealloc_pages(
            r.page_cursor - count * page_size,
            count,
            page_size,
        ) == r,
{
}

/// Pages given back that do not start at the page cursor change nothing.
pub proof fn lemma_dealloc_pages_above_bottom_changes_nothing(
    r: Region,
    pos: int,
    count: int,
    page_size: int,
)
    requires
        pos != r.page_cursor,
    ensures
        r.dealloc_pages(pos, count, page_size) == r,
{
}

/// Bytes that would take the byte cursor past the page cursor are turned
/// down for want of memory, and nothing moves.
pub proof fn lemma_alloc_bytes_stops_at_page_cursor(r: Region, size: int)
    requires
        r.byte_cursor + size > r.page_cursor,
    ensures
        r.alloc_bytes_result(size) == Err::<int, AllocError>(AllocError::NoMemory),
        r.alloc_bytes(size) == r,
{
}

/// Pages whose block would start below the byte cursor are turned down for
/// want of memory, and nothing moves.
pub proof fn lemma_alloc_pages_stops_at_byte_cursor(
    r: Region,
    count: int,
    align: int,
    page_size: int,
)
    requires
        valid_page_align(align, page_size),
        r.page_candidate(count, align, page_size) < r.byte_cursor,
    ensures
        r.alloc_pages_result(count, align, page_size) == Err::<int, AllocError>(
            AllocError::NoMemory,
        ),
        r.alloc_pages(count, align, page_size) == r,
{
}

/// Pages are turned down for their alignment exactly where it is no
/// power-of-two number of pages; such an alignment is a positive multiple
/// of the page size, and nothing moves where it is turned down.
pub proof fn lemma_alloc_pages_rejects_alignment(
    r: Region,
    count: int,
    align: int,
    page_size: int,
)
    requires
        0 < page_size,
    ensures
        r.alloc_pages_result(count, align, page_size) == Err::<int, AllocError>(
            AllocError::InvalidParam,
        ) <==> !valid_page_align(align, page_size),
        valid_page_align(align, page_size) ==> 0 < align && is_multiple(align, page_size),
        !valid_page_align(align, page_size) ==> r.alloc_pages(count, align, page_size) == r,
{
    if valid_page_align(align, page_size) {
        lemma_valid_page_align_is_positive(align, page_size);
    }
}

/// The byte counts add up: what is in use and what is available make the
/// whole range.
pub proof fn lemma_byte_counts_add_up(r: Region)
    ensures
        r.used_bytes() + r.available_bytes() == r.total_bytes(),
        r.wf() ==> 0 <= r.used_bytes() && 0 <= r.available_bytes(),
{
}

/// More room above the same floor holds no fewer pages.
pub proof fn lemma_page_count_is_monotonic(lo: int, hi1: int, hi2: int, page_size: int)
    requires
        page_size > 0,
        hi1 <= hi2,
    ensures
        0 <= page_count(lo, hi1, page_size) <= page_count(lo, hi2, page_size),
{
    if lo <= hi1 {
        lemma_div_pos_is_pos(hi1 - lo, page_size);
        lemma_div_is_ordered(hi1 - lo, hi2 - lo, page_size);
    } else if lo <= hi2 {
        lemma_div_pos_is_pos(hi2 - lo, page_size);
    }
}

/// The page counts add up: the pages in use and the pages available make
/// the pages of the whole range, and none of the three is negative.
pub proof fn lemma_page_counts_add_up(r: Region, page_size: int)
    requires
        r.wf(),
        page_size > 0,
    ensures
        r.used_pages(page_size) + r.available_pages(page_size) == r.total_pages(page_size),
        0 <= r.used_pages(page_size),
        0 <= r.available_pages(page_size),
{
    lemma_align_down_is_monotonic(r.page_cursor, r.end, page_size);
    lemma_page_count_is_monotonic(
        align_up_spec(r.start, page_size),
        align_down_spec(r.page_cursor, page_size),
        align_down_spec(r.end, page_size),
        page_size,
    );
}

} // verus!
