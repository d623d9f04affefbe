//! The allocator itself: four addresses, and the operations on them.

use vstd::prelude::*;
use crate::align::{align_down, checked_align_up, is_multiple, is_power_of_two};
use crate::laws::{
    lemma_alloc_pages_lands_on_a_page,
    lemma_page_counts_add_up,
    lemma_valid_page_align_is_positive,
};
use crate::region::{page_count, AllocError, Region};

verus! {

/// An allocator for the time before the full allocators work.
///
/// It owns one range of addresses. Bytes are carved from the low end
/// upward, pages of `PAGE_SIZE` bytes from the high end downward, and a
/// request is turned down once the two would meet.
///
/// Nothing is recorded of the blocks handed out. A block can be given back
/// only while it is the last one carved from its end; any other block given
/// back is left in use, without an error, until the whole range is
/// dropped.
pub struct EarlyAllocator<const PAGE_SIZE: usize> {
    start: usize,
    end: usize,
    byte_pos: usize,
    page_pos: usize,
}

impl<const PAGE_SIZE: usize> View for EarlyAllocator<PAGE_SIZE> {
    type V = Region;

    closed spec fn view(&self) -> Region {
        Region {
            start: self.start as int,
            end: self.end as int,
            byte_cursor: self.byte_pos as int,
            page_cursor: self.page_pos as int,
        }
    }
}

/// Whole pages between two addresses.
fn pages_between(lo: Option<usize>, hi: usize, page_size: usize) -> (r: usize)
    requires
        page_size > 0,
    ensures
        r == match lo {
            Some(l) => page_count(l as int, hi as int, page_size as int),
            None => 0,
        },
{
    match lo {
        Some(l) => {
            if l <= hi {
                (hi - l) / page_size
            } else {
                0
            }
        },
        None => 0,
    }
}

impl<const PAGE_SIZE: usize> EarlyAllocator<PAGE_SIZE> {
    /// What no operation undoes: the range has its end at or above its
    /// start, and the byte cursor has not passed the page cursor.
    #[verifier::type_invariant]
    spec fn cursors_have_not_met(self) -> bool {
        self.start <= self.end && self.byte_pos <= self.page_pos
    }

    /// The bounds and the cursors are addresses of the machine.
    pub proof fn lemma_addresses(&self)
        ensures
            0 <= self@.start <= usize::MAX,
            0 <= self@.end <= usize::MAX,
            0 <= self@.byte_cursor <= usize::MAX,
            0 <= self@.page_cursor <= usize::MAX,
    {
    }

    /// Pages that were carved where no rounding moved the block's start,
    /// and are given back at once, leave the allocator as it was before.
    pub proof fn lemma_pages_given_back_at_once_restore(&self, count: int, align: int)
        requires
            self@.alloc_pages_result(count, align, PAGE_SIZE as int) == Ok::<int, AllocError>(
                self@.page_cursor - count * PAGE_SIZE,
            ),
        ensures
            self@.alloc_pages(count, align, PAGE_SIZE as int).dealloc_pages(
                self@.page_cursor - count * PAGE_SIZE,
                count,
                PAGE_SIZE as int,
            ) == self@,
    {
    }

    /// An allocator that owns no memory yet.
    pub fn new() -> (r: Self)
        ensures
            r@ == Region::fresh(0, 0),
    {
        Self { start: 0, end: 0, byte_pos: 0, page_pos: 0 }
    }

    /// Takes over the `size` bytes from `start`, with nothing carved yet.
    pub fn init(&mut self, start: usize, size: usize)
        requires
            start + size <= usize::MAX,
        ensures
            final(self)@ == Region::fresh(start as int, size as int),
    {
        let end: usize = start + size;
        *self = Self { start, end, byte_pos: start, page_pos: end };
    }

    /// Whether the cursors lie in order between the bounds.
    pub fn is_wf(&self) -> (r: bool)
        ensures
            r == self@.wf(),
    {
        self.start <= self.byte_pos && self.byte_pos <= self.page_pos && self.page_pos <= self.end
    }

    /// Carves `num_pages` pages from the high end.
    ///
    /// `align_pow2` is counted in bytes and must be a power-of-two number
    /// of pages. The block starts `num_pages` pages below the page cursor,
    /// rounded up to a multiple of `align_pow2`, so that the page cursor is
    /// on a page boundary from the first block on.
    pub fn alloc_pages(&mut self, num_pages: usize, align_pow2: usize) -> (r: Result<
        usize,
        AllocError,
    >)
        requires
            PAGE_SIZE > 0,
        ensures
            old(self)@.alloc_pages_result(num_pages as int, align_pow2 as int, PAGE_SIZE as int)
                == match r {
                Ok(pos) => Ok::<int, AllocError>(pos as int),
                Err(e) => Err::<int, AllocError>(e),
            },
            final(self)@ == old(self)@.alloc_pages(
                num_pages as int,
                align_pow2 as int,
                PAGE_SIZE as int,
            ),
            match r {
                Ok(pos) => {
                    &&& is_multiple(pos as int, align_pow2 as int)
                    &&& is_multiple(pos as int, PAGE_SIZE as int)
                    &&& old(self)@.byte_cursor <= pos
                    &&& final(self)@.page_cursor == pos
                },
                Err(_) => final(self)@ == old(self)@,
            },
    {
        proof {
            use_type_invariant(&*self);
        }
        if align_pow2 % PAGE_SIZE != 0 {
            return Err(AllocError::InvalidParam);
        }
        if !is_power_of_two(align_pow2 / PAGE_SIZE) {
            return Err(AllocError::InvalidParam);
        }
        proof {
            lemma_valid_page_align_is_positive(align_pow2 as int, PAGE_SIZE as int);
        }
        let span: usize = match num_pages.checked_mul(PAGE_SIZE) {
            Some(span) => span,
            None => {
                return Err(AllocError::NoMemory);
            },
        };
        if span > self.page_pos {
            return Err(AllocError::NoMemory);
        }
        let start: usize = match checked_align_up(self.page_pos - span, align_pow2) {
            Some(start) => start,
            None => {
                return Err(AllocError::NoMemory);
            },
        };
        if start < self.byte_pos {
            return Err(AllocError::NoMemory);
        }
        proof {
            lemma_alloc_pages_lands_on_a_page(
                self@,
                num_pages as int,
                align_pow2 as int,
                PAGE_SIZE as int,
            );
        }
        self.page_pos = start;
        Ok(start)
    }

    /// Gives back `num_pages` pages at `pos`.
    ///
    /// The page cursor advances by the block only where `pos` is the page
    /// cursor, that is for the block carved last. Any other block is left
    /// in use.
    pub fn dealloc_pages(&mut self, pos: usize, num_pages: usize)
        ensures
            final(self)@ == old(self)@.dealloc_pages(
                pos as int,
                num_pages as int,
                PAGE_SIZE as int,
            ),
    {
        proof {
            use_type_invariant(&*self);
        }
        if pos == self.page_pos {
            if let Some(span) = num_pages.checked_mul(PAGE_SIZE) {
                if let Some(top) = pos.checked_add(span) {
                    self.page_pos = top;
                }
            }
        }
    }

    /// Carves `size` bytes from the low end, at the byte cursor as it
    /// stands: `align` moves nothing.
    #[allow(unused_variables)]
    pub fn alloc_bytes(&mut self, size: usize, align: usize) -> (r: Result<usize, AllocError>)
        ensures
            old(self)@.alloc_bytes_result(size as int) == match r {
                Ok(pos) => Ok::<int, AllocError>(pos as int),
                Err(e) => Err::<int, AllocError>(e),
            },
            final(self)@ == old(self)@.alloc_bytes(size as int),
    {
        proof {
            use_type_invariant(&*self);
        }
        if self.available_bytes() < size {
            return Err(AllocError::NoMemory);
        }
        let pos: usize = self.byte_pos;
        self.byte_pos = self.byte_pos + size;
        Ok(pos)
    }

    /// Gives back `size` bytes at `pos`.
    ///
    /// The byte cursor retreats to `pos` only where the block ends at the
    /// byte cursor, that is for the block carved last. Any other block is
    /// left in use.
    #[allow(unused_variables)]
    pub fn dealloc(&mut self, pos: usize, size: usize, align: usize)
        ensures
            final(self)@ == old(self)@.dealloc(pos as int, size as int),
    {
        proof {
            use_type_invariant(&*self);
        }
        if let Some(top) = pos.checked_add(size) {
            if top == self.byte_pos {
                self.byte_pos = self.byte_pos - size;
            }
        }
    }

    /// Bytes between the two cursors.
    pub fn available_bytes(&self) -> (r: usize)
        ensures
            r == self@.available_bytes(),
    {
        proof {
            use_type_invariant(self);
        }
        self.page_pos - self.byte_pos
    }

    /// Bytes in the whole range.
    pub fn total_bytes(&self) -> (r: usize)
        ensures
            r == self@.total_bytes(),
    {
        proof {
            use_type_invariant(self);
        }
        self.end - self.start
    }

    /// Bytes below the byte cursor and from the page cursor up.
    pub fn used_bytes(&self) -> (r: usize)
        requires
            self@.wf(),
        ensures
            r == self@.used_bytes(),
    {
        (self.byte_pos - self.start) + (self.end - self.page_pos)
    }

    /// Whole pages in the range.
    pub fn total_pages(&self) -> (r: usize)
        requires
            PAGE_SIZE > 0,
        ensures
            r == self@.total_pages(PAGE_SIZE as int),
    {
        let end: usize = align_down(self.end, PAGE_SIZE);
        let start: Option<usize> = checked_align_up(self.start, PAGE_SIZE);
        pages_between(start, end, PAGE_SIZE)
    }

    /// Whole pages below the page cursor.
    pub fn available_pages(&self) -> (r: usize)
        requires
            PAGE_SIZE > 0,
        ensures
            r == self@.available_pages(PAGE_SIZE as int),
    {
        let end: usize = align_down(self.page_pos, PAGE_SIZE);
        let start: Option<usize> = checked_align_up(self.start, PAGE_SIZE);
        pages_between(start, end, PAGE_SIZE)
    }

    /// Whole pages from the page cursor up.
    pub fn used_pages(&self) -> (r: usize)
        requires
            PAGE_SIZE > 0,
            self@.wf(),
        ensures
            r == self@.used_pages(PAGE_SIZE as int),
    {
        proof {
            lemma_page_counts_add_up(self@, PAGE_SIZE as int);
        }
        self.total_pages() - self.available_pages()
    }
}

} // verus!
