//! The allocator's state as four integers, and each operation as a
//! function from state to state.
//!
//! ```text
//! [ bytes in use |   free   | pages in use ]
//! start     byte_cursor  page_cursor      end
//! ```

use vstd::prelude::*;
use vstd::arithmetic::power2::is_pow2;
use crate::align::{align_down_spec, align_up_spec};

verus! {

/// Why an allocation was turned down.
#[derive(Debug, Clone, Copy, PartialEq, Eq, Structural)]
pub enum AllocError {
    /// The alignment asked of a page block is no power-of-two number of
    /// pages.
    InvalidParam,
    /// The request does not fit between the two cursors.
    NoMemory,
}

/// The range `[start, end)` with its two cursors.
pub struct Region {
    pub start: int,
    pub end: int,
    pub byte_cursor: int,
    pub page_cursor: int,
}

/// One thing asked of the allocator.
pub enum Request {
    AllocBytes { size: int },
    Dealloc { pos: int, size: int },
    AllocPages { count: int, align: int },
    DeallocPages { pos: int, count: int },
}

/// A byte alignment that page blocks can be asked to have: a power-of-two
/// number of whole pages.
pub open spec fn valid_page_align(align: int, page_size: int) -> bool {
    align % page_size == 0 && is_pow2(align / page_size)
}

/// How many whole pages lie between `lo` and `hi`; none where `hi` is
/// below `lo`.
pub open spec fn page_count(lo: int, hi: int, page_size: int) -> int {
    if lo <= hi {
        (hi - lo) / page_size
    } else {
        0
    }
}

impl Region {
    /// The state after initialisation: nothing carved from either end.
    pub open spec fn fresh(start: int, size: int) -> Region {
        Region { start, end: start + size, byte_cursor: start, page_cursor: start + size }
    }

    /// The cursors lie in order between the bounds.
    pub open spec fn wf(self) -> bool {
        self.start <= self.byte_cursor <= self.page_cursor <= self.end
    }

    pub open spec fn total_bytes(self) -> int {
        self.end - self.start
    }

    pub open spec fn used_bytes(self) -> int {
        (self.byte_cursor - self.start) + (self.end - self.page_cursor)
    }

    pub open spec fn available_bytes(self) -> int {
        self.page_cursor - self.byte_cursor
    }

    /// What a request for `size` bytes is answered with: the byte cursor
    /// where the bytes fit below the page cursor, else `NoMemory`.
    pub open spec fn alloc_bytes_result(self, size: int) -> Result<int, AllocError> {
        if self.byte_cursor + size <= self.page_cursor {
            Ok(self.byte_cursor)
        } else {
            Err(AllocError::NoMemory)
        }
    }

    /// The state after a request for `size` bytes.
    pub open spec fn alloc_bytes(self, size: int) -> Region {
        if self.alloc_bytes_result(size) is Ok {
            Region { byte_cursor: self.byte_cursor + size, ..self }
        } else {
            self
        }
    }

    /// The state after `size` bytes at `pos` are given back: the byte
    /// cursor retreats where the block is the topmost one.
    pub open spec fn dealloc(self, pos: int, size: int) -> Region {
        if pos + size == self.byte_cursor {
            Region { byte_cursor: pos, ..self }
        } else {
            self
        }
    }

    /// Where a block of `count` pages would start: `count` pages below the
    /// page cursor, rounded up to a multiple of `align`.
    pub open spec fn page_candidate(self, count: int, align: int, page_size: int) -> int {
        align_up_spec(self.page_cursor - count * page_size, align)
    }

    /// What a request for `count` pages is answered with: `InvalidParam`
    /// for an alignment that is not valid; else `NoMemory` where the block
    /// would reach below address zero, or start below the byte cursor or
    /// above the last address; else the address at which the block starts.
    pub open spec fn alloc_pages_result(self, count: int, align: int, page_size: int) -> Result<
        int,
        AllocError,
    > {
        let candidate = self.page_candidate(count, align, page_size);
        if !valid_page_align(align, page_size) {
            Err(AllocError::InvalidParam)
        } else if count * page_size > self.page_cursor || candidate < self.byte_cursor || candidate
            > usize::MAX {
            Err(AllocError::NoMemory)
        } else {
            Ok(candidate)
        }
    }

    /// The state after a request for `count` pages.
    pub open spec fn alloc_pages(self, count: int, align: int, page_size: int) -> Region {
        match self.alloc_pages_result(count, align, page_size) {
            Ok(candidate) => Region { page_cursor: candidate, ..self },
            Err(_) => self,
        }
    }

    /// The state after `count` pages at `pos` are given back: the page
    /// cursor advances where the block is the lowest one and its end is an
    /// address.
    pub open spec fn dealloc_pages(self, pos: int, count: int, page_size: int) -> Region {
        if pos == self.page_cursor && pos + count * page_size <= usize::MAX {
            Region { page_cursor: pos + count * page_size, ..self }
        } else {
            self
        }
    }

    /// The state after `request`.
    pub open spec fn step(self, request: Request, page_size: int) -> Region {
        match request {
            Request::AllocBytes { size } => self.alloc_bytes(size),
            Request::Dealloc { pos, size } => self.dealloc(pos, size),
            Request::AllocPages { count, align } => self.alloc_pages(count, align, page_size),
            Request::DeallocPages { pos, count } => self.dealloc_pages(pos, count, page_size),
        }
    }

    /// The state after each of `requests` in turn.
    pub open spec fn run(self, requests: Seq<Request>, page_size: int) -> Region
        decreases requests.len(),
    {
        if requests.len() == 0 {
            self
        } else {
            self.run(requests.drop_last(), page_size).step(requests.last(), page_size)
        }
    }

    /// `request` stays within the range: no size or count is negative, a
    /// block given back at a cursor lies between the bounds, and a block of
    /// pages that is carved starts at or below the end.
    pub open spec fn stays_in_range(self, request: Request, page_size: int) -> bool {
        match request {
            Request::AllocBytes { size } => 0 <= size,
            Request::Dealloc { pos, size } => 0 <= size && (pos + size == self.byte_cursor
                ==> self.start <= pos),
            Request::AllocPages { count, align } => self.alloc_pages_result(
                count,
                align,
                page_size,
            ) is Ok ==> self.page_candidate(count, align, page_size) <= self.end,
            Request::DeallocPages { pos, count } => 0 <= count && (pos == self.page_cursor ==> pos
                + count * page_size <= self.end),
        }
    }

    /// Whole pages in the range.
    pub open spec fn total_pages(self, page_size: int) -> int {
        page_count(
            align_up_spec(self.start, page_size),
            align_down_spec(self.end, page_size),
            page_size,
        )
    }

    /// Whole pages below the page cursor.
    pub open spec fn available_pages(self, page_size: int) -> int {
        page_count(
            align_up_spec(self.start, page_size),
            align_down_spec(self.page_cursor, page_size),
            page_size,
        )
    }

    pub open spec fn used_pages(self, page_size: int) -> int {
        self.total_pages(page_size) - self.available_pages(page_size)
    }
}

} // verus!
