//! The mathematical model of the early allocator: a range of addresses that bytes eat
//! into from below and pages from above.

use crate::align::{clear_low, multiple_above, multiple_below};
use vstd::arithmetic::power2::is_pow2;
use vstd::prelude::*;

verus! {

/// Why an allocation is refused.
#[derive(Clone, Copy, Debug, PartialEq, Eq, Structural)]
pub enum AllocError {
    /// A size, a count or an alignment that cannot be served.
    InvalidParam,
    /// Not enough room between the two used areas.
    NoMemory,
}

/// The state of an early allocator.
///
/// ```text
/// [ bytes-used | avail-area | pages-used ]
/// |            | -->    <-- |            |
/// start       b_pos        p_pos       end
/// ```
pub struct Region {
    pub start: int,
    pub end: int,
    pub b_pos: int,
    pub p_pos: int,
    pub count: int,
}

impl Region {
    /// The four positions are in order and fit in a word, every live byte allocation has at
    /// least one byte, and the bytes area is empty exactly when no byte allocation is live.
    pub open spec fn inv(self) -> bool {
        &&& 0 <= self.start <= self.b_pos <= self.p_pos <= self.end <= usize::MAX
        &&& 0 <= self.count <= self.b_pos - self.start
        &&& self.count == 0 <==> self.b_pos == self.start
    }

    /// The range `start .. start + size` with nothing allocated.
    pub open spec fn over(start: int, size: int) -> Region {
        Region { start, end: start + size, b_pos: start, p_pos: start + size, count: 0 }
    }

    /// What a request for `size > 0` bytes at a multiple of `align` is answered: the address
    /// of the first byte, or the reason for the refusal.
    pub open spec fn bytes_answer(self, size: int, align: int) -> Result<int, AllocError> {
        let first = multiple_above(self.b_pos, align);
        if !is_pow2(align) {
            Err(AllocError::InvalidParam)
        } else if first + size > self.p_pos {
            Err(AllocError::NoMemory)
        } else if first == 0 {
            Err(AllocError::InvalidParam)
        } else {
            Ok(first)
        }
    }

    /// Whether `r` answers a request for `size` bytes at a multiple of `align`. A block of no
    /// bytes gets any address that is not null.
    pub open spec fn bytes_served(
        self,
        size: int,
        align: int,
        r: Result<usize, AllocError>,
    ) -> bool {
        if size == 0 {
            r is Ok && r->Ok_0 != 0
        } else {
            match self.bytes_answer(size, align) {
                Ok(first) => r is Ok && r->Ok_0 == first,
                Err(e) => r == Err::<usize, AllocError>(e),
            }
        }
    }

    /// The state after a request for `size` bytes at a multiple of `align`.
    pub open spec fn after_alloc(self, size: int, align: int) -> Region {
        match self.bytes_answer(size, align) {
            Ok(first) if size != 0 => Region {
                b_pos: first + size,
                count: self.count + 1,
                ..self
            },
            _ => self,
        }
    }

    /// The state after `size` bytes are given back: the last live allocation to go frees the
    /// whole bytes area.
    pub open spec fn after_dealloc(self, size: int) -> Region {
        if size == 0 || self.count == 0 {
            self
        } else if self.count == 1 {
            Region { b_pos: self.start, count: 0, ..self }
        } else {
            Region { count: self.count - 1, ..self }
        }
    }

    /// The address that `num` pages of `page` bytes would get below `p_pos`: the greatest that
    /// is a multiple of `align` pages. If the size of a page is no power of two, it is the
    /// highest address that leaves room for them, with the bits of `align * page - 1` cleared.
    pub open spec fn pages_first(self, num: int, align: int, page: int) -> int {
        if is_pow2(page) {
            multiple_below(self.p_pos - num * page, align * page)
        } else {
            clear_low((self.p_pos - num * page) as usize, (align * page) as usize) as int
        }
    }

    /// What a request for `num` pages of `page` bytes, aligned to `align` pages, is answered.
    pub open spec fn pages_answer(self, num: int, align: int, page: int) -> Result<
        int,
        AllocError,
    > {
        if num == 0 || !is_pow2(align) || num * page > usize::MAX || align * page > usize::MAX {
            Err(AllocError::InvalidParam)
        } else if self.p_pos < num * page || self.pages_first(num, align, page) < self.b_pos {
            Err(AllocError::NoMemory)
        } else {
            Ok(self.pages_first(num, align, page))
        }
    }

    /// The state after a request for `num` pages of `page` bytes, aligned to `align` pages.
    pub open spec fn after_alloc_pages(self, num: int, align: int, page: int) -> Region {
        match self.pages_answer(num, align, page) {
            Ok(first) => Region { p_pos: first, ..self },
            Err(_) => self,
        }
    }

    /// The state after `num` pages from `pos` on are given back: pages are never freed.
    pub open spec fn after_dealloc_pages(self, pos: int, num: int) -> Region {
        self
    }

    /// The size of the range.
    pub open spec fn total_bytes(self) -> int {
        self.end - self.start
    }

    /// The size of the bytes area.
    pub open spec fn used_bytes(self) -> int {
        self.b_pos - self.start
    }

    /// The number of bytes between the two areas.
    pub open spec fn available_bytes(self) -> int {
        self.p_pos - self.b_pos
    }

    /// The number of whole pages of `page` bytes that the range could hold.
    pub open spec fn total_pages(self, page: int) -> int {
        (self.end - self.start) / page
    }

    /// The number of whole pages in the pages area.
    pub open spec fn used_pages(self, page: int) -> int {
        (self.end - self.p_pos) / page
    }

    /// The number of whole pages between the two areas.
    pub open spec fn available_pages(self, page: int) -> int {
        (self.p_pos - self.b_pos) / page
    }

    /// Whether there is no range.
    pub open spec fn is_empty(self) -> bool {
        self.start == self.end
    }

    /// What the offer of the range `start .. start + size` is answered: the allocator takes
    /// one range, and takes it only while it has none.
    pub open spec fn memory_answer(self, size: int) -> Result<(), AllocError> {
        if size == 0 {
            Err(AllocError::InvalidParam)
        } else if self.start == self.end {
            Ok(())
        } else {
            Err(AllocError::NoMemory)
        }
    }

    /// The state after the offer of the range `start .. start + size`.
    pub open spec fn after_add_memory(self, start: int, size: int) -> Region {
        if self.memory_answer(size) is Ok {
            Region::over(start, size)
        } else {
            self
        }
    }
}

} // verus!
