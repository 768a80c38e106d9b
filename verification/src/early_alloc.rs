//! Early memory allocator, for use before the byte and page allocators proper can work.
//!
//! It serves one memory range from both ends: bytes forward from the start, pages backward
//! from the end. For the bytes area a counter records the number of live allocations; when
//! it goes down to zero the whole bytes area is free again. The pages area is never freed.

use crate::align::{align_down, align_up, lemma_multiples, lemma_pow2_positive, lemma_pow2_product};
use crate::region::{AllocError, Region};
use vstd::arithmetic::power2::is_pow2;
use vstd::prelude::*;

verus! {

/// The size and the alignment of a block of bytes.
#[derive(Clone, Copy, Debug, PartialEq, Eq, Structural)]
pub struct Layout {
    pub size: usize,
    pub align: usize,
}

/// `core::ptr::NonNull::dangling`: an address to stand for a block of no bytes. It is not
/// null; which one it is, its documentation leaves open.
#[verifier::external_body]
fn dangling() -> (addr: usize)
    ensures
        addr != 0,
{
    core::ptr::NonNull::<u8>::dangling().addr().get()
}

/// An allocator over one memory range, with pages of `SIZE` bytes.
pub struct EarlyAllocator<const SIZE: usize> {
    start: usize,
    end: usize,
    b_pos: usize,
    p_pos: usize,
    count: usize,
}

impl<const SIZE: usize> View for EarlyAllocator<SIZE> {
    type V = Region;

    closed spec fn view(&self) -> Region {
        Region {
            start: self.start as int,
            end: self.end as int,
            b_pos: self.b_pos as int,
            p_pos: self.p_pos as int,
            count: self.count as int,
        }
    }
}

impl<const SIZE: usize> EarlyAllocator<SIZE> {
    /// An allocator without memory.
    pub fn new() -> (r: Self)
        ensures
            r@ == Region::over(0, 0),
            r@.start == 0,
            r@.end == 0,
            r@.b_pos == 0,
            r@.p_pos == 0,
            r@.count == 0,
            r@.inv(),
    {
        Self { start: 0, end: 0, b_pos: 0, p_pos: 0, count: 0 }
    }

    /// Whether the allocator has no memory range.
    pub fn is_empty(&self) -> (r: bool)
        ensures
            r == (self@.start == self@.end),
            r == self@.is_empty(),
    {
        self.start == self.end
    }

    /// Where the next byte allocation begins before it is aligned.
    pub fn byte_pos(&self) -> (r: usize)
        ensures
            r == self@.b_pos,
            r == self@.start + self@.used_bytes(),
    {
        self.b_pos
    }

    /// Takes the range `start .. start + size` and forgets whatever was there before.
    pub fn init(&mut self, start: usize, size: usize)
        requires
            start + size <= usize::MAX,
        ensures
            final(self)@ == Region::over(start as int, size as int),
            final(self)@.start == start,
            final(self)@.end == start + size,
            final(self)@.b_pos == start,
            final(self)@.p_pos == start + size,
            final(self)@.count == 0,
            final(self)@.inv(),
    {
        self.start = start;
        self.end = start + size;
        self.b_pos = start;
        self.p_pos = start + size;
        self.count = 0;
    }

    /// Takes the range `start .. start + size` if there is none yet.
    pub fn add_memory(&mut self, start: usize, size: usize) -> (r: Result<(), AllocError>)
        requires
            old(self)@.inv(),
            old(self)@.memory_answer(size as int) is Ok ==> start + size <= usize::MAX,
        ensures
            r == old(self)@.memory_answer(size as int),
            final(self)@ == old(self)@.after_add_memory(start as int, size as int),
            r is Ok <==> size > 0 && old(self)@.start == old(self)@.end,
            r is Ok ==> {
                &&& final(self)@.start == final(self)@.b_pos == start
                &&& final(self)@.end == final(self)@.p_pos == start + size
                &&& final(self)@.count == 0
            },
            r is Err ==> final(self)@ == old(self)@,
            final(self)@.inv(),
    {
        if size == 0 {
            return Err(AllocError::InvalidParam);
        }
        if self.is_empty() {
            self.init(start, size);
            Ok(())
        } else {
            Err(AllocError::NoMemory)
        }
    }

    /// Hands out `layout.size` bytes at a multiple of `layout.align`, and returns the address
    /// of the first one. A block of no bytes costs nothing and gets an arbitrary address that
    /// is not null.
    pub fn alloc_bytes(&mut self, layout: Layout) -> (r: Result<usize, AllocError>)
        requires
            old(self)@.inv(),
            layout.size > 0 && is_pow2(layout.align as int) ==> old(self)@.b_pos + layout.align
                <= usize::MAX,
        ensures
            layout.size == 0 ==> r is Ok && r->Ok_0 != 0,
            layout.size > 0 ==> match old(self)@.bytes_answer(
                layout.size as int,
                layout.align as int,
            ) {
                Ok(first) => r is Ok && r->Ok_0 == first,
                Err(e) => r == Err::<usize, AllocError>(e),
            },
            old(self)@.bytes_served(layout.size as int, layout.align as int, r),
            final(self)@ == old(self)@.after_alloc(layout.size as int, layout.align as int),
            final(self)@.inv(),
    {
        let size = layout.size;
        let align = layout.align;
        if size == 0 {
            return Ok(dangling());
        }
        if !align.is_power_of_two() {
            return Err(AllocError::InvalidParam);
        }
        proof {
            lemma_pow2_positive(align as int);
            lemma_multiples(self.b_pos as int, align as int);
        }
        let alloc_start = align_up(self.b_pos, align);
        let alloc_end = match alloc_start.checked_add(size) {
            Some(alloc_end) => alloc_end,
            None => return Err(AllocError::NoMemory),
        };
        // Do not run into the pages area.
        if alloc_end > self.p_pos {
            return Err(AllocError::NoMemory);
        }
        if alloc_start == 0 {
            return Err(AllocError::InvalidParam);
        }
        self.b_pos = alloc_end;
        self.count = self.count + 1;
        Ok(alloc_start)
    }

    /// Gives back a block of bytes. Only the number of live blocks is kept, so the address
    /// does not matter; when the last one goes, the whole bytes area is free.
    pub fn dealloc(&mut self, _pos: usize, layout: Layout)
        requires
            old(self)@.inv(),
        ensures
            final(self)@ == old(self)@.after_dealloc(layout.size as int),
            final(self)@.inv(),
    {
        if layout.size == 0 {
            return;
        }
        if self.count == 0 {
            return;
        }
        self.count = self.count - 1;
        if self.count == 0 {
            self.b_pos = self.start;
        }
    }

    /// The size of the memory range in bytes.
    pub fn total_bytes(&self) -> (r: usize)
        requires
            self@.inv(),
        ensures
            r == self@.end - self@.start,
            r == self@.total_bytes(),
    {
        self.end - self.start
    }

    /// The size of the bytes area.
    pub fn used_bytes(&self) -> (r: usize)
        requires
            self@.inv(),
        ensures
            r == self@.b_pos - self@.start,
            r == self@.used_bytes(),
    {
        self.b_pos - self.start
    }

    /// The number of bytes between the bytes area and the pages area.
    pub fn available_bytes(&self) -> (r: usize)
        requires
            self@.inv(),
        ensures
            r == self@.p_pos - self@.b_pos,
            r == self@.available_bytes(),
    {
        self.p_pos - self.b_pos
    }

    /// Hands out `num_pages` pages at a multiple of `align_pow2` pages, and returns the
    /// address of the first one. With `SIZE` a power of two that is the greatest such address
    /// below the pages area; with any other `SIZE` the address has the bits of
    /// `align_pow2 * SIZE - 1` cleared.
    pub fn alloc_pages(&mut self, num_pages: usize, align_pow2: usize) -> (r: Result<
        usize,
        AllocError,
    >)
        requires
            old(self)@.inv(),
            SIZE > 0 || num_pages == 0 || !is_pow2(align_pow2 as int),
        ensures
            match old(self)@.pages_answer(num_pages as int, align_pow2 as int, SIZE as int) {
                Ok(first) => r is Ok && r->Ok_0 == first,
                Err(e) => r == Err::<usize, AllocError>(e),
            },
            final(self)@ == old(self)@.after_alloc_pages(
                num_pages as int,
                align_pow2 as int,
                SIZE as int,
            ),
            final(self)@.inv(),
    {
        proof {
            if is_pow2(align_pow2 as int) {
                lemma_pow2_positive(align_pow2 as int);
            }
        }
        if num_pages == 0 || align_pow2 == 0 || !align_pow2.is_power_of_two() {
            return Err(AllocError::InvalidParam);
        }
        let size = match num_pages.checked_mul(SIZE) {
            Some(size) => size,
            None => return Err(AllocError::InvalidParam),
        };
        // The alignment counts pages: with pages of 4096 bytes, an alignment of 2 asks for
        // multiples of 8192.
        let align = match align_pow2.checked_mul(SIZE) {
            Some(align) => align,
            None => return Err(AllocError::InvalidParam),
        };
        assert(align > 0) by (nonlinear_arith)
            requires
                align == align_pow2 * SIZE,
                align_pow2 > 0,
                SIZE > 0,
        ;
        // Pages grow from `p_pos` to the left.
        let raw_start = match self.p_pos.checked_sub(size) {
            Some(raw_start) => raw_start,
            None => return Err(AllocError::NoMemory),
        };
        proof {
            if is_pow2(SIZE as int) {
                lemma_pow2_product(align_pow2 as int, SIZE as int);
            }
        }
        let alloc_start = align_down(raw_start, align);
        let alloc_end = match alloc_start.checked_add(size) {
            Some(alloc_end) => alloc_end,
            None => return Err(AllocError::NoMemory),
        };
        // Stay below `p_pos` and out of the bytes area.
        if alloc_end > self.p_pos || alloc_start < self.b_pos {
            return Err(AllocError::NoMemory);
        }
        self.p_pos = alloc_start;
        Ok(alloc_start)
    }

    /// Pages are never given back.
    pub fn dealloc_pages(&mut self, _pos: usize, _num_pages: usize)
        ensures
            *final(self) == *old(self),
            final(self)@ == old(self)@.after_dealloc_pages(_pos as int, _num_pages as int),
    {
    }

    /// The number of whole pages that the memory range could hold.
    pub fn total_pages(&self) -> (r: usize)
        requires
            self@.inv(),
            SIZE > 0,
        ensures
            r == (self@.end - self@.start) / SIZE as int,
            r == self@.total_pages(SIZE as int),
    {
        self.total_bytes() / SIZE
    }

    /// The number of whole pages in the pages area.
    pub fn used_pages(&self) -> (r: usize)
        requires
            self@.inv(),
            SIZE > 0,
        ensures
            r == (self@.end - self@.p_pos) / SIZE as int,
            r == self@.used_pages(SIZE as int),
    {
        (self.end - self.p_pos) / SIZE
    }

    /// The number of whole pages between the bytes area and the pages area.
    pub fn available_pages(&self) -> (r: usize)
        requires
            self@.inv(),
            SIZE > 0,
        ensures
            r == (self@.p_pos - self@.b_pos) / SIZE as int,
            r == self@.available_pages(SIZE as int),
    {
        (self.p_pos - self.b_pos) / SIZE
    }
}

} // verus!
