use early_kernel::align::{align_down, align_up};
use early_kernel::early_alloc::{EarlyAllocator, Layout};
use early_kernel::region::AllocError;

fn layout(size: usize, align: usize) -> Layout {
    Layout { size, align }
}

fn ready(start: usize, size: usize) -> EarlyAllocator<4096> {
    let mut a = EarlyAllocator::<4096>::new();
    a.init(start, size);
    a
}

#[test]
fn addresses_round_to_powers_of_two() {
    assert_eq!(align_down(0x12345678, 0x1000), 0x12345000);
    assert_eq!(align_up(0x12345678, 0x1000), 0x12346000);
    assert_eq!(align_down(0x2000, 0x1000), 0x2000);
    assert_eq!(align_up(0x2000, 0x1000), 0x2000);
    assert_eq!(align_up(13, 1), 13);
    assert_eq!(align_down(0, 8), 0);
}

#[test]
fn other_alignments_clear_the_bits_of_one_less() {
    assert_eq!(align_down(29, 6), 29 & !5);
    assert_eq!(align_up(29, 6), 34 & !5);
}

#[test]
fn new_allocator_has_no_memory() {
    let mut a = EarlyAllocator::<4096>::new();
    assert!(a.is_empty());
    assert_eq!(a.total_bytes(), 0);
    assert_eq!(a.used_bytes(), 0);
    assert_eq!(a.available_bytes(), 0);
    assert_eq!(a.alloc_bytes(layout(8, 8)), Err(AllocError::NoMemory));
    assert_eq!(a.alloc_pages(1, 1), Err(AllocError::NoMemory));
}

#[test]
fn memory_is_taken_once() {
    let mut a = EarlyAllocator::<4096>::new();
    assert_eq!(a.add_memory(0x1000, 0), Err(AllocError::InvalidParam));
    assert!(a.is_empty());
    assert_eq!(a.add_memory(0x8000_0000, 0x10000), Ok(()));
    assert!(!a.is_empty());
    assert_eq!(a.total_bytes(), 0x10000);
    assert_eq!(a.add_memory(0x9000_0000, 0x10000), Err(AllocError::NoMemory));
    assert_eq!(a.add_memory(0x9000_0000, 0), Err(AllocError::InvalidParam));
    assert_eq!(a.total_bytes(), 0x10000);
    assert_eq!(a.byte_pos(), 0x8000_0000);
}

#[test]
fn bytes_go_forward_and_are_aligned() {
    let mut a = ready(0x8000_0003, 0x10000);
    assert_eq!(a.alloc_bytes(layout(10, 8)), Ok(0x8000_0008));
    assert_eq!(a.used_bytes(), 15);
    assert_eq!(a.alloc_bytes(layout(1, 1)), Ok(0x8000_0012));
    assert_eq!(a.alloc_bytes(layout(16, 64)), Ok(0x8000_0040));
    assert_eq!(a.byte_pos(), 0x8000_0050);
    assert_eq!(a.used_bytes(), 0x4d);
    assert_eq!(a.available_bytes(), 0x10000 - 0x4d);
}

#[test]
fn no_bytes_cost_nothing() {
    let mut a = ready(0x8000_0000, 0x1000);
    let addr = a.alloc_bytes(layout(0, 8)).unwrap();
    assert_ne!(addr, 0);
    assert_eq!(a.used_bytes(), 0);
    a.dealloc(addr, layout(0, 8));
    assert_eq!(a.used_bytes(), 0);
}

#[test]
fn bytes_are_refused() {
    let mut a = ready(0x8000_0000, 0x1000);
    assert_eq!(a.alloc_bytes(layout(8, 3)), Err(AllocError::InvalidParam));
    assert_eq!(a.alloc_bytes(layout(8, 0)), Err(AllocError::InvalidParam));
    assert_eq!(a.alloc_bytes(layout(0x1001, 1)), Err(AllocError::NoMemory));
    assert_eq!(a.alloc_bytes(layout(usize::MAX, 1)), Err(AllocError::NoMemory));
    assert_eq!(a.used_bytes(), 0);
    assert_eq!(a.alloc_bytes(layout(0x1000, 1)), Ok(0x8000_0000));
    assert_eq!(a.available_bytes(), 0);
}

#[test]
fn address_zero_is_not_handed_out() {
    let mut a = ready(0, 0x1000);
    assert_eq!(a.alloc_bytes(layout(8, 8)), Err(AllocError::InvalidParam));
    assert_eq!(a.used_bytes(), 0);
    assert_eq!(a.alloc_bytes(layout(0x1001, 8)), Err(AllocError::NoMemory));
}

#[test]
fn the_last_block_frees_all_bytes() {
    let mut a = ready(0x8000_0000, 0x1000);
    let p = a.alloc_bytes(layout(16, 8)).unwrap();
    let q = a.alloc_bytes(layout(32, 8)).unwrap();
    assert_eq!(a.used_bytes(), 48);
    a.dealloc(q, layout(32, 8));
    assert_eq!(a.used_bytes(), 48);
    a.dealloc(p, layout(16, 8));
    assert_eq!(a.used_bytes(), 0);
    a.dealloc(p, layout(16, 8));
    assert_eq!(a.used_bytes(), 0);
    assert_eq!(a.alloc_bytes(layout(16, 8)), Ok(p));
}

#[test]
fn pages_go_backward_and_are_aligned() {
    let mut a = ready(0x8000_0000, 0x10000);
    assert_eq!(a.total_pages(), 16);
    assert_eq!(a.alloc_pages(1, 1), Ok(0x8000_f000));
    assert_eq!(a.alloc_pages(1, 4), Ok(0x8000_c000));
    assert_eq!(a.used_pages(), 4);
    assert_eq!(a.available_pages(), 12);
    assert_eq!(a.alloc_pages(2, 2), Ok(0x8000_a000));
    a.dealloc_pages(0x8000_a000, 2);
    assert_eq!(a.used_pages(), 6);
    assert_eq!(a.available_bytes(), 0xa000);
    assert_eq!(a.total_bytes(), 0x10000);
}

#[test]
fn pages_are_refused() {
    let mut a = ready(0x8000_0000, 0x4000);
    assert_eq!(a.alloc_pages(0, 1), Err(AllocError::InvalidParam));
    assert_eq!(a.alloc_pages(1, 0), Err(AllocError::InvalidParam));
    assert_eq!(a.alloc_pages(1, 3), Err(AllocError::InvalidParam));
    assert_eq!(a.alloc_pages(usize::MAX, 1), Err(AllocError::InvalidParam));
    assert_eq!(a.alloc_pages(1, 1 << (usize::BITS - 1)), Err(AllocError::InvalidParam));
    assert_eq!(a.alloc_pages(5, 1), Err(AllocError::NoMemory));
    assert_eq!(a.alloc_pages(0x80000 + 5, 1), Err(AllocError::NoMemory));
    assert_eq!(a.used_pages(), 0);
    assert_eq!(a.alloc_pages(4, 1), Ok(0x8000_0000));
}

#[test]
fn pages_of_an_odd_size_have_bits_cleared() {
    let mut a = EarlyAllocator::<3000>::new();
    a.init(0x10000, 0x10000);
    assert_eq!(a.alloc_pages(1, 1), Ok((0x20000 - 3000) & !2999));
}

#[test]
fn the_two_areas_do_not_meet() {
    let mut a = ready(0x8000_0000, 0x3000);
    assert_eq!(a.alloc_bytes(layout(0x1001, 1)), Ok(0x8000_0000));
    assert_eq!(a.alloc_pages(2, 1), Err(AllocError::NoMemory));
    assert_eq!(a.alloc_pages(1, 1), Ok(0x8000_2000));
    assert_eq!(a.alloc_bytes(layout(0x1000, 1)), Err(AllocError::NoMemory));
    assert_eq!(a.alloc_bytes(layout(0xfff, 1)), Ok(0x8000_1001));
    assert_eq!(a.available_bytes(), 0);
    assert_eq!(a.used_bytes() + a.available_bytes() + 0x1000, a.total_bytes());
}

#[test]
fn init_forgets_what_was_there() {
    let mut a = ready(0x8000_0000, 0x3000);
    a.alloc_bytes(layout(8, 8)).unwrap();
    a.alloc_pages(1, 1).unwrap();
    a.init(0x9000_0000, 0x5000);
    assert_eq!(a.total_bytes(), 0x5000);
    assert_eq!(a.used_bytes(), 0);
    assert_eq!(a.used_pages(), 0);
}

#[test]
fn blocks_may_come_and_go_in_turn() {
    let mut a = EarlyAllocator::<4096>::new();
    assert_eq!(a.add_memory(0x8000_0000, 0x4000), Ok(()));
    let p = a.alloc_bytes(layout(16, 8)).unwrap();
    let q = a.alloc_bytes(layout(16, 8)).unwrap();
    a.dealloc(p, layout(16, 8));
    let r = a.alloc_bytes(layout(16, 8)).unwrap();
    assert_eq!(r, 0x8000_0020);
    a.alloc_pages(1, 1).unwrap();
    assert_eq!(a.add_memory(0x9000_0000, 0x4000), Err(AllocError::NoMemory));
    a.dealloc(q, layout(16, 8));
    assert_eq!(a.used_bytes(), 48);
    a.dealloc(r, layout(16, 8));
    assert_eq!(a.used_bytes(), 0);
    assert_eq!(a.used_pages(), 1);
}
