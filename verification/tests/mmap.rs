use early_kernel::errno::LinuxError;
use early_kernel::file_fill::{FileFill, FillPhase};
use early_kernel::mman::{
    filling_flags, MappingFlags, MmapFlags, MmapProt, MAP_ANONYMOUS, MAP_FIXED, MAP_PRIVATE,
    PROT_EXEC, PROT_READ, PROT_WRITE,
};
use early_kernel::mmap::{
    align_up_4k, mmap_plan, sys_mmap, MapOutcome, Mmap, MmapAction, MmapEvent, MmapRequest,
    MMAP_BASE,
};

const SPACE_END: usize = 0x4000_0000;

fn blank(length: usize) -> MmapRequest {
    MmapRequest {
        addr: 0,
        length,
        prot: PROT_READ | PROT_WRITE,
        flags: MAP_PRIVATE | MAP_ANONYMOUS,
        fd: -1,
        offset: 0,
    }
}

fn of_file(length: usize, offset: isize) -> MmapRequest {
    MmapRequest { addr: 0, length, prot: PROT_READ, flags: MAP_PRIVATE, fd: 3, offset }
}

fn begin(req: MmapRequest) -> Mmap {
    match sys_mmap(req) {
        Ok(call) => call,
        Err(value) => panic!("refused with {value}"),
    }
}

fn refusal(req: MmapRequest) -> isize {
    match sys_mmap(req) {
        Ok(_) => panic!("not refused"),
        Err(value) => value,
    }
}

fn found(call: &mut Mmap, start: usize) {
    assert_eq!(call.action(), MmapAction::Locate);
    call.step(MmapEvent::Space { end: Some(SPACE_END) });
    call.step(MmapEvent::Found(Some(start)));
}

#[test]
fn lengths_round_up_to_pages() {
    assert_eq!(align_up_4k(0), Some(0));
    assert_eq!(align_up_4k(1), Some(0x1000));
    assert_eq!(align_up_4k(0x1000), Some(0x1000));
    assert_eq!(align_up_4k(0x1001), Some(0x2000));
    assert_eq!(align_up_4k(usize::MAX - 0xfff), Some(usize::MAX - 0xfff));
    assert_eq!(align_up_4k(usize::MAX - 0xffe), None);
}

#[test]
fn flags_are_those_of_the_page_table() {
    assert_eq!(MappingFlags::read().bits, page_table_entry::MappingFlags::READ.bits());
    assert_eq!(MappingFlags::read().bits, 1);
    assert_eq!(MappingFlags::write().bits, 2);
    assert_eq!(MappingFlags::execute().bits, 4);
    assert_eq!(MappingFlags::user().bits, 8);
    assert_eq!(MappingFlags::read().union(MappingFlags::user()).bits, 9);
}

#[test]
fn permissions_become_flags() {
    let flags = |prot: i32| MappingFlags::from(MmapProt::from_bits(prot).unwrap()).bits;
    assert_eq!(flags(0), 8);
    assert_eq!(flags(PROT_READ), 9);
    assert_eq!(flags(PROT_WRITE), 10);
    assert_eq!(flags(PROT_EXEC), 12);
    assert_eq!(flags(PROT_READ | PROT_WRITE | PROT_EXEC), 15);
    assert_eq!(filling_flags(MappingFlags { bits: 8 }).bits, 11);
    assert_eq!(filling_flags(MappingFlags { bits: 12 }).bits, 15);
}

#[test]
fn unknown_permissions_are_refused_and_unknown_kinds_dropped() {
    assert_eq!(MmapProt::from_bits(8), None);
    assert_eq!(MmapProt::from_bits(-1), None);
    assert_eq!(MmapProt::from_bits(7), Some(MmapProt { bits: 7 }));
    assert_eq!(MmapFlags::from_bits_truncate(-1).bits, 0x24033);
    assert!(MmapFlags::from_bits_truncate(0x30).contains(MAP_FIXED));
    assert!(!MmapFlags::from_bits_truncate(0x20).contains(MAP_FIXED));
    assert!(!MmapProt { bits: 1 }.contains(PROT_READ | PROT_WRITE));
}

#[test]
fn errors_have_their_linux_numbers() {
    assert_eq!(LinuxError::EBADF.code(), 9);
    assert_eq!(LinuxError::ENOMEM.code(), 12);
    assert_eq!(LinuxError::EFAULT.code(), 14);
    assert_eq!(LinuxError::EINVAL.code(), 22);
    assert_eq!(LinuxError::ENOSYS.code(), 38);
}

#[test]
fn bad_requests_are_refused_at_once() {
    assert_eq!(refusal(blank(0)), -22);
    assert_eq!(refusal(of_file(1, -4096)), -22);
    assert_eq!(refusal(of_file(1, 100)), -22);
    assert_eq!(refusal(blank(usize::MAX)), -12);
    assert_eq!(refusal(MmapRequest { prot: 8, ..blank(1) }), -22);
    assert_eq!(refusal(MmapRequest { fd: -1, ..of_file(1, 0) }), -9);
    assert_eq!(refusal(MmapRequest { prot: 8, ..blank(usize::MAX) }), -12);
}

#[test]
fn a_plan_has_whole_pages_and_flags() {
    let plan = mmap_plan(MmapRequest { addr: 0x5000, ..of_file(5000, 8192) }).unwrap();
    assert_eq!(plan.addr, 0x5000);
    assert_eq!(plan.length, 5000);
    assert_eq!(plan.map_size, 8192);
    assert_eq!(plan.offset, 8192);
    assert_eq!(plan.fd, 3);
    assert!(!plan.fixed);
    assert!(!plan.anonymous);
    assert_eq!(plan.final_flags.bits, 9);
    assert_eq!(plan.temp_flags.bits, 11);
    assert_eq!(mmap_plan(blank(0)), Err(LinuxError::EINVAL));
}

#[test]
fn a_blank_mapping_goes_through() {
    let mut call = begin(blank(5000));
    assert_eq!(call.action(), MmapAction::Locate);
    call.step(MmapEvent::Space { end: Some(SPACE_END) });
    assert_eq!(
        call.action(),
        MmapAction::FindFree {
            hint: MMAP_BASE,
            size: 8192,
            limit_start: MMAP_BASE,
            limit_end: SPACE_END,
        }
    );
    call.step(MmapEvent::Found(Some(0x1234_5000)));
    assert_eq!(
        call.action(),
        MmapAction::MapPages {
            start: 0x1234_5000,
            size: 8192,
            flags: MappingFlags { bits: 11 },
        }
    );
    call.step(MmapEvent::Mapped(MapOutcome::Mapped));
    assert_eq!(call.action(), MmapAction::Write { start: 0x1234_5000 });
    assert_eq!(*call.data(), vec![0u8; 5000]);
    call.step(MmapEvent::Completed(true));
    assert_eq!(
        call.action(),
        MmapAction::Protect {
            start: 0x1234_5000,
            size: 8192,
            flags: MappingFlags { bits: 11 },
        }
    );
    call.step(MmapEvent::Completed(true));
    assert_eq!(call.action(), MmapAction::Return { value: 0x1234_5000 });
}

#[test]
fn a_file_is_read_in_pieces() {
    let file: Vec<u8> = (0..5000u32).map(|i| (i % 251) as u8).collect();
    let mut call = begin(of_file(2000, 4096));
    let mut pos = 0;
    let mut skips = 0;
    while let MmapAction::Read { fd, len } = call.action() {
        assert_eq!(fd, 3);
        if pos < 4096 {
            assert_eq!(len, 512);
            skips += 1;
        }
        let n = len.min(600).min(file.len() - pos);
        call.step(MmapEvent::Bytes(file[pos..pos + n].to_vec()));
        pos += n;
    }
    assert_eq!(skips, 8);
    assert_eq!(pos, 5000);
    let mut expected = file[4096..].to_vec();
    expected.resize(2000, 0);
    assert_eq!(*call.data(), expected);
    assert_eq!(call.action(), MmapAction::Locate);
}

#[test]
fn a_file_that_ends_before_the_offset_gives_zeros() {
    let mut call = begin(of_file(10, 4096));
    call.step(MmapEvent::Bytes(vec![7; 100]));
    assert_eq!(call.action(), MmapAction::Read { fd: 3, len: 512 });
    call.step(MmapEvent::Bytes(vec![]));
    assert_eq!(call.action(), MmapAction::Read { fd: 3, len: 10 });
    call.step(MmapEvent::Bytes(vec![]));
    assert_eq!(call.action(), MmapAction::Locate);
    assert_eq!(*call.data(), vec![0u8; 10]);
}

#[test]
fn a_fill_wants_what_is_left() {
    let mut fill = FileFill::begin(4, 600);
    assert_eq!(fill.phase(), FillPhase::Skip);
    assert_eq!(fill.wanted(), 512);
    fill.feed(&vec![1; 512]);
    assert_eq!(fill.wanted(), 88);
    fill.feed(&vec![1; 88]);
    assert_eq!(fill.phase(), FillPhase::Fill);
    assert_eq!(fill.wanted(), 4);
    fill.feed(&vec![5, 6, 7]);
    assert_eq!(fill.wanted(), 1);
    assert_eq!(*fill.data(), vec![5, 6, 7, 0]);
    fill.feed(&vec![8]);
    assert_eq!(fill.phase(), FillPhase::Done);
    assert_eq!(fill.wanted(), 0);
    assert_eq!(*fill.data(), vec![5, 6, 7, 8]);
    assert_eq!(FileFill::blank(3).phase(), FillPhase::Done);
    assert_eq!(*FileFill::blank(3).data(), vec![0, 0, 0]);
}

#[test]
fn a_file_that_cannot_be_read_fails_the_call() {
    let mut call = begin(of_file(10, 0));
    call.step(MmapEvent::ReadError { code: 5 });
    assert_eq!(call.action(), MmapAction::Return { value: -5 });
}

#[test]
fn without_an_address_space_the_call_fails() {
    let mut call = begin(blank(10));
    call.step(MmapEvent::Space { end: None });
    assert_eq!(call.action(), MmapAction::Return { value: -22 });
}

#[test]
fn a_wanted_address_is_rounded_up_and_kept_above_the_base() {
    let hint = |addr: usize| {
        let mut call = begin(MmapRequest { addr, ..blank(1) });
        call.step(MmapEvent::Space { end: Some(SPACE_END) });
        match call.action() {
            MmapAction::FindFree { hint, .. } => hint,
            _ => panic!("no search"),
        }
    };
    assert_eq!(hint(0x2000_0001), 0x2000_1000);
    assert_eq!(hint(0x2000_0000), 0x2000_0000);
    assert_eq!(hint(0x5000), MMAP_BASE);
    assert_eq!(hint(MMAP_BASE - 1), MMAP_BASE);
}

#[test]
fn no_free_address_fails_the_call() {
    let mut call = begin(blank(1));
    call.step(MmapEvent::Space { end: Some(SPACE_END) });
    call.step(MmapEvent::Found(None));
    assert_eq!(call.action(), MmapAction::Return { value: -12 });
}

#[test]
fn a_fixed_address_is_checked() {
    let fixed = |addr: usize| {
        let mut call = begin(MmapRequest {
            addr,
            flags: MAP_PRIVATE | MAP_ANONYMOUS | MAP_FIXED,
            ..blank(1)
        });
        call.step(MmapEvent::Space { end: Some(SPACE_END) });
        call
    };
    assert_eq!(fixed(0).action(), MmapAction::Return { value: -22 });
    assert_eq!(fixed(0x2000_0001).action(), MmapAction::Return { value: -22 });
    let mut call = fixed(0x2000_0000);
    assert_eq!(call.action(), MmapAction::CheckRange { start: 0x2000_0000, size: 0x1000 });
    call.step(MmapEvent::InRange(false));
    assert_eq!(call.action(), MmapAction::Return { value: -12 });
    let mut call = fixed(0x2000_0000);
    call.step(MmapEvent::InRange(true));
    assert_eq!(
        call.action(),
        MmapAction::MapPages {
            start: 0x2000_0000,
            size: 0x1000,
            flags: MappingFlags { bits: 11 },
        }
    );
}

#[test]
fn pages_that_cannot_be_mapped_fail_the_call() {
    let mut call = begin(blank(1));
    found(&mut call, 0x2000_0000);
    call.step(MmapEvent::Mapped(MapOutcome::Refused));
    assert_eq!(call.action(), MmapAction::Return { value: -12 });
    let mut call = begin(blank(1));
    found(&mut call, 0x2000_0000);
    call.step(MmapEvent::Mapped(MapOutcome::InUse));
    assert_eq!(call.action(), MmapAction::Return { value: -12 });
}

#[test]
fn a_failed_write_takes_the_pages_back() {
    let mut call = begin(blank(1));
    found(&mut call, 0x2000_0000);
    call.step(MmapEvent::Mapped(MapOutcome::Mapped));
    call.step(MmapEvent::Completed(false));
    assert_eq!(call.action(), MmapAction::Unmap { start: 0x2000_0000, size: 0x1000 });
    call.step(MmapEvent::Unmapped);
    assert_eq!(call.action(), MmapAction::Return { value: -14 });
}

#[test]
fn failed_permissions_take_the_pages_back() {
    let mut call = begin(blank(1));
    found(&mut call, 0x2000_0000);
    call.step(MmapEvent::Mapped(MapOutcome::Mapped));
    call.step(MmapEvent::Completed(true));
    call.step(MmapEvent::Completed(false));
    assert_eq!(call.action(), MmapAction::Unmap { start: 0x2000_0000, size: 0x1000 });
    call.step(MmapEvent::Unmapped);
    assert_eq!(call.action(), MmapAction::Return { value: -22 });
}

#[test]
fn a_high_address_is_returned_as_the_same_word() {
    let start = usize::MAX - 0xfff;
    let mut call = begin(blank(1));
    found(&mut call, start);
    call.step(MmapEvent::Mapped(MapOutcome::Mapped));
    call.step(MmapEvent::Completed(true));
    call.step(MmapEvent::Completed(true));
    assert_eq!(call.action(), MmapAction::Return { value: -0x1000 });
}

fn fixed_in_range(addr: usize) -> Mmap {
    let flags = MAP_PRIVATE | MAP_ANONYMOUS | MAP_FIXED;
    let mut call = begin(MmapRequest { addr, flags, ..blank(5000) });
    call.step(MmapEvent::Space { end: Some(SPACE_END) });
    call.step(MmapEvent::InRange(true));
    call
}

#[test]
fn a_fixed_address_in_use_is_cleared_once() {
    let map = MmapAction::MapPages {
        start: 0x2000_0000,
        size: 8192,
        flags: MappingFlags { bits: 11 },
    };
    let mut call = fixed_in_range(0x2000_0000);
    assert_eq!(call.action(), map);
    call.step(MmapEvent::Mapped(MapOutcome::InUse));
    assert_eq!(call.action(), MmapAction::Unmap { start: 0x2000_0000, size: 8192 });
    call.step(MmapEvent::Unmapped);
    assert_eq!(call.action(), map);
    call.step(MmapEvent::Mapped(MapOutcome::Mapped));
    assert_eq!(call.action(), MmapAction::Write { start: 0x2000_0000 });
    call.step(MmapEvent::Completed(true));
    call.step(MmapEvent::Completed(true));
    assert_eq!(call.action(), MmapAction::Return { value: 0x2000_0000 });
}

#[test]
fn a_fixed_address_that_is_refused_again_fails_the_call() {
    for outcome in [MapOutcome::InUse, MapOutcome::Refused] {
        let mut call = fixed_in_range(0x2000_0000);
        call.step(MmapEvent::Mapped(MapOutcome::InUse));
        call.step(MmapEvent::Unmapped);
        call.step(MmapEvent::Mapped(outcome));
        assert_eq!(call.action(), MmapAction::Return { value: -12 });
    }
}

#[test]
fn a_fixed_address_refused_for_want_of_memory_is_not_cleared() {
    let mut call = fixed_in_range(0x2000_0000);
    call.step(MmapEvent::Mapped(MapOutcome::Refused));
    assert_eq!(call.action(), MmapAction::Return { value: -12 });
}

#[test]
fn a_fixed_address_that_is_free_is_not_cleared() {
    let mut call = fixed_in_range(0x2000_0000);
    call.step(MmapEvent::Mapped(MapOutcome::Mapped));
    assert_eq!(call.action(), MmapAction::Write { start: 0x2000_0000 });
}

#[test]
fn a_blank_mapping_does_not_care_for_file_and_offset() {
    for (fd, offset) in [(-1, 0), (3, 8192), (i32::MIN, 0x7fff_f000)] {
        let mut call = begin(MmapRequest { fd, offset, ..blank(100) });
        assert_eq!(call.action(), MmapAction::Locate);
        assert_eq!(*call.data(), vec![0u8; 100]);
        call.step(MmapEvent::Space { end: Some(SPACE_END) });
        call.step(MmapEvent::Found(Some(0x2000_0000)));
        call.step(MmapEvent::Mapped(MapOutcome::Mapped));
        call.step(MmapEvent::Completed(true));
        call.step(MmapEvent::Completed(true));
        assert_eq!(call.action(), MmapAction::Return { value: 0x2000_0000 });
    }
    assert_eq!(refusal(MmapRequest { offset: 1, ..blank(100) }), -22);
}
