use early_kernel::errno::{neg_code, neg_errno, syscall_body, LinuxError};
use early_kernel::mman::MappingFlags;
use early_kernel::mmap::MmapRequest;
use early_kernel::page_fault::{fault_handled, handle_page_fault, PageFault};
use early_kernel::syscall::{
    handle_syscall, sys_ioctl, sys_openat, sys_set_tid_address, OpenRequest, Syscall, SyscallArgs,
    AT_FDCWD,
};
use early_kernel::words::{as_i32, as_isize, as_u32, u64_as_isize};

fn args() -> SyscallArgs {
    SyscallArgs { arg0: 1, arg1: 2, arg2: 3, arg3: 4, arg4: 5, arg5: 6 }
}

#[test]
fn words_turn_into_numbers() {
    assert_eq!(as_i32(7), 7);
    assert_eq!(as_i32(0xffff_ffff), -1);
    assert_eq!(as_i32(usize::MAX), -1);
    assert_eq!(as_i32(0x8000_0000), i32::MIN);
    assert_eq!(as_i32(0x1_0000_0002), 2);
    assert_eq!(as_u32(0x1_8000_0002), 0x8000_0002);
    assert_eq!(as_isize(usize::MAX), -1);
    assert_eq!(as_isize(5), 5);
    assert_eq!(u64_as_isize(u64::MAX), -1);
    assert_eq!(u64_as_isize(9), 9);
}

#[test]
fn numbers_name_their_calls() {
    let a = args();
    assert_eq!(handle_syscall(29, a), Syscall::Ioctl { fd: 1, op: 2, argp: 3 });
    assert_eq!(
        handle_syscall(56, SyscallArgs { arg0: usize::MAX - 99, ..a }),
        Syscall::Openat { dfd: AT_FDCWD, fname: 2, flags: 3, mode: 4 }
    );
    assert_eq!(handle_syscall(57, a), Syscall::Close { fd: 1 });
    assert_eq!(handle_syscall(63, a), Syscall::Read { fd: 1, buf: 2, count: 3 });
    assert_eq!(handle_syscall(64, a), Syscall::Write { fd: 1, buf: 2, count: 3 });
    assert_eq!(handle_syscall(66, a), Syscall::Writev { fd: 1, iov: 2, iocnt: 3 });
    assert_eq!(handle_syscall(93, a), Syscall::Exit { code: 1 });
    assert_eq!(handle_syscall(94, a), Syscall::ExitGroup { code: 1 });
    assert_eq!(handle_syscall(96, a), Syscall::SetTidAddress { tid_ptr: 1 });
    assert_eq!(
        handle_syscall(222, SyscallArgs { arg4: usize::MAX, arg5: usize::MAX - 4095, ..a }),
        Syscall::Mmap {
            req: MmapRequest { addr: 1, length: 2, prot: 3, flags: 4, fd: -1, offset: -4096 },
        }
    );
    assert_eq!(handle_syscall(1000, a), Syscall::Unimplemented { num: 1000 });
}

#[test]
fn some_calls_are_answered_at_once() {
    assert_eq!(handle_syscall(29, args()).answer(), Some(0));
    assert_eq!(handle_syscall(0, args()).answer(), Some(-38));
    assert_eq!(handle_syscall(usize::MAX, args()).answer(), Some(-38));
    assert_eq!(handle_syscall(63, args()).answer(), None);
    assert_eq!(sys_ioctl(1, 2, 3), 0);
}

#[test]
fn results_become_values() {
    assert_eq!(neg_errno(LinuxError::EINVAL), -22);
    assert_eq!(neg_code(133), -133);
    assert_eq!(syscall_body(Ok(17)), 17);
    assert_eq!(syscall_body(Err(LinuxError::ENOMEM)), -12);
    assert_eq!(sys_set_tid_address(4), 4);
}

#[test]
fn files_are_opened_from_the_current_directory() {
    assert_eq!(
        sys_openat(AT_FDCWD, 0x1000, 2, 0o644),
        OpenRequest { fname: 0x1000, flags: 2, mode: 0o644 }
    );
}

#[test]
fn faults_of_the_user_go_to_the_address_space() {
    let flags = MappingFlags { bits: 0x2a };
    let fault = handle_page_fault(0x4000, flags, true);
    assert_eq!(fault, Some(PageFault { vaddr: 0x4000, access_flags: flags }));
    assert!(fault_handled(fault, true));
    assert!(!fault_handled(fault, false));
}

#[test]
fn faults_of_the_kernel_are_not_handled() {
    let fault = handle_page_fault(0x4000, MappingFlags { bits: 1 }, false);
    assert_eq!(fault, None);
    assert!(!fault_handled(fault, true));
}
