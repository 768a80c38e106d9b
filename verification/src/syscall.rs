//! System calls: from the number and the argument words to the call that is meant.

use crate::errno::{neg_errno, LinuxError};
use crate::mmap::MmapRequest;
use crate::words::{as_i32, as_isize, as_u32, law_low_i32_is_congruent, law_low_u32_is_congruent,
    law_signed_word_is_congruent, low_i32, low_u32, signed_word, u64_as_isize};
use vstd::prelude::*;

verus! {

pub const SYS_IOCTL: usize = 29;

pub const SYS_OPENAT: usize = 56;

pub const SYS_CLOSE: usize = 57;

pub const SYS_READ: usize = 63;

pub const SYS_WRITE: usize = 64;

pub const SYS_WRITEV: usize = 66;

pub const SYS_EXIT: usize = 93;

pub const SYS_EXIT_GROUP: usize = 94;

pub const SYS_SET_TID_ADDRESS: usize = 96;

pub const SYS_MMAP: usize = 222;

/// The directory that stands for the current one.
pub const AT_FDCWD: i32 = -100;

/// The argument words of a system call. Pointers are addresses in the user's memory.
#[derive(Clone, Copy, Debug, PartialEq, Eq, Structural)]
pub struct SyscallArgs {
    pub arg0: usize,
    pub arg1: usize,
    pub arg2: usize,
    pub arg3: usize,
    pub arg4: usize,
    pub arg5: usize,
}

/// A system call with its arguments.
#[derive(Clone, Copy, Debug, PartialEq, Eq, Structural)]
pub enum Syscall {
    Ioctl { fd: i32, op: usize, argp: usize },
    SetTidAddress { tid_ptr: usize },
    Openat { dfd: i32, fname: usize, flags: i32, mode: u32 },
    Close { fd: i32 },
    Read { fd: i32, buf: usize, count: usize },
    Write { fd: i32, buf: usize, count: usize },
    Writev { fd: i32, iov: usize, iocnt: i32 },
    ExitGroup { code: i32 },
    Exit { code: i32 },
    Mmap { req: MmapRequest },
    Unimplemented { num: usize },
}

/// Which call a number and argument words mean.
pub open spec fn meaning(num: usize, args: SyscallArgs) -> Syscall {
    let int0 = low_i32(args.arg0 as int) as i32;
    let int2 = low_i32(args.arg2 as int) as i32;
    if num == SYS_IOCTL {
        Syscall::Ioctl { fd: int0, op: args.arg1, argp: args.arg2 }
    } else if num == SYS_SET_TID_ADDRESS {
        Syscall::SetTidAddress { tid_ptr: args.arg0 }
    } else if num == SYS_OPENAT {
        Syscall::Openat {
            dfd: int0,
            fname: args.arg1,
            flags: int2,
            mode: low_u32(args.arg3 as int) as u32,
        }
    } else if num == SYS_CLOSE {
        Syscall::Close { fd: int0 }
    } else if num == SYS_READ {
        Syscall::Read { fd: int0, buf: args.arg1, count: args.arg2 }
    } else if num == SYS_WRITE {
        Syscall::Write { fd: int0, buf: args.arg1, count: args.arg2 }
    } else if num == SYS_WRITEV {
        Syscall::Writev { fd: int0, iov: args.arg1, iocnt: int2 }
    } else if num == SYS_EXIT_GROUP {
        Syscall::ExitGroup { code: int0 }
    } else if num == SYS_EXIT {
        Syscall::Exit { code: int0 }
    } else if num == SYS_MMAP {
        Syscall::Mmap {
            req: MmapRequest {
                addr: args.arg0,
                length: args.arg1,
                prot: int2,
                flags: low_i32(args.arg3 as int) as i32,
                fd: low_i32(args.arg4 as int) as i32,
                offset: signed_word(args.arg5 as int) as isize,
            },
        }
    } else {
        Syscall::Unimplemented { num }
    }
}

/// Finds out which call a number and argument words mean.
pub fn handle_syscall(syscall_num: usize, args: SyscallArgs) -> (r: Syscall)
    ensures
        r == meaning(syscall_num, args),
{
    match syscall_num {
        SYS_IOCTL => Syscall::Ioctl { fd: as_i32(args.arg0), op: args.arg1, argp: args.arg2 },
        SYS_SET_TID_ADDRESS => Syscall::SetTidAddress { tid_ptr: args.arg0 },
        SYS_OPENAT => Syscall::Openat {
            dfd: as_i32(args.arg0),
            fname: args.arg1,
            flags: as_i32(args.arg2),
            mode: as_u32(args.arg3),
        },
        SYS_CLOSE => Syscall::Close { fd: as_i32(args.arg0) },
        SYS_READ => Syscall::Read { fd: as_i32(args.arg0), buf: args.arg1, count: args.arg2 },
        SYS_WRITE => Syscall::Write { fd: as_i32(args.arg0), buf: args.arg1, count: args.arg2 },
        SYS_WRITEV => Syscall::Writev {
            fd: as_i32(args.arg0),
            iov: args.arg1,
            iocnt: as_i32(args.arg2),
        },
        SYS_EXIT_GROUP => Syscall::ExitGroup { code: as_i32(args.arg0) },
        SYS_EXIT => Syscall::Exit { code: as_i32(args.arg0) },
        SYS_MMAP => Syscall::Mmap {
            req: MmapRequest {
                addr: args.arg0,
                length: args.arg1,
                prot: as_i32(args.arg2),
                flags: as_i32(args.arg3),
                fd: as_i32(args.arg4),
                offset: as_isize(args.arg5),
            },
        },
        _ => Syscall::Unimplemented { num: syscall_num },
    }
}

impl Syscall {
    /// What a call returns that takes no work: controlling a device is ignored and works, and
    /// a call that there is not fails as such.
    pub open spec fn prompt_answer(self) -> Option<int> {
        match self {
            Syscall::Ioctl { .. } => Some(0),
            Syscall::Unimplemented { .. } => Some(-LinuxError::ENOSYS.number()),
            _ => None,
        }
    }

    /// What the call returns, if it takes no work.
    pub fn answer(&self) -> (r: Option<isize>)
        ensures
            match self.prompt_answer() {
                Some(value) => r is Some && r->0 == value,
                None => r is None,
            },
    {
        match self {
            Syscall::Ioctl { fd, op, argp } => Some(sys_ioctl(*fd, *op, *argp) as isize),
            Syscall::Unimplemented { .. } => Some(neg_errno(LinuxError::ENOSYS)),
            _ => None,
        }
    }
}

/// Controlling a device is ignored.
pub fn sys_ioctl(_fd: i32, _op: usize, _argp: usize) -> (r: i32)
    ensures
        r == 0,
{
    0
}

/// A file to be opened.
#[derive(Clone, Copy, Debug, PartialEq, Eq, Structural)]
pub struct OpenRequest {
    pub fname: usize,
    pub flags: i32,
    pub mode: u32,
}

/// What is to be opened for the given arguments.
pub open spec fn opened(fname: usize, flags: i32, mode: u32) -> OpenRequest {
    OpenRequest { fname, flags, mode }
}

/// A file is opened by the name, with the flags and with the mode that were given.
pub proof fn law_open_keeps_arguments(fname: usize, flags: i32, mode: u32)
    ensures
        opened(fname, flags, mode).fname == fname,
        opened(fname, flags, mode).flags == flags,
        opened(fname, flags, mode).mode == mode,
{
}

/// What the user gets for the number of a task.
pub open spec fn tid_value(task_id: u64) -> int {
    signed_word(task_id as int)
}

/// The user gets the number of the task, as the signed word that is congruent to it.
pub proof fn law_tid_is_the_task(task_id: u64)
    ensures
        isize::MIN <= tid_value(task_id) <= isize::MAX,
        (task_id - tid_value(task_id)) % (usize::MAX + 1) == 0,
        task_id <= isize::MAX ==> tid_value(task_id) == task_id,
{
    law_signed_word_is_congruent(task_id as int);
}

/// The file that is to be opened. Names are looked up from the current directory only.
pub fn sys_openat(dfd: i32, fname: usize, flags: i32, mode: u32) -> (r: OpenRequest)
    requires
        dfd == AT_FDCWD,
    ensures
        r == (OpenRequest { fname, flags, mode }),
        r == opened(fname, flags, mode),
{
    OpenRequest { fname, flags, mode }
}

/// What setting the thread address returns: the number of the current task, as a word.
pub fn sys_set_tid_address(task_id: u64) -> (r: isize)
    ensures
        r == signed_word(task_id as int),
        r == tid_value(task_id),
{
    u64_as_isize(task_id)
}

/// A call with a number that is in no table is answered with the negated `ENOSYS`, whatever
/// its arguments.
pub proof fn law_unknown_calls_are_refused(num: usize, args: SyscallArgs)
    requires
        num != 29,
        num != 56,
        num != 57,
        num != 63,
        num != 64,
        num != 66,
        num != 93,
        num != 94,
        num != 96,
        num != 222,
    ensures
        meaning(num, args) is Unimplemented,
        meaning(num, args)->num == num,
        meaning(num, args).prompt_answer() == Some(-38int),
{
}

/// Calls are answered at once only if they control a device, which works, or are not there;
/// every other call is carried out.
pub proof fn law_known_calls_are_carried_out(call: Syscall)
    ensures
        call is Ioctl ==> call.prompt_answer() == Some(0int),
        call is Unimplemented ==> call.prompt_answer() == Some(-38int),
        call.prompt_answer() is Some <==> call is Ioctl || call is Unimplemented,
{
}

/// Whether the integer `value` is what a caller has put into the low half of `word`: the one
/// that is congruent to it.
pub open spec fn carries(word: usize, value: int) -> bool {
    (word - value) % 0x1_0000_0000 == 0
}

/// The number decides which call is meant, and every argument of it reaches the call: words and
/// addresses as they are, integers as the one of their type that is congruent to the word.
pub proof fn law_arguments_reach_the_call(num: usize, args: SyscallArgs)
    ensures
        num == 29 ==> (meaning(num, args) matches Syscall::Ioctl { fd, op, argp } && carries(
            args.arg0,
            fd as int,
        ) && op == args.arg1 && argp == args.arg2),
        num == 56 ==> (meaning(num, args) matches Syscall::Openat { dfd, fname, flags, mode }
            && carries(args.arg0, dfd as int) && fname == args.arg1 && carries(
            args.arg2,
            flags as int,
        ) && carries(args.arg3, mode as int)),
        num == 57 ==> (meaning(num, args) matches Syscall::Close { fd } && carries(
            args.arg0,
            fd as int,
        )),
        num == 63 ==> (meaning(num, args) matches Syscall::Read { fd, buf, count } && carries(
            args.arg0,
            fd as int,
        ) && buf == args.arg1 && count == args.arg2),
        num == 64 ==> (meaning(num, args) matches Syscall::Write { fd, buf, count } && carries(
            args.arg0,
            fd as int,
        ) && buf == args.arg1 && count == args.arg2),
        num == 66 ==> (meaning(num, args) matches Syscall::Writev { fd, iov, iocnt } && carries(
            args.arg0,
            fd as int,
        ) && iov == args.arg1 && carries(args.arg2, iocnt as int)),
        num == 93 ==> (meaning(num, args) matches Syscall::Exit { code } && carries(
            args.arg0,
            code as int,
        )),
        num == 94 ==> (meaning(num, args) matches Syscall::ExitGroup { code } && carries(
            args.arg0,
            code as int,
        )),
        num == 96 ==> (meaning(num, args) matches Syscall::SetTidAddress { tid_ptr } && tid_ptr
            == args.arg0),
        num == 222 ==> (meaning(num, args) matches Syscall::Mmap { req } && req.addr == args.arg0
            && req.length == args.arg1 && carries(args.arg2, req.prot as int) && carries(
            args.arg3,
            req.flags as int,
        ) && carries(args.arg4, req.fd as int) && (args.arg5 - req.offset) % (usize::MAX + 1)
            == 0),
{
    law_low_i32_is_congruent(args.arg0 as int);
    law_low_i32_is_congruent(args.arg2 as int);
    law_low_i32_is_congruent(args.arg3 as int);
    law_low_i32_is_congruent(args.arg4 as int);
    law_low_u32_is_congruent(args.arg3 as int);
    law_signed_word_is_congruent(args.arg5 as int);
}

/// An integer that fits is carried by its own word and by no other integer that fits.
pub proof fn law_words_carry_one_integer(word: usize, a: i32, b: i32)
    requires
        carries(word, a as int),
    ensures
        carries(word, b as int) ==> a == b,
        word < 0x8000_0000 ==> a == word,
{
}

} // verus!
