//! Error numbers that system calls return.

use vstd::prelude::*;

verus! {

/// The reasons for which the system calls here fail by themselves.
#[derive(Clone, Copy, Debug, PartialEq, Eq, Structural)]
pub enum LinuxError {
    /// Bad file number.
    EBADF,
    /// Out of memory.
    ENOMEM,
    /// Bad address.
    EFAULT,
    /// Invalid argument.
    EINVAL,
    /// Invalid system call number.
    ENOSYS,
}

impl LinuxError {
    /// The number that Linux gives the error.
    pub open spec fn number(self) -> int {
        match self {
            LinuxError::EBADF => 9,
            LinuxError::ENOMEM => 12,
            LinuxError::EFAULT => 14,
            LinuxError::EINVAL => 22,
            LinuxError::ENOSYS => 38,
        }
    }

    /// The number that Linux gives the error.
    pub fn code(self) -> (r: i32)
        ensures
            r == self.number(),
    {
        linux_code(self)
    }
}

/// `axerrno::LinuxError::code`: the number of the error of the same name, which is the one
/// that Linux gives it.
#[verifier::external_body]
fn linux_code(e: LinuxError) -> (r: i32)
    ensures
        r == e.number(),
{
    let e = match e {
        LinuxError::EBADF => axerrno::LinuxError::EBADF,
        LinuxError::ENOMEM => axerrno::LinuxError::ENOMEM,
        LinuxError::EFAULT => axerrno::LinuxError::EFAULT,
        LinuxError::EINVAL => axerrno::LinuxError::EINVAL,
        LinuxError::ENOSYS => axerrno::LinuxError::ENOSYS,
    };
    e.code()
}

/// The errors have the numbers that Linux gives them, no two the same.
pub proof fn law_error_numbers(e: LinuxError, f: LinuxError)
    ensures
        e.number() == 9 <==> e is EBADF,
        e.number() == 12 <==> e is ENOMEM,
        e.number() == 14 <==> e is EFAULT,
        e.number() == 22 <==> e is EINVAL,
        e.number() == 38 <==> e is ENOSYS,
        e.number() == f.number() <==> e == f,
        0 < e.number() < 4096,
{
}

/// What the user gets for the result of a system call.
pub open spec fn user_value(res: Result<isize, LinuxError>) -> int {
    match res {
        Ok(v) => v as int,
        Err(e) => -e.number(),
    }
}

/// A value reaches the user as it is; an error reaches the user as a number that, negated, is
/// the error's.
pub proof fn law_results_reach_the_user(res: Result<isize, LinuxError>)
    ensures
        res matches Ok(v) ==> user_value(res) == v,
        res matches Err(e) ==> user_value(res) + e.number() == 0 && user_value(res) < 0,
{
}

/// What a system call that fails returns to the user: the error's number, negated.
pub fn neg_errno(e: LinuxError) -> (r: isize)
    ensures
        r == -e.number(),
        r == user_value(Err(e)),
{
    neg_code(e.code())
}

/// What a system call that fails with the given error number returns to the user.
pub fn neg_code(code: i32) -> (r: isize)
    requires
        code > 0,
    ensures
        r == -code,
{
    -(code as isize)
}

/// Turns the result of a system call into what the user gets: the value, or the error's
/// number negated.
pub fn syscall_body(res: Result<isize, LinuxError>) -> (r: isize)
    ensures
        match res {
            Ok(v) => r == v,
            Err(e) => r == -e.number(),
        },
        r == user_value(res),
{
    match res {
        Ok(v) => v,
        Err(e) => neg_errno(e),
    }
}

} // verus!
