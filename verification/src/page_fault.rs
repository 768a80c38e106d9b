//! Page faults: those of a user go to the address space, those of the kernel are not handled.

use crate::mman::MappingFlags;
use vstd::prelude::*;

verus! {

/// A page fault for the address space of the current task to resolve.
#[derive(Clone, Copy, Debug, PartialEq, Eq, Structural)]
pub struct PageFault {
    pub vaddr: usize,
    pub access_flags: MappingFlags,
}

/// What the address space is to resolve of a fault, if anything.
pub open spec fn to_resolve(
    vaddr: usize,
    access_flags: MappingFlags,
    is_user: bool,
) -> Option<PageFault> {
    if is_user {
        Some(PageFault { vaddr, access_flags })
    } else {
        None
    }
}

/// Whether a fault counts as handled, where `resolved` is what the address space answered.
pub open spec fn handled(fault: Option<PageFault>, resolved: bool) -> bool {
    fault is Some && resolved
}

/// Every fault of a user, at any address and for any access, reaches the address space as it
/// came, and what that answers is the outcome.
pub proof fn law_user_faults_are_passed_on(
    vaddr: usize,
    access_flags: MappingFlags,
    resolved: bool,
)
    ensures
        ({
            let fault = to_resolve(vaddr, access_flags, true);
            &&& fault is Some
            &&& fault->0.vaddr == vaddr
            &&& fault->0.access_flags.bits == access_flags.bits
            &&& handled(fault, resolved) == resolved
        }),
{
}

/// No fault of the kernel reaches the address space, and none is handled.
pub proof fn law_kernel_faults_are_not_handled(
    vaddr: usize,
    access_flags: MappingFlags,
    resolved: bool,
)
    ensures
        to_resolve(vaddr, access_flags, false) is None,
        !handled(to_resolve(vaddr, access_flags, false), resolved),
{
}

/// What the address space is to resolve, if anything.
pub fn handle_page_fault(vaddr: usize, access_flags: MappingFlags, is_user: bool) -> (r: Option<
    PageFault,
>)
    ensures
        r == if is_user {
            Some(PageFault { vaddr, access_flags })
        } else {
            None
        },
        r == to_resolve(vaddr, access_flags, is_user),
{
    if !is_user {
        return None;
    }
    Some(PageFault { vaddr, access_flags })
}

/// Whether a fault has been handled, where `resolved` is what the address space answered if it
/// was asked.
pub fn fault_handled(fault: Option<PageFault>, resolved: bool) -> (r: bool)
    ensures
        r == (fault is Some && resolved),
        r == handled(fault, resolved),
{
    match fault {
        Some(_) => resolved,
        None => false,
    }
}

} // verus!
