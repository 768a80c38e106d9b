//! Mapping memory into the address space of a user, from a file or blank.
//!
//! A mapping takes work that only the rest of the kernel can do: reading the file, looking up
//! the address space, changing its page table. So it is a machine. [`sys_mmap`] checks a
//! request and sets the machine up; [`Mmap::action`] says what to do next; [`Mmap::step`] takes
//! what came of it. When the action is to return, the value is what the user gets.

use crate::align::{align_down, lemma_multiples, multiple_above};
use crate::errno::{neg_code, neg_errno, user_value, LinuxError};
use crate::file_fill::{FileFill, Fill, FillPhase};
use crate::mman::{filling_flags, flag_set, user_flags, MappingFlags, MmapFlags, MmapProt, MAP_ANONYMOUS,
    MAP_FIXED, PROT_EXEC, PROT_READ, PROT_WRITE};
use crate::words::{as_isize, signed_word};
use vstd::arithmetic::power2::is_pow2;
use vstd::prelude::*;

verus! {

/// The size of a page in bytes.
pub const PAGE_SIZE: usize = 0x1000;

/// The lowest address that is chosen for a mapping whose address is left open.
pub const MMAP_BASE: usize = 0x1000_0000;

/// `memory_addr::is_aligned_4k` checks whether the address is a multiple of 4096.
pub assume_specification[ memory_addr::is_aligned_4k ](addr: usize) -> (r: bool)
    ensures
        r == (addr % 4096 == 0),
;

/// `memory_addr::align_up_4k` gives the least multiple of 4096 that is not below the address.
/// On its way it adds 4096, so close to the end of the address range it overflows.
pub assume_specification[ memory_addr::align_up_4k ](addr: usize) -> (r: usize)
    requires
        addr + 4096 <= usize::MAX,
    ensures
        r == multiple_above(addr as int, 4096),
;

/// What a user asks for.
#[derive(Clone, Copy, Debug, PartialEq, Eq, Structural)]
pub struct MmapRequest {
    pub addr: usize,
    pub length: usize,
    pub prot: i32,
    pub flags: i32,
    pub fd: i32,
    pub offset: isize,
}

/// A request that can be tried.
#[derive(Clone, Copy, Debug, PartialEq, Eq, Structural)]
pub struct MmapPlan {
    /// The wanted address, zero if it is left open.
    pub addr: usize,
    /// The wanted length in bytes.
    pub length: usize,
    /// The length in whole pages.
    pub map_size: usize,
    /// Whether the mapping must be at `addr`.
    pub fixed: bool,
    /// Whether the mapping is blank.
    pub anonymous: bool,
    /// The file that the mapping is filled from, if it is not blank.
    pub fd: i32,
    /// Where in the file the mapping begins.
    pub offset: usize,
    /// The permissions that the mapping ends up with.
    pub final_flags: MappingFlags,
    /// The permissions that it has while the kernel fills it.
    pub temp_flags: MappingFlags,
}

/// Where a mapping has come to.
#[derive(Clone, Copy, Debug, PartialEq, Eq, Structural)]
pub enum MmapPhase {
    /// The file is being read.
    Read,
    /// The address space is wanted.
    Locate,
    /// The fixed address must lie in the address space.
    Check,
    /// A free address is wanted, from `hint` on, below `limit_end`.
    Search { hint: usize, limit_end: usize },
    /// Pages are wanted at `start`; `cleared` tells whether what was there has been removed.
    MapPages { start: usize, cleared: bool },
    /// What is at the fixed address `start` must go, to make room for the pages.
    Clear { start: usize },
    /// The data must go to `start`.
    Write { start: usize },
    /// The permissions must be set.
    Protect { start: usize },
    /// The pages must go again, after which the call fails.
    Unmap { start: usize, error: LinuxError },
    /// The call is over.
    Done { value: isize },
}

/// What to do next.
#[derive(Clone, Copy, Debug, PartialEq, Eq, Structural)]
pub enum MmapAction {
    /// Read the next bytes of the open file `fd`, at most `len` of them.
    Read { fd: i32, len: usize },
    /// Look up the address space of the user.
    Locate,
    /// Find out whether `start .. start + size` lies in the address space.
    CheckRange { start: usize, size: usize },
    /// Find `size` free bytes from `hint` on, in `limit_start .. limit_end`.
    FindFree { hint: usize, size: usize, limit_start: usize, limit_end: usize },
    /// Map fresh pages at `start .. start + size`, with memory behind each of them.
    MapPages { start: usize, size: usize, flags: MappingFlags },
    /// Write the data to `start`.
    Write { start: usize },
    /// Set the permissions of `start .. start + size`.
    Protect { start: usize, size: usize, flags: MappingFlags },
    /// Unmap `start .. start + size`. It does not matter whether this fails.
    Unmap { start: usize, size: usize },
    /// Return to the user.
    Return { value: isize },
}

/// What came of mapping pages.
#[derive(Clone, Copy, Debug, PartialEq, Eq, Structural)]
pub enum MapOutcome {
    /// There were no pages in the range, and now there are fresh ones.
    Mapped,
    /// Nothing was mapped, because pages lie in the range already.
    InUse,
    /// Nothing was mapped, for any other reason.
    Refused,
}

/// What came of an action.
pub enum MmapEvent {
    /// The bytes that were read; none at the end of the file.
    Bytes(Vec<u8>),
    /// The file could not be read, for the reason with the given error number.
    ReadError { code: i32 },
    /// The end of the address space, if there is one.
    Space { end: Option<usize> },
    /// Whether the range lies in the address space.
    InRange(bool),
    /// The free address, if there is one.
    Found(Option<usize>),
    /// What came of mapping pages.
    Mapped(MapOutcome),
    /// Whether writing or setting permissions worked.
    Completed(bool),
    /// The pages are gone.
    Unmapped,
}

/// Whether the arguments are such that a mapping of `length` bytes is prepared.
pub open spec fn args_answer(req: MmapRequest) -> Result<(), LinuxError> {
    if req.length == 0 {
        Err(LinuxError::EINVAL)
    } else if req.offset < 0 || req.offset as int % PAGE_SIZE as int != 0 {
        Err(LinuxError::EINVAL)
    } else if req.length + PAGE_SIZE - 1 > usize::MAX {
        Err(LinuxError::ENOMEM)
    } else if !(0 <= req.prot < 8) {
        Err(LinuxError::EINVAL)
    } else {
        Ok(())
    }
}

/// What is to be done for a request whose arguments are good.
pub open spec fn plan_of(req: MmapRequest) -> MmapPlan {
    let execute = flag_set(req.prot, PROT_EXEC);
    MmapPlan {
        addr: req.addr,
        length: req.length,
        map_size: multiple_above(req.length as int, PAGE_SIZE as int) as usize,
        fixed: flag_set(req.flags, MAP_FIXED),
        anonymous: flag_set(req.flags, MAP_ANONYMOUS),
        fd: req.fd,
        offset: req.offset as usize,
        final_flags: user_flags(flag_set(req.prot, PROT_READ), flag_set(req.prot, PROT_WRITE), execute),
        temp_flags: user_flags(true, true, execute),
    }
}

/// What a request is answered before anything is done for it.
pub open spec fn plan_answer(req: MmapRequest) -> Result<MmapPlan, LinuxError> {
    match args_answer(req) {
        Err(e) => Err(e),
        Ok(_) => if !flag_set(req.flags, MAP_ANONYMOUS) && req.fd < 0 {
            Err(LinuxError::EBADF)
        } else {
            Ok(plan_of(req))
        },
    }
}

/// From where on a free address is looked for.
pub open spec fn hint_for(addr: int) -> int {
    let aligned = multiple_above(addr, PAGE_SIZE as int);
    if addr == 0 || aligned < MMAP_BASE {
        MMAP_BASE as int
    } else {
        aligned
    }
}

/// The state of a mapping.
pub struct MmapModel {
    pub plan: MmapPlan,
    pub fill: Fill,
    pub phase: MmapPhase,
}

/// The phase of a call that fails.
pub open spec fn failed(e: LinuxError) -> MmapPhase {
    MmapPhase::Done { value: (-e.number()) as isize }
}

impl MmapModel {
    /// A mapping for which nothing has been done yet.
    pub open spec fn begin(plan: MmapPlan) -> MmapModel {
        if plan.anonymous {
            MmapModel {
                plan,
                fill: Fill::blank(plan.length as int),
                phase: MmapPhase::Locate,
            }
        } else {
            MmapModel {
                plan,
                fill: Fill::begin(plan.length as int, plan.offset as int),
                phase: MmapPhase::Read,
            }
        }
    }

    /// The buffer has the length asked for, and it is complete before anything is mapped.
    pub open spec fn inv(self) -> bool {
        &&& self.fill.inv()
        &&& self.fill.data.len() == self.plan.length
        &&& self.plan.length > 0
        &&& self.phase is Read ==> self.fill.phase !is Done
        &&& self.phase !is Read && self.phase !is Done ==> self.fill.phase is Done
    }

    /// What to do next.
    pub open spec fn action(self) -> MmapAction {
        let size = self.plan.map_size;
        match self.phase {
            MmapPhase::Read => MmapAction::Read {
                fd: self.plan.fd,
                len: self.fill.wanted() as usize,
            },
            MmapPhase::Locate => MmapAction::Locate,
            MmapPhase::Check => MmapAction::CheckRange { start: self.plan.addr, size },
            MmapPhase::Search { hint, limit_end } => MmapAction::FindFree {
                hint,
                size,
                limit_start: MMAP_BASE,
                limit_end,
            },
            MmapPhase::MapPages { start, cleared } => MmapAction::MapPages {
                start,
                size,
                flags: self.plan.temp_flags,
            },
            MmapPhase::Clear { start } => MmapAction::Unmap { start, size },
            MmapPhase::Write { start } => MmapAction::Write { start },
            MmapPhase::Protect { start } => MmapAction::Protect {
                start,
                size,
                flags: self.plan.final_flags,
            },
            MmapPhase::Unmap { start, error } => MmapAction::Unmap { start, size },
            MmapPhase::Done { value } => MmapAction::Return { value },
        }
    }

    /// Whether the event can come of the action: it is of the right kind, no more was read
    /// than was asked for, and an error number is positive. Where an address is to be chosen,
    /// rounding the wanted one up to a page must not overflow, and the address space must
    /// reach up to where addresses are chosen from.
    pub open spec fn expects(self, event: MmapEvent) -> bool {
        match (self.phase, event) {
            (MmapPhase::Read, MmapEvent::Bytes(bytes)) => bytes@.len() <= self.fill.wanted(),
            (MmapPhase::Read, MmapEvent::ReadError { code }) => code > 0,
            (MmapPhase::Locate, MmapEvent::Space { end }) => end is Some && !self.plan.fixed ==> {
                &&& self.plan.addr != 0 ==> self.plan.addr + PAGE_SIZE <= usize::MAX
                &&& MMAP_BASE <= end->0
            },
            (MmapPhase::Check, MmapEvent::InRange(_)) => true,
            (MmapPhase::Search { .. }, MmapEvent::Found(_)) => true,
            (MmapPhase::MapPages { .. }, MmapEvent::Mapped(_)) => true,
            (MmapPhase::Clear { .. }, MmapEvent::Unmapped) => true,
            (MmapPhase::Write { .. }, MmapEvent::Completed(_)) => true,
            (MmapPhase::Protect { .. }, MmapEvent::Completed(_)) => true,
            (MmapPhase::Unmap { .. }, MmapEvent::Unmapped) => true,
            _ => false,
        }
    }

    /// The phase once the address space is known.
    pub open spec fn located(self, end: usize) -> MmapPhase {
        let addr = self.plan.addr;
        if !self.plan.fixed {
            MmapPhase::Search { hint: hint_for(addr as int) as usize, limit_end: end }
        } else if addr == 0 || addr as int % PAGE_SIZE as int != 0 {
            failed(LinuxError::EINVAL)
        } else {
            MmapPhase::Check
        }
    }

    /// The phase after the event, where the event is not a piece of the file.
    pub open spec fn phase_after(self, event: MmapEvent) -> MmapPhase {
        match (self.phase, event) {
            (MmapPhase::Read, MmapEvent::ReadError { code }) => MmapPhase::Done {
                value: (-code) as isize,
            },
            (MmapPhase::Locate, MmapEvent::Space { end: Some(end) }) => self.located(end),
            (MmapPhase::Locate, MmapEvent::Space { end: None }) => failed(LinuxError::EINVAL),
            (MmapPhase::Check, MmapEvent::InRange(true)) => MmapPhase::MapPages {
                start: self.plan.addr,
                cleared: false,
            },
            (MmapPhase::Check, MmapEvent::InRange(false)) => failed(LinuxError::ENOMEM),
            (MmapPhase::Search { .. }, MmapEvent::Found(Some(start))) => MmapPhase::MapPages {
                start,
                cleared: false,
            },
            (MmapPhase::Search { .. }, MmapEvent::Found(None)) => failed(LinuxError::ENOMEM),
            (MmapPhase::MapPages { start, cleared }, MmapEvent::Mapped(outcome)) => match outcome {
                MapOutcome::Mapped => MmapPhase::Write { start },
                // A fixed address holds whether it is free or not: what is there goes, once.
                MapOutcome::InUse if self.plan.fixed && !cleared => MmapPhase::Clear { start },
                _ => failed(LinuxError::ENOMEM),
            },
            (MmapPhase::Clear { start }, MmapEvent::Unmapped) => MmapPhase::MapPages {
                start,
                cleared: true,
            },
            (MmapPhase::Write { start }, MmapEvent::Completed(true)) => MmapPhase::Protect {
                start,
            },
            (MmapPhase::Write { start }, MmapEvent::Completed(false)) => MmapPhase::Unmap {
                start,
                error: LinuxError::EFAULT,
            },
            (MmapPhase::Protect { start }, MmapEvent::Completed(true)) => MmapPhase::Done {
                value: signed_word(start as int) as isize,
            },
            (MmapPhase::Protect { start }, MmapEvent::Completed(false)) => MmapPhase::Unmap {
                start,
                error: LinuxError::EINVAL,
            },
            (MmapPhase::Unmap { start, error }, MmapEvent::Unmapped) => failed(error),
            _ => self.phase,
        }
    }

    /// The state after the event.
    pub open spec fn step(self, event: MmapEvent) -> MmapModel {
        match (self.phase, event) {
            (MmapPhase::Read, MmapEvent::Bytes(bytes)) => {
                let fill = self.fill.feed(bytes@);
                MmapModel {
                    fill,
                    phase: if fill.phase is Done {
                        MmapPhase::Locate
                    } else {
                        MmapPhase::Read
                    },
                    ..self
                }
            },
            _ => MmapModel { phase: self.phase_after(event), ..self },
        }
    }
}

/// The length in whole pages, if that fits in a word.
pub fn align_up_4k(length: usize) -> (r: Option<usize>)
    ensures
        r == if length + PAGE_SIZE - 1 > usize::MAX {
            None::<usize>
        } else {
            Some(multiple_above(length as int, PAGE_SIZE as int) as usize)
        },
        r is Some <==> length + 0xfff <= usize::MAX,
        r matches Some(size) ==> size % 0x1000 == 0 && length <= size < length + 0x1000,
{
    proof {
        lemma_page_size();
        lemma_multiples(length as int, PAGE_SIZE as int);
    }
    match length.checked_add(PAGE_SIZE - 1) {
        Some(end) => Some(align_down(end, PAGE_SIZE)),
        None => None,
    }
}

proof fn lemma_page_size()
    ensures
        is_pow2(PAGE_SIZE as int),
{
    assert(is_pow2(0x1000)) by {
        reveal_with_fuel(is_pow2, 13);
    }
}

/// Checks a request and lays down what is to be done for it.
pub fn mmap_plan(req: MmapRequest) -> (r: Result<MmapPlan, LinuxError>)
    ensures
        r == plan_answer(req),
{
    if req.length == 0 {
        return Err(LinuxError::EINVAL);
    }
    if req.offset < 0 {
        return Err(LinuxError::EINVAL);
    }
    let offset = req.offset as usize;
    assert(offset & 0xfff == offset % 0x1000) by (bit_vector);
    if offset & (PAGE_SIZE - 1) != 0 {
        return Err(LinuxError::EINVAL);
    }
    let map_size = match align_up_4k(req.length) {
        Some(size) => size,
        None => return Err(LinuxError::ENOMEM),
    };
    let prot = match MmapProt::from_bits(req.prot) {
        Some(prot) => prot,
        None => return Err(LinuxError::EINVAL),
    };
    let flags = MmapFlags::from_bits_truncate(req.flags);
    assert(0x10i32 & 0x24033 == 0x10 && 0x20i32 & 0x24033 == 0x20) by (bit_vector);
    let final_flags = MappingFlags::from(prot);
    let temp_flags = filling_flags(final_flags);
    let anonymous = flags.contains(MAP_ANONYMOUS);
    if !anonymous && req.fd < 0 {
        return Err(LinuxError::EBADF);
    }
    Ok(
        MmapPlan {
            addr: req.addr,
            length: req.length,
            map_size,
            fixed: flags.contains(MAP_FIXED),
            anonymous,
            fd: req.fd,
            offset,
            final_flags,
            temp_flags,
        },
    )
}

/// A mapping on its way.
pub struct Mmap {
    plan: MmapPlan,
    fill: FileFill,
    phase: MmapPhase,
}

impl View for Mmap {
    type V = MmapModel;

    closed spec fn view(&self) -> MmapModel {
        MmapModel { plan: self.plan, fill: self.fill@, phase: self.phase }
    }
}

/// Checks a request and begins the mapping, or gives what the user is to get at once.
pub fn sys_mmap(req: MmapRequest) -> (r: Result<Mmap, isize>)
    requires
        args_answer(req) is Ok ==> req.length <= isize::MAX,
    ensures
        match plan_answer(req) {
            Ok(plan) => r is Ok && r->Ok_0@ == MmapModel::begin(plan) && r->Ok_0@.inv(),
            Err(e) => r is Err && r->Err_0 == -e.number() && r->Err_0 == user_value(Err(e)),
        },
{
    match mmap_plan(req) {
        Err(e) => Err(neg_errno(e)),
        Ok(plan) => if plan.anonymous {
            Ok(Mmap { plan, fill: FileFill::blank(plan.length), phase: MmapPhase::Locate })
        } else {
            Ok(
                Mmap {
                    plan,
                    fill: FileFill::begin(plan.length, plan.offset),
                    phase: MmapPhase::Read,
                },
            )
        },
    }
}

impl Mmap {
    /// The data that the mapping is to hold.
    pub fn data(&self) -> (r: &Vec<u8>)
        ensures
            r@ == self@.fill.data,
    {
        self.fill.data()
    }

    /// What to do next.
    pub fn action(&self) -> (r: MmapAction)
        requires
            self@.inv(),
        ensures
            r == self@.action(),
    {
        let size = self.plan.map_size;
        match self.phase {
            MmapPhase::Read => MmapAction::Read { fd: self.plan.fd, len: self.fill.wanted() },
            MmapPhase::Locate => MmapAction::Locate,
            MmapPhase::Check => MmapAction::CheckRange { start: self.plan.addr, size },
            MmapPhase::Search { hint, limit_end } => MmapAction::FindFree {
                hint,
                size,
                limit_start: MMAP_BASE,
                limit_end,
            },
            MmapPhase::MapPages { start, cleared: _ } => MmapAction::MapPages {
                start,
                size,
                flags: self.plan.temp_flags,
            },
            MmapPhase::Clear { start } => MmapAction::Unmap { start, size },
            MmapPhase::Write { start } => MmapAction::Write { start },
            MmapPhase::Protect { start } => MmapAction::Protect {
                start,
                size,
                flags: self.plan.final_flags,
            },
            MmapPhase::Unmap { start, error: _ } => MmapAction::Unmap { start, size },
            MmapPhase::Done { value } => MmapAction::Return { value },
        }
    }

    /// The phase once the address space is known.
    fn located(&self, end: usize) -> (r: MmapPhase)
        requires
            !self@.plan.fixed && self@.plan.addr != 0 ==> self@.plan.addr + PAGE_SIZE
                <= usize::MAX,
        ensures
            r == self@.located(end),
    {
        let addr = self.plan.addr;
        if self.plan.fixed {
            if addr == 0 || !memory_addr::is_aligned_4k(addr) {
                return MmapPhase::Done { value: neg_errno(LinuxError::EINVAL) };
            }
            MmapPhase::Check
        } else {
            let mut hint = if addr == 0 {
                MMAP_BASE
            } else {
                memory_addr::align_up_4k(addr)
            };
            if hint < MMAP_BASE {
                hint = MMAP_BASE;
            }
            MmapPhase::Search { hint, limit_end: end }
        }
    }

    /// Takes what came of the action.
    pub fn step(&mut self, event: MmapEvent)
        requires
            old(self)@.inv(),
            old(self)@.expects(event),
        ensures
            final(self)@ == old(self)@.step(event),
            final(self)@.inv(),
    {
        match (self.phase, event) {
            (MmapPhase::Read, MmapEvent::Bytes(bytes)) => {
                self.fill.feed(&bytes);
                if self.fill.phase() == FillPhase::Done {
                    self.phase = MmapPhase::Locate;
                }
            },
            (MmapPhase::Read, MmapEvent::ReadError { code }) => {
                self.phase = MmapPhase::Done { value: neg_code(code) };
            },
            (MmapPhase::Locate, MmapEvent::Space { end: Some(end) }) => {
                self.phase = self.located(end);
            },
            (MmapPhase::Locate, MmapEvent::Space { end: None }) => {
                self.fail(LinuxError::EINVAL);
            },
            (MmapPhase::Check, MmapEvent::InRange(inside)) => {
                if inside {
                    self.phase = MmapPhase::MapPages { start: self.plan.addr, cleared: false };
                } else {
                    self.fail(LinuxError::ENOMEM);
                }
            },
            (MmapPhase::Search { .. }, MmapEvent::Found(Some(start))) => {
                self.phase = MmapPhase::MapPages { start, cleared: false };
            },
            (MmapPhase::Search { .. }, MmapEvent::Found(None)) => {
                self.fail(LinuxError::ENOMEM);
            },
            (MmapPhase::MapPages { start, cleared }, MmapEvent::Mapped(outcome)) => {
                if outcome == MapOutcome::Mapped {
                    self.phase = MmapPhase::Write { start };
                } else if outcome == MapOutcome::InUse && self.plan.fixed && !cleared {
                    self.phase = MmapPhase::Clear { start };
                } else {
                    self.fail(LinuxError::ENOMEM);
                }
            },
            (MmapPhase::Clear { start }, MmapEvent::Unmapped) => {
                self.phase = MmapPhase::MapPages { start, cleared: true };
            },
            (MmapPhase::Write { start }, MmapEvent::Completed(ok)) => {
                self.phase = if ok {
                    MmapPhase::Protect { start }
                } else {
                    MmapPhase::Unmap { start, error: LinuxError::EFAULT }
                };
            },
            (MmapPhase::Protect { start }, MmapEvent::Completed(ok)) => {
                self.phase = if ok {
                    MmapPhase::Done { value: as_isize(start) }
                } else {
                    MmapPhase::Unmap { start, error: LinuxError::EINVAL }
                };
            },
            (MmapPhase::Unmap { start: _, error }, MmapEvent::Unmapped) => {
                self.fail(error);
            },
            _ => {},
        }
    }

    /// Ends the call with an error.
    fn fail(&mut self, e: LinuxError)
        ensures
            final(self)@ == (MmapModel { phase: failed(e), ..old(self)@ }),
    {
        self.phase = MmapPhase::Done { value: neg_errno(e) };
    }
}

} // verus!
