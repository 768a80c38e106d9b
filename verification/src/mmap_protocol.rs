//! What a mapping owes step by step: which requests are refused and why, what the plan of an
//! accepted one is, and which action follows on which event.

use crate::align::{law_rounding_is_tight, lemma_multiples, multiple_above};
use crate::errno::LinuxError;
use crate::mman::{flag_set, law_flags_grant_what_was_asked, law_set_flags_add_nothing};
use crate::mmap::{plan_answer, MapOutcome, MmapAction, MmapEvent, MmapModel, MmapPhase, MmapPlan,
    MmapRequest};
use crate::words::law_signed_word_is_congruent;
use vstd::prelude::*;

verus! {

/// A request is refused exactly for these causes. It is invalid if it asks for no bytes, if
/// its offset is negative or not that of a page, or if a permission is asked for that is none.
/// There is no memory for it if its length in whole pages does not fit in a word. And without a
/// blank mapping being asked for, a negative file is a bad one. All else is accepted.
pub proof fn law_requests_are_refused_for_cause(req: MmapRequest)
    ensures
        ({
            let aligned = 0 <= req.offset && req.offset as int % 0x1000 == 0;
            let fits = req.length + 0xfff <= usize::MAX;
            let known = (req.prot & 1) | (req.prot & 2) | (req.prot & 4) == req.prot;
            let file = req.flags & 0x20 != 0 || 0 <= req.fd;
            let refused = |e: LinuxError| plan_answer(req) == Err::<MmapPlan, LinuxError>(e);
            &&& refused(LinuxError::EINVAL) <==> req.length == 0 || !aligned || (fits && !known)
            &&& refused(LinuxError::ENOMEM) <==> req.length > 0 && aligned && !fits
            &&& refused(LinuxError::EBADF) <==> req.length > 0 && aligned && fits && known
                && !file
            &&& plan_answer(req) is Ok <==> req.length > 0 && aligned && fits && known && file
        }),
{
    law_set_flags_add_nothing(req.flags, 0);
    let prot = req.prot;
    assert((prot & 1) | (prot & 2) | (prot & 4) == prot <==> 0 <= prot && prot < 8)
        by (bit_vector);
}

/// The plan of an accepted request is the request: the same address, length, file and offset;
/// fixed and blank exactly if the flags say so; as many whole pages as the length takes; and
/// the permissions asked for, to which those to read and write are lent while it is filled.
pub proof fn law_plan_carries_request(req: MmapRequest)
    requires
        plan_answer(req) is Ok,
    ensures
        ({
            let plan = plan_answer(req)->Ok_0;
            &&& plan.addr == req.addr
            &&& plan.length == req.length
            &&& plan.fd == req.fd
            &&& plan.offset == req.offset
            &&& plan.fixed <==> req.flags & 0x10 != 0
            &&& plan.anonymous <==> req.flags & 0x20 != 0
            &&& plan.map_size % 0x1000 == 0
            &&& req.length <= plan.map_size < req.length + 0x1000
            &&& plan.final_flags.bits & 1 != 0 <==> req.prot & 1 != 0
            &&& plan.final_flags.bits & 2 != 0 <==> req.prot & 2 != 0
            &&& plan.final_flags.bits & 4 != 0 <==> req.prot & 4 != 0
            &&& plan.final_flags.bits & 8 != 0
            &&& plan.final_flags.bits < 16
            &&& plan.temp_flags.bits & 1 != 0
            &&& plan.temp_flags.bits & 2 != 0
            &&& plan.temp_flags.bits & 4 != 0 <==> req.prot & 4 != 0
            &&& plan.temp_flags.bits & 8 != 0
            &&& plan.temp_flags.bits < 16
        }),
{
    law_set_flags_add_nothing(req.flags, 0);
    law_set_flags_add_nothing(req.prot, 0);
    lemma_multiples(req.length as int, 0x1000);
    assert(multiple_above(req.length as int, 0x1000) <= usize::MAX);
    law_flags_grant_what_was_asked(
        flag_set(req.prot, 1),
        flag_set(req.prot, 2),
        flag_set(req.prot, 4),
    );
    law_flags_grant_what_was_asked(true, true, flag_set(req.prot, 4));
}

/// A call for a file begins by reading it, through the file that the request names; a call for
/// a blank mapping begins by looking up the address space, and reads nothing.
pub proof fn law_call_begins_with_the_file(req: MmapRequest)
    requires
        plan_answer(req) is Ok,
    ensures
        ({
            let call = MmapModel::begin(plan_answer(req)->Ok_0);
            &&& call.inv()
            &&& call.plan == plan_answer(req)->Ok_0
            &&& req.flags & 0x20 != 0 ==> call.action() == MmapAction::Locate
            &&& req.flags & 0x20 == 0 ==> (call.action() matches MmapAction::Read { fd, len } && {
                &&& fd == req.fd
                &&& req.offset == 0 ==> len == req.length
                &&& 0 < req.offset < 512 ==> len == req.offset
                &&& req.offset >= 512 ==> len == 512
            })
            &&& call.fill.data.len() == req.length
            &&& forall|i: int| 0 <= i < req.length ==> #[trigger] call.fill.data[i] == 0
        }),
{
    law_set_flags_add_nothing(req.flags, 0);
}

/// No event changes the plan, and only a piece of the file changes the data.
pub proof fn law_plan_and_data_stay(call: MmapModel, event: MmapEvent)
    ensures
        call.step(event).plan == call.plan,
        event !is Bytes ==> call.step(event).fill == call.fill,
{
}

/// While the file is read, it is the file of the plan, at least one byte is asked for, and a
/// piece goes to the data. The reading ends when the data wants no more. An error ends the call
/// with the error's number, negated.
pub proof fn law_after_reading(call: MmapModel, bytes: Vec<u8>, code: i32)
    requires
        call.inv(),
        call.action() is Read,
        bytes@.len() <= call.action()->len,
        code > 0,
    ensures
        call.action()->fd == call.plan.fd,
        0 < call.action()->len == call.fill.wanted(),
        call.step(MmapEvent::Bytes(bytes)).fill == call.fill.feed(bytes@),
        call.fill.feed(bytes@).phase is Done <==> call.step(MmapEvent::Bytes(bytes)).action()
            == MmapAction::Locate,
        call.fill.feed(bytes@).phase !is Done <==> call.step(MmapEvent::Bytes(bytes)).action()
            is Read,
        call.step(MmapEvent::ReadError { code }).action() == (MmapAction::Return {
            value: (-code) as isize,
        }),
{
}

/// Without an address space the call is invalid. In one, a fixed address is invalid if it is
/// null or not that of a page, and otherwise it is checked. Where the address is open, room is
/// looked for from the base of mappings up to the end of the address space, beginning at the
/// first page that is neither below the base nor below the address that was asked for.
pub proof fn law_after_locating(call: MmapModel, end: usize, k: int)
    requires
        call.action() is Locate,
        call.expects(MmapEvent::Space { end: Some(end) }),
    ensures
        call.step(MmapEvent::Space { end: None }).action() == (MmapAction::Return {
            value: (-22) as isize,
        }),
        ({
            let next = call.step(MmapEvent::Space { end: Some(end) }).action();
            let addr = call.plan.addr;
            if call.plan.fixed {
                if addr == 0 || addr as int % 0x1000 != 0 {
                    next == (MmapAction::Return { value: (-22) as isize })
                } else {
                    next == (MmapAction::CheckRange { start: addr, size: call.plan.map_size })
                }
            } else {
                next matches MmapAction::FindFree { hint, size, limit_start, limit_end } && {
                    &&& size == call.plan.map_size
                    &&& limit_start == 0x1000_0000
                    &&& limit_end == end
                    &&& hint as int % 0x1000 == 0
                    &&& addr <= hint
                    &&& 0x1000_0000 <= hint
                    &&& k % 0x1000 == 0 && addr <= k && 0x1000_0000 <= k ==> hint <= k
                }
            }
        }),
{
    lemma_multiples(call.plan.addr as int, 0x1000);
    if k % 0x1000 == 0 {
        law_rounding_is_tight(call.plan.addr as int, 0x1000, k);
    }
}

/// Pages are mapped at a fixed address that lies in the address space, or where a search has
/// found room, with the size asked about and the lent permissions; where it does not or has
/// not, there is no memory.
pub proof fn law_after_placing(call: MmapModel, start: usize)
    ensures
        call.action() matches MmapAction::CheckRange { start: fixed, size } ==> {
            &&& call.step(MmapEvent::InRange(true)).action() == (MmapAction::MapPages {
                start: fixed,
                size,
                flags: call.plan.temp_flags,
            })
            &&& call.step(MmapEvent::InRange(false)).action() == (MmapAction::Return {
                value: (-12) as isize,
            })
        },
        call.action() matches MmapAction::FindFree { hint, size, limit_start, limit_end } ==> {
            &&& call.step(MmapEvent::Found(Some(start))).action() == (MmapAction::MapPages {
                start,
                size,
                flags: call.plan.temp_flags,
            })
            &&& call.step(MmapEvent::Found(None)).action() == (MmapAction::Return {
                value: (-12) as isize,
            })
        },
{
}

/// Mapped pages are written. Refused pages are no memory, except that at a fixed address pages
/// in use are unmapped, the same range is mapped once more, and only then it is no memory.
pub proof fn law_after_mapping(call: MmapModel)
    requires
        call.action() is MapPages,
    ensures
        ({
            let out = MmapAction::Return { value: (-12) as isize };
            let start = call.action()->MapPages_start;
            let size = call.action()->MapPages_size;
            let in_use = call.step(MmapEvent::Mapped(MapOutcome::InUse));
            let again = in_use.step(MmapEvent::Unmapped);
            &&& call.step(MmapEvent::Mapped(MapOutcome::Mapped)).action()
                == (MmapAction::Write { start })
            &&& call.step(MmapEvent::Mapped(MapOutcome::Refused)).action() == out
            &&& !call.plan.fixed ==> in_use.action() == out
            &&& in_use.action() == out || in_use.action() == (MmapAction::Unmap { start, size })
            &&& in_use.action() is Unmap ==> {
                &&& again.action() == call.action()
                &&& again.step(MmapEvent::Mapped(MapOutcome::Mapped)).action()
                    == (MmapAction::Write { start })
                &&& again.step(MmapEvent::Mapped(MapOutcome::InUse)).action() == out
                &&& again.step(MmapEvent::Mapped(MapOutcome::Refused)).action() == out
            }
        }),
{
}

/// The first time that a fixed address in the address space turns out to be in use, it is
/// unmapped.
pub proof fn law_fixed_range_in_use_is_unmapped(call: MmapModel)
    requires
        call.action() is CheckRange,
        call.plan.fixed,
    ensures
        call.step(MmapEvent::InRange(true)).step(MmapEvent::Mapped(MapOutcome::InUse)).action()
            == (MmapAction::Unmap {
            start: call.action()->CheckRange_start,
            size: call.action()->CheckRange_size,
        }),
{
}

/// Written pages get the permissions asked for. If they cannot be written they are unmapped,
/// and the address is a bad one.
pub proof fn law_after_writing(call: MmapModel)
    requires
        call.action() is Write,
    ensures
        ({
            let start = call.action()->Write_start;
            let size = call.plan.map_size;
            let failed = call.step(MmapEvent::Completed(false));
            &&& call.step(MmapEvent::Completed(true)).action() == (MmapAction::Protect {
                start,
                size,
                flags: call.plan.final_flags,
            })
            &&& failed.action() == (MmapAction::Unmap { start, size })
            &&& failed.step(MmapEvent::Unmapped).action() == (MmapAction::Return {
                value: (-14) as isize,
            })
        }),
{
}

/// With the permissions set, the user gets the address. If they cannot be set the pages are
/// unmapped, and the request was invalid.
pub proof fn law_after_protecting(call: MmapModel)
    requires
        call.action() is Protect,
    ensures
        ({
            let start = call.action()->Protect_start;
            let size = call.action()->Protect_size;
            let failed = call.step(MmapEvent::Completed(false));
            &&& (call.step(MmapEvent::Completed(true)).action() matches MmapAction::Return {
                value,
            } && (start - value) % (usize::MAX + 1) == 0)
            &&& failed.action() == (MmapAction::Unmap { start, size })
            &&& failed.step(MmapEvent::Unmapped).action() == (MmapAction::Return {
                value: (-22) as isize,
            })
        }),
{
    law_signed_word_is_congruent(call.action()->Protect_start as int);
}

/// Whatever can come of an action is taken: any piece of the file that is not too long, any
/// error, and either outcome of each question. An address space is taken if its end is not below
/// the base of mappings and the address asked for can be rounded up to a page; neither matters
/// where the address is fixed. A call that has returned takes nothing.
pub proof fn law_every_outcome_is_taken(call: MmapModel, event: MmapEvent)
    requires
        call.inv(),
    ensures
        call.action() is Return ==> !call.expects(event),
        match (call.action(), event) {
            (MmapAction::Read { fd, len }, MmapEvent::Bytes(bytes)) => call.expects(event) <==>
                bytes@.len() <= len,
            (MmapAction::Read { fd, len }, MmapEvent::ReadError { code }) => call.expects(event)
                <==> code > 0,
            (MmapAction::Locate, MmapEvent::Space { end: None }) => call.expects(event),
            (MmapAction::Locate, MmapEvent::Space { end: Some(end) }) => call.expects(event) <==>
                call.plan.fixed || (end >= 0x1000_0000 && (call.plan.addr == 0 || call.plan.addr
                + 0x1000 <= usize::MAX)),
            (MmapAction::CheckRange { .. }, MmapEvent::InRange(_)) => call.expects(event),
            (MmapAction::FindFree { .. }, MmapEvent::Found(_)) => call.expects(event),
            (MmapAction::MapPages { .. }, MmapEvent::Mapped(_)) => call.expects(event),
            (MmapAction::Write { .. }, MmapEvent::Completed(_)) => call.expects(event),
            (MmapAction::Protect { .. }, MmapEvent::Completed(_)) => call.expects(event),
            (MmapAction::Unmap { .. }, MmapEvent::Unmapped) => call.expects(event),
            _ => true,
        },
{
}

/// A call returns exactly when it is over, and what it returns then.
pub proof fn law_over_means_return(call: MmapModel)
    ensures
        call.action() is Return <==> call.phase is Done,
        call.action() matches MmapAction::Return { value } ==> call.phase == (MmapPhase::Done {
            value,
        }),
{
}

} // verus!
