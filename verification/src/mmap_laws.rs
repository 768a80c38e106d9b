//! What holds of a mapping from the request to the return.

use crate::align::{lemma_multiples, multiple_above};
use crate::file_fill::{fill_left, law_fill_begins, law_fill_follows_file, law_fill_makes_progress,
    padded, zeros, Source};
use crate::mman::{flag_set, law_flags_grant_what_was_asked, law_set_flags_add_nothing, MappingFlags,
    MAP_ANONYMOUS, PROT_EXEC, PROT_READ, PROT_WRITE};
use crate::mmap::{plan_answer, MapOutcome, MmapAction, MmapEvent, MmapModel, MmapPhase, MmapPlan,
    MmapRequest, MMAP_BASE, PAGE_SIZE};
use crate::words::{law_signed_word_is_congruent, signed_word};
use vstd::prelude::*;

verus! {

/// Pages in the address space of the user, with what was written to them.
pub struct Mapping {
    pub start: usize,
    pub size: usize,
    pub flags: MappingFlags,
    pub content: Option<Seq<u8>>,
}

/// What a mapping works on: the file, and the address space. Of the latter it knows where it
/// ends once it has been looked up, the free address that a search has answered, the addresses
/// of the pages that others have put there, and the pages that the call has put there.
pub struct World {
    pub source: Source,
    pub end: Option<usize>,
    pub found: Option<usize>,
    pub others: Set<int>,
    pub mapping: Option<Mapping>,
}

/// The addresses that are not in `start .. start + size`.
pub open spec fn without(pages: Set<int>, start: int, size: int) -> Set<int> {
    pages.filter(|a: int| !(start <= a < start + size))
}

/// Whether none of the addresses is in `start .. start + size`.
pub open spec fn free(pages: Set<int>, start: int, size: int) -> bool {
    forall|a: int| #[trigger] pages.contains(a) ==> !(start <= a < start + size)
}

/// The mapping after its data has been written.
pub open spec fn written(mapping: Mapping, data: Seq<u8>) -> Mapping {
    Mapping { content: Some(data), ..mapping }
}

/// The mapping after its permissions have been set.
pub open spec fn protected(mapping: Mapping, flags: MappingFlags) -> Mapping {
    Mapping { flags, ..mapping }
}

impl World {
    /// The world when a call begins: nothing has been asked, and nothing mapped for it.
    pub open spec fn begin(source: Source, others: Set<int>) -> World {
        World { source, end: None, found: None, others, mapping: None }
    }

    /// Whether the event can come of the next action in this world: what was read is what the
    /// file holds, pages were mapped only where there were none, and a range is in use only
    /// where there are some.
    pub open spec fn allows(self, model: MmapModel, event: MmapEvent) -> bool {
        &&& model.expects(event)
        &&& match (model.action(), event) {
            (MmapAction::Read { fd, len }, MmapEvent::Bytes(bytes)) => self.source.serves(
                bytes@,
                len as int,
            ),
            (MmapAction::MapPages { start, size, flags }, MmapEvent::Mapped(outcome)) => {
                &&& outcome is Mapped ==> free(self.others, start as int, size as int)
                &&& outcome is InUse ==> !free(self.others, start as int, size as int)
            },
            _ => true,
        }
    }

    /// The world after the next action, where the event came of it. What fails changes
    /// nothing, except that unmapping is taken to work.
    pub open spec fn after(self, model: MmapModel, event: MmapEvent) -> World {
        match (model.action(), event) {
            (MmapAction::Read { .. }, MmapEvent::Bytes(bytes)) => World {
                source: self.source.advance(bytes@),
                ..self
            },
            (MmapAction::Locate, MmapEvent::Space { end }) => World { end, ..self },
            (MmapAction::FindFree { .. }, MmapEvent::Found(found)) => World { found, ..self },
            (
                MmapAction::MapPages { start, size, flags },
                MmapEvent::Mapped(MapOutcome::Mapped),
            ) => World { mapping: Some(Mapping { start, size, flags, content: None }), ..self },
            (MmapAction::Write { start }, MmapEvent::Completed(true)) => World {
                mapping: match self.mapping {
                    Some(m) if m.start == start => Some(written(m, model.fill.data)),
                    other => other,
                },
                ..self
            },
            (MmapAction::Protect { start, size, flags }, MmapEvent::Completed(true)) => World {
                mapping: match self.mapping {
                    Some(m) if m.start == start && m.size == size => Some(protected(m, flags)),
                    other => other,
                },
                ..self
            },
            (MmapAction::Unmap { start, size }, MmapEvent::Unmapped) => World {
                others: without(self.others, start as int, size as int),
                mapping: match self.mapping {
                    Some(m) if m.start == start && m.size == size => None,
                    other => other,
                },
                ..self
            },
            _ => self,
        }
    }
}

/// The bytes that a mapping is to hold: zeros if it is blank, or those of the file from the
/// offset on, counted from where the file was when the call began, with zeros past its end.
pub open spec fn wanted_content(plan: MmapPlan, source: Source) -> Seq<u8> {
    if plan.anonymous {
        zeros(plan.length as int)
    } else {
        padded(source.file, source.origin + plan.offset, plan.length as int)
    }
}

/// Whether pages belong at `start`: at the address asked for, if it must be that one, and
/// otherwise at the address that the search has answered.
pub open spec fn start_fits(plan: MmapPlan, world: World, start: usize) -> bool {
    &&& plan.fixed ==> start == plan.addr && start != 0 && start as int % PAGE_SIZE as int == 0
    &&& !plan.fixed ==> world.found == Some(start)
}

/// How the state of the call and the state of the world go together.
pub open spec fn in_step(model: MmapModel, world: World) -> bool {
    let plan = model.plan;
    let fresh = |start: usize|
        Mapping { start, size: plan.map_size, flags: plan.temp_flags, content: None };
    &&& model.inv()
    &&& model.phase is Read ==> !plan.anonymous && world.source.explains(
        model.fill,
        plan.offset as int,
    )
    &&& model.fill.phase is Done ==> model.fill.data == wanted_content(plan, world.source)
    &&& world.mapping matches Some(mapping) ==> free(
        world.others,
        mapping.start as int,
        mapping.size as int,
    )
    &&& match model.phase {
        MmapPhase::Read => world.mapping is None,
        MmapPhase::Locate => world.mapping is None,
        MmapPhase::Check => world.mapping is None && plan.fixed && start_fits(plan, world, plan.addr),
        MmapPhase::Search { hint, limit_end } => {
            &&& world.mapping is None
            &&& !plan.fixed
            &&& hint as int % PAGE_SIZE as int == 0
            &&& MMAP_BASE <= hint
            &&& MMAP_BASE <= limit_end
            &&& world.end == Some(limit_end)
        },
        MmapPhase::MapPages { start, cleared } => {
            &&& world.mapping is None
            &&& start_fits(plan, world, start)
            &&& cleared ==> plan.fixed && free(
                world.others,
                start as int,
                plan.map_size as int,
            )
        },
        MmapPhase::Clear { start } => {
            &&& world.mapping is None
            &&& plan.fixed
            &&& start_fits(plan, world, start)
            &&& !free(world.others, start as int, plan.map_size as int)
        },
        MmapPhase::Write { start } => world.mapping == Some(fresh(start)) && start_fits(
            plan,
            world,
            start,
        ),
        MmapPhase::Protect { start } => world.mapping == Some(
            written(fresh(start), model.fill.data),
        ) && start_fits(plan, world, start),
        MmapPhase::Unmap { start, error } => world.mapping is Some && world.mapping->0.start
            == start && world.mapping->0.size == plan.map_size && start_fits(plan, world, start),
        MmapPhase::Done { value } => match world.mapping {
            None => value < 0,
            Some(mapping) => {
                &&& value == signed_word(mapping.start as int)
                &&& start_fits(plan, world, mapping.start)
                &&& mapping.size == plan.map_size
                &&& mapping.flags == plan.final_flags
                &&& mapping.content == Some(wanted_content(plan, world.source))
            },
        },
    }
}

/// The call and the world after the events, first to last.
pub open spec fn play(model: MmapModel, world: World, events: Seq<MmapEvent>) -> (
    MmapModel,
    World,
)
    decreases events.len(),
{
    if events.len() == 0 {
        (model, world)
    } else {
        let (m, w) = play(model, world, events.drop_last());
        (m.step(events.last()), w.after(m, events.last()))
    }
}

/// Whether each of the events can come of the action that it follows.
pub open spec fn possible(model: MmapModel, world: World, events: Seq<MmapEvent>) -> bool
    decreases events.len(),
{
    if events.len() == 0 {
        true
    } else {
        let (m, w) = play(model, world, events.drop_last());
        possible(model, world, events.drop_last()) && w.allows(m, events.last())
    }
}

/// One event keeps the call and the world in step.
pub proof fn law_step_stays_in_step(model: MmapModel, world: World, event: MmapEvent)
    requires
        in_step(model, world),
        world.allows(model, event),
    ensures
        in_step(model.step(event), world.after(model, event)),
        model.step(event).plan == model.plan,
        world.after(model, event).source.file == world.source.file,
        world.after(model, event).source.origin == world.source.origin,
        world.after(model, event).others == if model.phase is Clear {
            without(world.others, model.plan.addr as int, model.plan.map_size as int)
        } else {
            world.others
        },
{
    match (model.phase, event) {
        (MmapPhase::Read, MmapEvent::Bytes(bytes)) => {
            law_fill_follows_file(world.source, model.fill, model.plan.offset as int, bytes@);
        },
        (MmapPhase::Locate, MmapEvent::Space { end }) => {
            lemma_multiples(model.plan.addr as int, PAGE_SIZE as int);
        },
        (MmapPhase::Unmap { start, error }, MmapEvent::Unmapped) => {
            assert(without(world.others, start as int, model.plan.map_size as int)
                =~= world.others);
        },
        _ => {},
    }
}

/// Pages that are refused, other than at a fixed address for being in use the first time, end
/// the call at once with the negated `ENOMEM`, and change nothing.
pub proof fn law_refused_pages_change_nothing(
    model: MmapModel,
    world: World,
    outcome: MapOutcome,
)
    requires
        model.phase is MapPages,
        outcome !is Mapped,
        outcome is InUse ==> !model.plan.fixed || model.phase->cleared,
    ensures
        model.step(MmapEvent::Mapped(outcome)).action() == (MmapAction::Return {
            value: (-12) as isize,
        }),
        world.after(model, MmapEvent::Mapped(outcome)) == world,
{
}

/// What becomes of the pages of others: they stay, except that a fixed call whose range is in
/// use may take those in the range, and no others.
pub open spec fn others_kept(plan: MmapPlan, before: Set<int>, after: Set<int>) -> bool {
    ||| after == before
    ||| {
        &&& plan.fixed
        &&& !free(before, plan.addr as int, plan.map_size as int)
        &&& after == without(before, plan.addr as int, plan.map_size as int)
    }
}

/// A call that begins is in step with a world where nothing has been done for it.
pub proof fn law_call_begins_in_step(req: MmapRequest, source: Source, others: Set<int>)
    requires
        plan_answer(req) is Ok,
        0 <= source.origin == source.pos,
    ensures
        in_step(
            MmapModel::begin(plan_answer(req)->Ok_0),
            World::begin(source, others),
        ),
{
    let plan = plan_answer(req)->Ok_0;
    law_fill_begins(source, plan.length as nat, plan.offset as nat);
}

/// However its actions turn out, a call that is over has either failed, with a negative value
/// and nothing of its own left in the address space; or it returns the address of a mapping
/// that has the size in whole pages, exactly the permissions asked for, and the contents of
/// the file (or zeros). The mapping is at the fixed address if there was one, and otherwise at
/// the address that the search answered. The pages of others stay, unless the call is for a
/// fixed address whose range is in use; then at most those in the range go.
pub proof fn law_call_ends_clean(
    req: MmapRequest,
    source: Source,
    others: Set<int>,
    events: Seq<MmapEvent>,
)
    requires
        plan_answer(req) is Ok,
        0 <= source.origin == source.pos,
        possible(
            MmapModel::begin(plan_answer(req)->Ok_0),
            World::begin(source, others),
            events,
        ),
    ensures
        ({
            let plan = plan_answer(req)->Ok_0;
            let (m, w) = play(
                MmapModel::begin(plan),
                World::begin(source, others),
                events,
            );
            &&& in_step(m, w)
            &&& !plan.fixed ==> w.others == others
            &&& others_kept(plan, others, w.others)
            &&& m.phase matches MmapPhase::Done { value } ==> match w.mapping {
                None => value < 0,
                Some(mapping) => {
                    &&& value == signed_word(mapping.start as int)
                    &&& plan.fixed ==> mapping.start == req.addr
                    &&& !plan.fixed ==> w.found == Some(mapping.start)
                    &&& mapping.size == plan.map_size
                    &&& mapping.flags == plan.final_flags
                    &&& mapping.content == Some(wanted_content(plan, source))
                },
            }
        }),
{
    law_call_begins_in_step(req, source, others);
    lemma_play_in_step(
        MmapModel::begin(plan_answer(req)->Ok_0),
        World::begin(source, others),
        events,
    );
}

proof fn lemma_play_in_step(model: MmapModel, world: World, events: Seq<MmapEvent>)
    requires
        in_step(model, world),
        possible(model, world, events),
    ensures
        ({
            let (m, w) = play(model, world, events);
            &&& in_step(m, w)
            &&& m.plan == model.plan
            &&& w.source.file == world.source.file
            &&& w.source.origin == world.source.origin
            &&& others_kept(model.plan, world.others, w.others)
        }),
    decreases events.len(),
{
    if events.len() > 0 {
        lemma_play_in_step(model, world, events.drop_last());
        let (m, w) = play(model, world, events.drop_last());
        law_step_stays_in_step(m, w, events.last());
    }
}

/// Whether `p` holds of each event, together with the call and the world that it comes to.
pub open spec fn always(
    model: MmapModel,
    world: World,
    events: Seq<MmapEvent>,
    p: spec_fn(MmapModel, World, MmapEvent) -> bool,
) -> bool
    decreases events.len(),
{
    if events.len() == 0 {
        true
    } else {
        let (m, w) = play(model, world, events.drop_last());
        always(model, world, events.drop_last(), p) && p(m, w, events.last())
    }
}

/// Whether an address that a search answers is a multiple of the page size, and the mapping
/// there lies within the limits of the search.
pub open spec fn within_limits(model: MmapModel, world: World, event: MmapEvent) -> bool {
    match (model.action(), event) {
        (
            MmapAction::FindFree { hint, size, limit_start, limit_end },
            MmapEvent::Found(Some(start)),
        ) => {
            &&& start as int % PAGE_SIZE as int == 0
            &&& limit_start <= start
            &&& start + size <= limit_end
        },
        _ => true,
    }
}

/// Where searches answer within their limits, a mapping whose address was left open begins at
/// a page, not below the base, and ends in the address space.
pub proof fn law_chosen_address_is_in_bounds(
    req: MmapRequest,
    source: Source,
    others: Set<int>,
    events: Seq<MmapEvent>,
)
    requires
        plan_answer(req) is Ok,
        !plan_answer(req)->Ok_0.fixed,
        0 <= source.origin == source.pos,
        possible(
            MmapModel::begin(plan_answer(req)->Ok_0),
            World::begin(source, others),
            events,
        ),
        always(
            MmapModel::begin(plan_answer(req)->Ok_0),
            World::begin(source, others),
            events,
            |m: MmapModel, w: World, e: MmapEvent| within_limits(m, w, e),
        ),
    ensures
        ({
            let (m, w) = play(
                MmapModel::begin(plan_answer(req)->Ok_0),
                World::begin(source, others),
                events,
            );
            w.mapping matches Some(mapping) ==> {
                &&& mapping.start as int % PAGE_SIZE as int == 0
                &&& MMAP_BASE <= mapping.start
                &&& w.end matches Some(end) && mapping.start + mapping.size <= end
            }
        }),
{
    let model = MmapModel::begin(plan_answer(req)->Ok_0);
    law_call_begins_in_step(req, source, others);
    lemma_found_in_bounds(model, World::begin(source, others), events);
    lemma_play_in_step(model, World::begin(source, others), events);
}

/// Whether the found address, if there is one, is as a search should answer.
spec fn found_in_bounds(model: MmapModel, world: World) -> bool {
    &&& world.found matches Some(start) ==> {
        &&& start as int % PAGE_SIZE as int == 0
        &&& MMAP_BASE <= start
        &&& world.end matches Some(end) && start + model.plan.map_size <= end
    }
    &&& model.phase is Read || model.phase is Locate ==> world.found is None
}

proof fn lemma_found_in_bounds(model: MmapModel, world: World, events: Seq<MmapEvent>)
    requires
        in_step(model, world),
        found_in_bounds(model, world),
        possible(model, world, events),
        always(
            model,
            world,
            events,
            |m: MmapModel, w: World, e: MmapEvent| within_limits(m, w, e),
        ),
    ensures
        ({
            let (m, w) = play(model, world, events);
            found_in_bounds(m, w)
        }),
    decreases events.len(),
{
    if events.len() > 0 {
        lemma_found_in_bounds(model, world, events.drop_last());
        lemma_play_in_step(model, world, events.drop_last());
    }
}

/// Whether the event is what a kernel answers that has the file, the address space, a free
/// range and the memory: only pages that are already at a fixed address keep it from mapping.
pub open spec fn obliging(model: MmapModel, world: World, event: MmapEvent) -> bool {
    match event {
        MmapEvent::ReadError { .. } => false,
        MmapEvent::Space { end } => end is Some,
        MmapEvent::InRange(inside) => inside,
        MmapEvent::Found(found) => found is Some,
        MmapEvent::Mapped(outcome) => outcome is Mapped || (model.plan.fixed && outcome is InUse),
        MmapEvent::Completed(ok) => ok,
        _ => true,
    }
}

/// A fixed address holds no matter whether it is free. On a kernel that is otherwise able to
/// serve it, a call for a good fixed address never fails: when it is over, the mapping is at
/// exactly that address, and that is what the user gets.
pub proof fn law_fixed_address_need_not_be_free(
    req: MmapRequest,
    source: Source,
    others: Set<int>,
    events: Seq<MmapEvent>,
)
    requires
        plan_answer(req) is Ok,
        plan_answer(req)->Ok_0.fixed,
        req.addr != 0,
        req.addr as int % PAGE_SIZE as int == 0,
        0 <= source.origin == source.pos,
        possible(
            MmapModel::begin(plan_answer(req)->Ok_0),
            World::begin(source, others),
            events,
        ),
        always(
            MmapModel::begin(plan_answer(req)->Ok_0),
            World::begin(source, others),
            events,
            |m: MmapModel, w: World, e: MmapEvent| obliging(m, w, e),
        ),
    ensures
        ({
            let (m, w) = play(
                MmapModel::begin(plan_answer(req)->Ok_0),
                World::begin(source, others),
                events,
            );
            m.phase matches MmapPhase::Done { value } ==> {
                &&& value == signed_word(req.addr as int)
                &&& w.mapping matches Some(mapping) && mapping.start == req.addr
            }
        }),
{
    let model = MmapModel::begin(plan_answer(req)->Ok_0);
    let world = World::begin(source, others);
    law_call_begins_in_step(req, source, others);
    lemma_never_fails(model, world, events);
    lemma_play_in_step(model, world, events);
}

proof fn lemma_never_fails(model: MmapModel, world: World, events: Seq<MmapEvent>)
    requires
        in_step(model, world),
        model.phase is Read || model.phase is Locate,
        model.plan.fixed ==> model.plan.addr != 0 && model.plan.addr as int % PAGE_SIZE as int
            == 0,
        possible(model, world, events),
        always(
            model,
            world,
            events,
            |m: MmapModel, w: World, e: MmapEvent| obliging(m, w, e),
        ),
    ensures
        ({
            let (m, w) = play(model, world, events);
            m.phase !is Unmap && (m.phase is Done ==> w.mapping is Some)
        }),
    decreases events.len(),
{
    if events.len() > 0 {
        lemma_never_fails(model, world, events.drop_last());
        lemma_play_in_step(model, world, events.drop_last());
    }
}

/// Whether the bytes are what a user should find in memory that was mapped for the request: as
/// many as asked for; zeros, if no file is to be used; and otherwise what the file holds from
/// the offset on, counted from where it was when the call began, with zeros past its end.
pub open spec fn content_asked_for(req: MmapRequest, source: Source, content: Seq<u8>) -> bool {
    &&& content.len() == req.length
    &&& forall|i: int|
        0 <= i < req.length ==> {
            let at = source.origin + req.offset + i;
            #[trigger] content[i] == if req.flags & 0x20 == 0 && at < source.file.len() {
                source.file[at]
            } else {
                0u8
            }
        }
}

/// What a call that returns an address owes for its request, whatever happened on the way. The
/// mapping is at that address; it is whole pages, as many as the length takes; the user may
/// read, write and execute it exactly as asked; it is at the fixed address, or where the search
/// found room; and it holds the file, unless a blank one was asked for.
pub proof fn law_mapping_is_what_was_asked(
    req: MmapRequest,
    source: Source,
    others: Set<int>,
    events: Seq<MmapEvent>,
)
    requires
        plan_answer(req) is Ok,
        0 <= source.origin == source.pos,
        possible(
            MmapModel::begin(plan_answer(req)->Ok_0),
            World::begin(source, others),
            events,
        ),
    ensures
        ({
            let (m, w) = play(
                MmapModel::begin(plan_answer(req)->Ok_0),
                World::begin(source, others),
                events,
            );
            m.action() matches MmapAction::Return { value } ==> match w.mapping {
                None => value < 0,
                Some(mapping) => {
                    &&& (mapping.start - value) % (usize::MAX + 1) == 0
                    &&& req.flags & 0x10 != 0 ==> mapping.start == req.addr
                    &&& req.flags & 0x10 == 0 ==> w.found == Some(mapping.start)
                    &&& mapping.size % 0x1000 == 0
                    &&& req.length <= mapping.size < req.length + 0x1000
                    &&& mapping.flags.bits & 1 != 0 <==> req.prot & 1 != 0
                    &&& mapping.flags.bits & 2 != 0 <==> req.prot & 2 != 0
                    &&& mapping.flags.bits & 4 != 0 <==> req.prot & 4 != 0
                    &&& mapping.flags.bits & 8 != 0
                    &&& mapping.flags.bits < 16
                    &&& mapping.content is Some
                    &&& content_asked_for(req, source, mapping.content->0)
                },
            }
        }),
{
    let plan = plan_answer(req)->Ok_0;
    law_call_ends_clean(req, source, others, events);
    law_plan_meets_request(req);
    law_set_flags_add_nothing(req.flags, 0);
    law_set_flags_add_nothing(req.prot, 0);
    law_flags_grant_what_was_asked(
        flag_set(req.prot, PROT_READ),
        flag_set(req.prot, PROT_WRITE),
        flag_set(req.prot, PROT_EXEC),
    );
    let (m, w) = play(MmapModel::begin(plan), World::begin(source, others), events);
    if w.mapping is Some {
        law_signed_word_is_congruent(w.mapping->0.start as int);
    }
}

/// On a kernel that can serve it, every good request is served: a call that returns has made
/// its mapping. A request is good if it is accepted, and a fixed address is one of a page.
pub proof fn law_good_requests_are_served(
    req: MmapRequest,
    source: Source,
    others: Set<int>,
    events: Seq<MmapEvent>,
)
    requires
        plan_answer(req) is Ok,
        req.flags & 0x10 != 0 ==> req.addr != 0 && req.addr as int % 0x1000 == 0,
        0 <= source.origin == source.pos,
        possible(
            MmapModel::begin(plan_answer(req)->Ok_0),
            World::begin(source, others),
            events,
        ),
        always(
            MmapModel::begin(plan_answer(req)->Ok_0),
            World::begin(source, others),
            events,
            |m: MmapModel, w: World, e: MmapEvent| obliging(m, w, e),
        ),
    ensures
        ({
            let (m, w) = play(
                MmapModel::begin(plan_answer(req)->Ok_0),
                World::begin(source, others),
                events,
            );
            m.action() is Return ==> w.mapping is Some
        }),
{
    law_call_begins_in_step(req, source, others);
    law_set_flags_add_nothing(req.flags, 0);
    lemma_never_fails(
        MmapModel::begin(plan_answer(req)->Ok_0),
        World::begin(source, others),
        events,
    );
}

/// A call takes no more events than it has bytes to skip and to fill, and nine more.
pub proof fn law_calls_end_soon(
    req: MmapRequest,
    source: Source,
    others: Set<int>,
    events: Seq<MmapEvent>,
)
    requires
        plan_answer(req) is Ok,
        0 <= source.origin == source.pos,
        possible(
            MmapModel::begin(plan_answer(req)->Ok_0),
            World::begin(source, others),
            events,
        ),
    ensures
        events.len() <= req.offset + req.length + 9,
{
    let model = MmapModel::begin(plan_answer(req)->Ok_0);
    law_call_begins_in_step(req, source, others);
    lemma_events_are_counted(model, World::begin(source, others), events);
}

proof fn lemma_events_are_counted(model: MmapModel, world: World, events: Seq<MmapEvent>)
    requires
        in_step(model, world),
        possible(model, world, events),
    ensures
        events.len() + steps_left(play(model, world, events).0) <= steps_left(model),
        0 <= steps_left(play(model, world, events).0),
    decreases events.len(),
{
    if events.len() > 0 {
        lemma_events_are_counted(model, world, events.drop_last());
        lemma_play_in_step(model, world, events.drop_last());
        law_call_makes_progress(play(model, world, events.drop_last()).0, events.last());
    }
}

/// The call after the events, first to last.
pub open spec fn run(model: MmapModel, events: Seq<MmapEvent>) -> MmapModel
    decreases events.len(),
{
    if events.len() == 0 {
        model
    } else {
        run(model, events.drop_last()).step(events.last())
    }
}

/// A blank mapping uses no file. With good offsets, two requests for one that differ only in
/// the file and the offset are refused alike, or are accepted alike, and then they take the
/// same action after every sequence of events, never that of reading, and write zeros.
pub proof fn law_blank_mapping_uses_no_file(
    req: MmapRequest,
    fd: i32,
    offset: isize,
    events: Seq<MmapEvent>,
)
    requires
        flag_set(req.flags, MAP_ANONYMOUS),
        0 <= req.offset,
        req.offset as int % PAGE_SIZE as int == 0,
        0 <= offset,
        offset as int % PAGE_SIZE as int == 0,
    ensures
        ({
            let other = MmapRequest { fd, offset, ..req };
            match (plan_answer(req), plan_answer(other)) {
                (Ok(p), Ok(q)) => {
                    let a = run(MmapModel::begin(p), events);
                    let b = run(MmapModel::begin(q), events);
                    &&& a.action() == b.action()
                    &&& a.action() !is Read
                    &&& a.fill.data == zeros(req.length as int)
                    &&& b.fill.data == zeros(req.length as int)
                },
                (Err(e), Err(f)) => e == f,
                _ => false,
            }
        }),
{
    let other = MmapRequest { fd, offset, ..req };
    if plan_answer(req) is Ok {
        lemma_alike(
            MmapModel::begin(plan_answer(req)->Ok_0),
            MmapModel::begin(plan_answer(other)->Ok_0),
            events,
        );
    }
}

/// Whether two calls that read no file differ in the file and the offset at most.
spec fn alike(a: MmapModel, b: MmapModel) -> bool {
    &&& a.phase == b.phase
    &&& a.phase !is Read
    &&& a.fill == b.fill
    &&& a.plan == (MmapPlan { fd: a.plan.fd, offset: a.plan.offset, ..b.plan })
}

proof fn lemma_alike(a: MmapModel, b: MmapModel, events: Seq<MmapEvent>)
    requires
        alike(a, b),
    ensures
        alike(run(a, events), run(b, events)),
        run(a, events).fill == a.fill,
    decreases events.len(),
{
    if events.len() > 0 {
        lemma_alike(a, b, events.drop_last());
    }
}

/// How many events a call can still take, at most.
pub open spec fn steps_left(model: MmapModel) -> int {
    match model.phase {
        MmapPhase::Read => 8 + fill_left(model.fill),
        MmapPhase::Locate => 8,
        MmapPhase::Check => 7,
        MmapPhase::Search { .. } => 7,
        MmapPhase::MapPages { start, cleared } => if cleared {
            4
        } else {
            6
        },
        MmapPhase::Clear { .. } => 5,
        MmapPhase::Write { .. } => 3,
        MmapPhase::Protect { .. } => 2,
        MmapPhase::Unmap { .. } => 1,
        MmapPhase::Done { .. } => 0,
    }
}

/// Every event brings a call nearer to its end, so no call goes on for ever; and a call that
/// is over takes no event any more.
pub proof fn law_call_makes_progress(model: MmapModel, event: MmapEvent)
    requires
        model.inv(),
        model.expects(event),
    ensures
        model.phase !is Done,
        0 <= steps_left(model.step(event)) < steps_left(model),
{
    if let MmapEvent::Bytes(bytes) = event {
        law_fill_makes_progress(model.fill, bytes@);
    }
}

/// A planned mapping covers the length asked for with whole pages and not one more than it
/// takes, grants the user exactly the permissions asked for, and can be filled by the kernel.
pub proof fn law_plan_meets_request(req: MmapRequest)
    requires
        plan_answer(req) is Ok,
    ensures
        ({
            let plan = plan_answer(req)->Ok_0;
            &&& plan.map_size % PAGE_SIZE == 0
            &&& req.length <= plan.map_size < req.length + PAGE_SIZE
            &&& plan.final_flags.reads() == flag_set(req.prot, PROT_READ)
            &&& plan.final_flags.writes() == flag_set(req.prot, PROT_WRITE)
            &&& plan.final_flags.executes() == flag_set(req.prot, PROT_EXEC)
            &&& plan.final_flags.is_user()
            &&& plan.temp_flags.reads()
            &&& plan.temp_flags.writes()
            &&& plan.temp_flags.executes() == plan.final_flags.executes()
            &&& plan.temp_flags.is_user()
        }),
{
    lemma_multiples(req.length as int, PAGE_SIZE as int);
    let execute = flag_set(req.prot, PROT_EXEC);
    law_flags_grant_what_was_asked(
        flag_set(req.prot, PROT_READ),
        flag_set(req.prot, PROT_WRITE),
        execute,
    );
    law_flags_grant_what_was_asked(true, true, execute);
    assert(multiple_above(req.length as int, PAGE_SIZE as int) <= usize::MAX);
}

} // verus!
