//! What holds of the early allocator over whole runs of requests.

use crate::align::{lemma_clear_low, lemma_multiples, lemma_pow2_positive, lemma_pow2_product};
use crate::region::{AllocError, Region};
use vstd::arithmetic::div_mod::{lemma_div_is_ordered, lemma_hoist_over_denominator};
use vstd::arithmetic::power2::is_pow2;
use vstd::prelude::*;

verus! {

/// One request to an allocator.
pub enum Request {
    Alloc { size: nat, align: nat },
    Dealloc { size: nat },
    AllocPages { num: nat, align: nat },
    DeallocPages { pos: nat, num: nat },
    AddMemory { start: nat, size: nat },
}

/// The addresses `first .. first + len`.
pub struct Span {
    pub first: int,
    pub len: int,
}

impl Span {
    /// No address is in both spans.
    pub open spec fn disjoint(self, other: Span) -> bool {
        self.first + self.len <= other.first || other.first + other.len <= self.first
    }

    /// Every address of the span is in `low .. high`, and there is one.
    pub open spec fn within(self, low: int, high: int) -> bool {
        low <= self.first && 0 < self.len && self.first + self.len <= high
    }
}

/// An allocator together with what it has handed out: the byte spans since the bytes area was
/// last empty, and all page spans, each oldest first.
pub struct History {
    pub region: Region,
    pub bytes: Seq<Span>,
    pub pages: Seq<Span>,
}

impl History {
    /// A range with nothing handed out.
    pub open spec fn begin(region: Region) -> History {
        History { region, bytes: Seq::empty(), pages: Seq::empty() }
    }

    /// The history after one more request, with pages of `page` bytes.
    pub open spec fn step(self, request: Request, page: nat) -> History {
        match request {
            Request::Alloc { size, align } => {
                let region = self.region.after_alloc(size as int, align as int);
                match self.region.bytes_answer(size as int, align as int) {
                    Ok(first) if size != 0 => History {
                        region,
                        bytes: self.bytes.push(Span { first, len: size as int }),
                        ..self
                    },
                    _ => History { region, ..self },
                }
            },
            Request::Dealloc { size } => {
                let region = self.region.after_dealloc(size as int);
                if region.count == 0 {
                    History { region, bytes: Seq::empty(), ..self }
                } else {
                    History { region, ..self }
                }
            },
            Request::AllocPages { num, align } => {
                let region = self.region.after_alloc_pages(num as int, align as int, page as int);
                match self.region.pages_answer(num as int, align as int, page as int) {
                    Ok(first) => History {
                        region,
                        pages: self.pages.push(Span { first, len: (num * page) as int }),
                        ..self
                    },
                    Err(_) => History { region, ..self },
                }
            },
            Request::DeallocPages { pos, num } => History {
                region: self.region.after_dealloc_pages(pos as int, num as int),
                ..self
            },
            Request::AddMemory { start, size } => History {
                region: self.region.after_add_memory(start as int, size as int),
                ..self
            },
        }
    }

    /// Whether the request can be made: a range that is taken ends within the address range.
    pub open spec fn admits(self, request: Request) -> bool {
        request matches Request::AddMemory { start, size } ==> self.region.memory_answer(
            size as int,
        ) is Ok ==> start + size <= usize::MAX
    }

    /// The history after all of `requests`, first to last.
    pub open spec fn run(self, requests: Seq<Request>, page: nat) -> History
        decreases requests.len(),
    {
        if requests.len() == 0 {
            self
        } else {
            self.run(requests.drop_last(), page).step(requests.last(), page)
        }
    }

    /// Whether each of the requests can be made when its turn comes.
    pub open spec fn admits_run(self, requests: Seq<Request>, page: nat) -> bool
        decreases requests.len(),
    {
        requests.len() == 0 || {
            &&& self.admits_run(requests.drop_last(), page)
            &&& self.run(requests.drop_last(), page).admits(requests.last())
        }
    }

    /// Whether the request hands out bytes.
    pub open spec fn grants(self, request: Request) -> bool {
        request matches Request::Alloc { size, align } && size != 0 && self.region.bytes_answer(
            size as int,
            align as int,
        ) is Ok
    }

    /// How many of the requests hand out bytes.
    pub open spec fn granted(self, requests: Seq<Request>, page: nat) -> int
        decreases requests.len(),
    {
        if requests.len() == 0 {
            0
        } else {
            self.granted(requests.drop_last(), page) + (if self.run(
                requests.drop_last(),
                page,
            ).grants(requests.last()) {
                1int
            } else {
                0
            })
        }
    }

    /// Whether a block is live each time that one is given back.
    pub open spec fn returns_live(self, requests: Seq<Request>, page: nat) -> bool
        decreases requests.len(),
    {
        requests.len() == 0 || {
            &&& self.returns_live(requests.drop_last(), page)
            &&& gives_back(requests.last()) ==> self.run(
                requests.drop_last(),
                page,
            ).region.count > 0
        }
    }

    /// Byte spans lie one after the other in the bytes area, page spans one before the other
    /// in the pages area, and no more allocations are live than were handed out.
    pub open spec fn inv(self) -> bool {
        &&& self.region.inv()
        &&& self.region.count <= self.bytes.len()
        &&& forall|i: int|
            0 <= i < self.bytes.len() ==> (#[trigger] self.bytes[i]).within(
                self.region.start,
                self.region.b_pos,
            )
        &&& forall|i: int|
            0 <= i < self.pages.len() ==> (#[trigger] self.pages[i]).within(
                self.region.p_pos,
                self.region.end,
            )
        &&& forall|i: int, j: int|
            0 <= i < j < self.bytes.len() ==> (#[trigger] self.bytes[i]).first + self.bytes[i].len
                <= (#[trigger] self.bytes[j]).first
        &&& forall|i: int, j: int|
            0 <= i < j < self.pages.len() ==> (#[trigger] self.pages[j]).first + self.pages[j].len
                <= (#[trigger] self.pages[i]).first
    }
}

/// Whether the request gives a block of bytes back.
pub open spec fn gives_back(request: Request) -> bool {
    request matches Request::Dealloc { size } && size != 0
}

/// How many of the requests give a block of bytes back.
pub open spec fn given_back(requests: Seq<Request>) -> int
    decreases requests.len(),
{
    if requests.len() == 0 {
        0
    } else {
        given_back(requests.drop_last()) + (if gives_back(requests.last()) {
            1int
        } else {
            0
        })
    }
}

/// What an answered request for bytes promises: the span is aligned, starts within one
/// alignment above the bytes area, and ends before the pages area.
pub proof fn law_bytes_placed(region: Region, size: int, align: int)
    requires
        region.inv(),
        size > 0,
        region.bytes_answer(size, align) is Ok,
    ensures
        ({
            let first = region.bytes_answer(size, align)->Ok_0;
            &&& first > 0
            &&& first % align == 0
            &&& region.b_pos <= first < region.b_pos + align
            &&& first + size <= region.p_pos
        }),
{
    lemma_pow2_positive(align);
    lemma_multiples(region.b_pos, align);
}

/// What an answered request for pages promises: the span lies between the bytes area and the
/// pages area.
pub proof fn law_pages_placed(region: Region, num: int, align: int, page: int)
    requires
        region.inv(),
        num >= 0,
        page > 0,
        region.pages_answer(num, align, page) is Ok,
    ensures
        ({
            let first = region.pages_answer(num, align, page)->Ok_0;
            &&& num * page > 0
            &&& region.b_pos <= first
            &&& first + num * page <= region.p_pos
        }),
{
    lemma_pow2_positive(align);
    assert(num * page > 0 && align * page > 0) by (nonlinear_arith)
        requires
            num > 0,
            align > 0,
            page > 0,
    ;
    lemma_clear_low((region.p_pos - num * page) as usize, (align * page) as usize);
    lemma_multiples(region.p_pos - num * page, align * page);
}

/// When the page size is a power of two, pages are aligned as asked, and less than one
/// alignment is left unused above them.
pub proof fn law_pages_aligned(region: Region, num: int, align: int, page: int)
    requires
        region.inv(),
        num >= 0,
        is_pow2(page),
        region.pages_answer(num, align, page) is Ok,
    ensures
        ({
            let first = region.pages_answer(num, align, page)->Ok_0;
            &&& first % (align * page) == 0
            &&& region.p_pos < first + num * page + align * page
        }),
{
    lemma_pow2_positive(page);
    lemma_pow2_product(align, page);
    lemma_pow2_positive(align * page);
    lemma_multiples(region.p_pos - num * page, align * page);
}

/// One request keeps the spans apart, and takes no page back. It also keeps the range, once
/// there is one.
pub proof fn law_step_keeps_history(history: History, request: Request, page: nat)
    requires
        history.inv(),
        history.admits(request),
        page > 0,
    ensures
        history.step(request, page).inv(),
        history.pages.is_prefix_of(history.step(request, page).pages),
        history.region.start != history.region.end ==> {
            let region = history.step(request, page).region;
            &&& region.start == history.region.start
            &&& region.end == history.region.end
            &&& region.p_pos <= history.region.p_pos
        },
{
    match request {
        Request::Alloc { size, align } => {
            if size != 0 && history.region.bytes_answer(size as int, align as int) is Ok {
                law_bytes_placed(history.region, size as int, align as int);
            }
        },
        Request::AllocPages { num, align } => {
            if history.region.pages_answer(num as int, align as int, page as int) is Ok {
                law_pages_placed(history.region, num as int, align as int, page as int);
            }
        },
        Request::AddMemory { start, size } => {
            if history.region.memory_answer(size as int) is Ok {
                // A range without addresses holds no span.
                assert(history.bytes.len() == 0) by {
                    if history.bytes.len() > 0 {
                        assert(history.bytes[0].within(
                            history.region.start,
                            history.region.b_pos,
                        ));
                    }
                }
                assert(history.pages.len() == 0) by {
                    if history.pages.len() > 0 {
                        assert(history.pages[0].within(
                            history.region.p_pos,
                            history.region.end,
                        ));
                    }
                }
            }
        },
        _ => {},
    }
}

/// Whatever is asked for, given back and offered, a range that was taken stays, and the pages
/// area only grows: every page span ever handed out stays handed out.
pub proof fn law_run_keeps_history(history: History, requests: Seq<Request>, page: nat)
    requires
        history.inv(),
        history.admits_run(requests, page),
        page > 0,
    ensures
        history.run(requests, page).inv(),
        history.pages.is_prefix_of(history.run(requests, page).pages),
        history.region.start != history.region.end ==> {
            let region = history.run(requests, page).region;
            &&& region.start == history.region.start
            &&& region.end == history.region.end
            &&& region.p_pos <= history.region.p_pos
        },
    decreases requests.len(),
{
    if requests.len() > 0 {
        law_run_keeps_history(history, requests.drop_last(), page);
        law_step_keeps_history(
            history.run(requests.drop_last(), page),
            requests.last(),
            page,
        );
    }
}

/// After any requests to an allocator that is new, or that has a fresh range, no two of the
/// spans handed out overlap, bytes and pages alike, and all of them lie in the range. That
/// range is the fresh one, if it has an address. Byte spans count from the moment when the
/// bytes area was last empty.
pub proof fn law_spans_never_overlap(start: nat, size: nat, requests: Seq<Request>, page: nat)
    requires
        start + size <= usize::MAX,
        History::begin(Region::over(start as int, size as int)).admits_run(requests, page),
        page > 0,
    ensures
        ({
            let history = History::begin(Region::over(start as int, size as int)).run(
                requests,
                page,
            );
            let spans = history.bytes + history.pages;
            &&& forall|i: int|
                0 <= i < spans.len() ==> (#[trigger] spans[i]).within(
                    history.region.start,
                    history.region.end,
                )
            &&& forall|i: int, j: int|
                0 <= i < spans.len() && 0 <= j < spans.len() && i != j ==> (
                #[trigger] spans[i]).disjoint(#[trigger] spans[j])
            &&& size > 0 ==> history.region.start == start && history.region.end == start + size
        }),
{
    let fresh = History::begin(Region::over(start as int, size as int));
    law_run_keeps_history(fresh, requests, page);
    let history = fresh.run(requests, page);
    let spans = history.bytes + history.pages;
    let n = history.bytes.len();
    assert forall|i: int| 0 <= i < spans.len() implies (#[trigger] spans[i]).within(
        history.region.start,
        history.region.end,
    ) by {
        if i < n {
            assert(spans[i] == history.bytes[i]);
        } else {
            assert(spans[i] == history.pages[i - n]);
        }
    }
    assert forall|i: int, j: int|
        0 <= i < spans.len() && 0 <= j < spans.len() && i != j implies (
    #[trigger] spans[i]).disjoint(#[trigger] spans[j]) by {
        if i < n {
            assert(spans[i] == history.bytes[i]);
        } else {
            assert(spans[i] == history.pages[i - n]);
        }
        if j < n {
            assert(spans[j] == history.bytes[j]);
        } else {
            assert(spans[j] == history.pages[j - n]);
        }
    }
}

/// The counter records the number of live blocks: where no block is given back while none is
/// live, it goes up by the byte requests that were granted and down by the blocks that were
/// given back, however they alternate and whatever else is asked. So the bytes area is free
/// exactly when as many blocks have been given back as were handed out.
pub proof fn law_count_is_live_blocks(history: History, requests: Seq<Request>, page: nat)
    requires
        history.inv(),
        history.admits_run(requests, page),
        history.returns_live(requests, page),
        page > 0,
    ensures
        ({
            let region = history.run(requests, page).region;
            let live = history.region.count + history.granted(requests, page) - given_back(
                requests,
            );
            &&& region.count == live
            &&& region.b_pos == region.start <==> live == 0
        }),
    decreases requests.len(),
{
    law_run_keeps_history(history, requests, page);
    if requests.len() > 0 {
        law_count_is_live_blocks(history, requests.drop_last(), page);
        law_run_keeps_history(history, requests.drop_last(), page);
    }
}

/// The region after blocks of the given sizes are given back, first to last.
pub open spec fn give_back(region: Region, sizes: Seq<nat>) -> Region
    decreases sizes.len(),
{
    if sizes.len() == 0 {
        region
    } else {
        give_back(region, sizes.drop_last()).after_dealloc(sizes.last() as int)
    }
}

/// In an unbroken run of give-backs, the bytes area is freed when as many blocks have been
/// given back as were live, and not before. Which block goes first does not matter.
pub proof fn law_last_block_frees_bytes(region: Region, sizes: Seq<nat>)
    requires
        region.inv(),
        forall|i: int| 0 <= i < sizes.len() ==> #[trigger] sizes[i] > 0,
    ensures
        sizes.len() < region.count ==> give_back(region, sizes) == (Region {
            count: region.count - sizes.len(),
            ..region
        }),
        sizes.len() >= region.count ==> give_back(region, sizes) == (Region {
            b_pos: region.start,
            count: 0,
            ..region
        }),
    decreases sizes.len(),
{
    if sizes.len() > 0 {
        law_last_block_frees_bytes(region, sizes.drop_last());
        assert(sizes.last() > 0);
    }
}

/// With no block live, asking for one and giving it back changes nothing.
pub proof fn law_single_block_leaves_no_trace(region: Region, size: nat, align: nat)
    requires
        region.inv(),
        region.count == 0,
    ensures
        region.after_alloc(size as int, align as int).after_dealloc(size as int) == region,
{
}

/// A refused request changes nothing.
pub proof fn law_refusal_changes_nothing(region: Region, size: nat, align: nat, page: nat)
    ensures
        region.bytes_answer(size as int, align as int) is Err ==> region.after_alloc(
            size as int,
            align as int,
        ) == region,
        region.pages_answer(size as int, align as int, page as int) is Err
            ==> region.after_alloc_pages(size as int, align as int, page as int) == region,
        forall|start: int| region.memory_answer(size as int) is Err ==>
            #[trigger] region.after_add_memory(start, size as int) == region,
{
}

/// Used bytes, free bytes and the pages area make up the whole range.
pub proof fn law_areas_add_up(region: Region)
    requires
        region.inv(),
    ensures
        (region.b_pos - region.start) + (region.p_pos - region.b_pos) + (region.end
            - region.p_pos) == region.end - region.start,
        0 <= region.b_pos - region.start,
        0 <= region.p_pos - region.b_pos,
        0 <= region.end - region.p_pos,
{
}

/// A byte allocation is charged at least its size, a page allocation at least its pages.
pub proof fn law_allocations_are_charged(region: Region, size: int, align: int, page: int)
    requires
        region.inv(),
        size > 0,
        page > 0,
    ensures
        region.bytes_answer(size, align) is Ok ==> region.after_alloc(size, align).b_pos
            - region.start >= region.b_pos - region.start + size,
        region.pages_answer(size, align, page) is Ok ==> (region.end
            - region.after_alloc_pages(size, align, page).p_pos) / page >= (region.end
            - region.p_pos) / page + size,
{
    if region.bytes_answer(size, align) is Ok {
        law_bytes_placed(region, size, align);
    }
    if region.pages_answer(size, align, page) is Ok {
        law_pages_placed(region, size, align, page);
        let used = region.end - region.p_pos;
        let now = region.end - region.after_alloc_pages(size, align, page).p_pos;
        lemma_hoist_over_denominator(used, size, page as nat);
        assert(size * page == page * size) by (nonlinear_arith);
        lemma_div_is_ordered(used + size * page, now, page);
    }
}

/// Once a range has been taken, every further offer is refused for want of room for it,
/// whatever requests come in between.
pub proof fn law_memory_is_taken_once(
    region: Region,
    start: nat,
    size: nat,
    requests: Seq<Request>,
    page: nat,
    more: nat,
)
    requires
        region.memory_answer(size as int) is Ok,
        start + size <= usize::MAX,
        History::begin(region.after_add_memory(start as int, size as int)).admits_run(
            requests,
            page,
        ),
        page > 0,
        more > 0,
    ensures
        History::begin(region.after_add_memory(start as int, size as int)).run(
            requests,
            page,
        ).region.memory_answer(more as int) == Err::<(), AllocError>(AllocError::NoMemory),
{
    let taken = region.after_add_memory(start as int, size as int);
    law_run_keeps_history(History::begin(taken), requests, page);
}

} // verus!
