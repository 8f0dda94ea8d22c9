//! Mapping a region of virtual memory into the address space of a process.
//!
//! The frames come from the platform's allocator and the mappings go into
//! the platform's page tables. What to ask of the platform, in which order,
//! and when to stop, is decided here: a `RegionAlloc` says which `Request`
//! comes next, and takes the platform's `Reply` to it.
//!
//! While a region is mapped the address space of its process is the active
//! one. The one that was active before is active again when the operation
//! is done, whether it ended well or not. Pages that were mapped before a
//! failure stay mapped.

use vstd::prelude::*;
use crate::mem::{Flag, Frame, Page, PageError, VirtAddr, N_PAGES, page_count, spec_page_count};
use crate::platform::{Reply, Request};
use crate::proc::{Process, ProcessError};

verus! {

/// Which reply a `RegionAlloc` waits for.
#[derive(Copy, Clone, Debug, PartialEq, Eq, Structural)]
pub enum Phase {
    Activating,
    Allocating,
    Mapping,
    Restoring,
    Finished,
}

/// The state of a `RegionAlloc`.
#[derive(Copy, Clone, Debug)]
pub struct RegionState {
    /// Root frame of the address space that takes the mappings.
    pub ppn: u32,
    /// First page of the region.
    pub first: Page,
    /// Number of pages in the region.
    pub count: u32,
    /// The protection that was asked for.
    pub flag: Flag,
    /// Number of pages that are mapped.
    pub mapped: u32,
    /// Number of frames that the allocator gave.
    pub frames: u32,
    /// The frame that the allocator gave last.
    pub frame: Frame,
    /// Root frame of the address space that was active before.
    pub previous: u32,
    pub phase: Phase,
    /// Why the operation stopped early, if it did.
    pub failure: Option<PageError>,
}

impl RegionState {
    /// The state before the first request.
    pub open spec fn start(ppn: u32, first: Page, count: u32, flag: Flag) -> RegionState {
        RegionState {
            ppn,
            first,
            count,
            flag,
            mapped: 0,
            frames: 0,
            frame: Frame(0),
            previous: 0,
            phase: Phase::Activating,
            failure: None,
        }
    }

    /// What holds of the state of every mapping of a region.
    pub open spec fn wf(self) -> bool {
        &&& self.first.0 + self.count <= N_PAGES
        &&& self.mapped <= self.count
        &&& self.mapped <= self.frames <= self.mapped + 1
        &&& self.frames <= self.count
        &&& self.phase is Activating ==> self.mapped == 0 && self.frames == 0
            && self.failure is None
        &&& self.phase is Allocating ==> self.mapped < self.count && self.frames == self.mapped
            && self.failure is None
        &&& self.phase is Mapping ==> self.mapped < self.count && self.frames == self.mapped + 1
            && self.failure is None
        &&& (self.phase is Restoring || self.phase is Finished) && self.failure is None
            ==> self.mapped == self.count && self.frames == self.count
    }

    /// How the operation ends: well, or with the cause that stopped it.
    pub open spec fn result(self) -> Result<(), ProcessError> {
        match self.failure {
            None => Ok(()),
            Some(cause) => Err(ProcessError::FailedToMap(cause)),
        }
    }

    /// The request that the platform is to carry out in this state.
    pub open spec fn pending<'a>(self) -> Request<'a> {
        match self.phase {
            Phase::Activating => Request::Activate { ppn: self.ppn },
            Phase::Allocating => Request::AllocFrame,
            Phase::Mapping => Request::MapPage {
                page: Page((self.first.0 + self.mapped) as u32),
                frame: self.frame,
                flag: self.flag.spec_with_valid(),
            },
            Phase::Restoring => Request::Restore { ppn: self.previous },
            Phase::Finished => Request::Done(self.result()),
        }
    }

    /// The state after one more page is mapped.
    pub open spec fn page_mapped(self) -> RegionState {
        RegionState {
            mapped: (self.mapped + 1) as u32,
            phase: if self.mapped + 1 == self.count {
                Phase::Restoring
            } else {
                Phase::Allocating
            },
            ..self
        }
    }

    /// The state after the operation has stopped for `cause`.
    pub open spec fn failed(self, cause: PageError) -> RegionState {
        RegionState { failure: Some(cause), phase: Phase::Restoring, ..self }
    }

    /// The state after the platform's `reply` to the pending request. A
    /// reply that does not answer the pending request changes nothing.
    pub open spec fn next(self, reply: Reply) -> RegionState {
        match (self.phase, reply) {
            (Phase::Activating, Reply::Activated { previous }) => RegionState {
                previous,
                phase: if self.count == 0 {
                    Phase::Restoring
                } else {
                    Phase::Allocating
                },
                ..self
            },
            (Phase::Allocating, Reply::Frame(Ok(frame))) => RegionState {
                frame,
                frames: (self.frames + 1) as u32,
                phase: Phase::Mapping,
                ..self
            },
            (Phase::Allocating, Reply::Frame(Err(cause))) => self.failed(cause),
            (Phase::Mapping, Reply::Mapped(Ok(()))) => self.page_mapped(),
            (Phase::Mapping, Reply::Mapped(Err(cause))) => self.failed(cause),
            (Phase::Restoring, Reply::Restored) => RegionState { phase: Phase::Finished, ..self },
            _ => self,
        }
    }

    /// The state after the platform's `replies`, in their order.
    pub open spec fn run(self, replies: Seq<Reply>) -> RegionState
        decreases replies.len(),
    {
        if replies.len() == 0 {
            self
        } else {
            self.run(replies.drop_last()).next(replies.last())
        }
    }
}

/// One entry of a page table: `page` is mapped to `frame` with `flag`.
pub struct Mapping {
    pub page: Page,
    pub frame: Frame,
    pub flag: Flag,
}

impl RegionState {
    /// Number of frames that the allocator gave in the course of `replies`:
    /// one for each reply that answered `AllocFrame` with a frame.
    pub open spec fn frames_granted(self, replies: Seq<Reply>) -> nat
        decreases replies.len(),
    {
        if replies.len() == 0 {
            0
        } else {
            let before = self.run(replies.drop_last());
            let earlier = self.frames_granted(replies.drop_last());
            if before.phase is Allocating && replies.last() matches Reply::Frame(Ok(_)) {
                earlier + 1
            } else {
                earlier
            }
        }
    }

    /// The mappings that the page table took in the course of `replies`,
    /// in their order: one for each reply that answered `MapPage` with
    /// success.
    pub open spec fn installed(self, replies: Seq<Reply>) -> Seq<Mapping>
        decreases replies.len(),
    {
        if replies.len() == 0 {
            Seq::empty()
        } else {
            let before = self.run(replies.drop_last());
            let earlier = self.installed(replies.drop_last());
            if before.phase is Mapping && replies.last() matches Reply::Mapped(Ok(_)) {
                earlier.push(
                    Mapping {
                        page: Page((before.first.0 + before.mapped) as u32),
                        frame: before.frame,
                        flag: before.flag.spec_with_valid(),
                    },
                )
            } else {
                earlier
            }
        }
    }

    /// Whether `self` maps the same region as `other`, into the same
    /// address space, with the same protection.
    pub open spec fn same_region(self, other: RegionState) -> bool {
        &&& self.ppn == other.ppn
        &&& self.first == other.first
        &&& self.count == other.count
        &&& self.flag == other.flag
    }

    /// A reply leaves a well-formed state well formed, and the region as it
    /// was.
    pub proof fn lemma_next_wf(self, reply: Reply)
        requires
            self.wf(),
        ensures
            self.next(reply).wf(),
            self.next(reply).same_region(self),
    {
    }

    /// From the start, after any replies: the state is well formed, its
    /// counters are the numbers of frames given and of mappings taken, and
    /// the mappings are those of the first pages of the region, in order,
    /// each with the protection that was asked for on a present page.
    pub proof fn lemma_run(self, replies: Seq<Reply>)
        requires
            self == RegionState::start(self.ppn, self.first, self.count, self.flag),
            self.first.0 + self.count <= N_PAGES,
        ensures
            self.run(replies).wf(),
            self.run(replies).same_region(self),
            self.run(replies).frames == self.frames_granted(replies),
            self.run(replies).mapped == self.installed(replies).len(),
            forall|k: int|
                0 <= k < self.installed(replies).len() ==> {
                    &&& (#[trigger] self.installed(replies)[k]).page == Page(
                        (self.first.0 + k) as u32,
                    )
                    &&& self.installed(replies)[k].flag == self.flag.spec_with_valid()
                },
        decreases replies.len(),
    {
        if replies.len() > 0 {
            self.lemma_run(replies.drop_last());
            self.run(replies.drop_last()).lemma_next_wf(replies.last());
        }
    }

    /// The root frame that the platform reported when it made the address
    /// space of the process the active one is kept to the end.
    pub proof fn lemma_previous_is_kept(self, reply: Reply)
        ensures
            self.phase is Activating && (reply matches Reply::Activated { previous })
                ==> self.next(reply).previous == reply->previous,
            !(self.phase is Activating) ==> self.next(reply).previous == self.previous,
    {
    }

    /// A region is done only after the address space that was active
    /// before is active again: the state becomes `Finished` by the reply
    /// `Restored` alone, to the request to restore the root frame that the
    /// platform reported.
    pub proof fn lemma_finish_follows_restore(self, reply: Reply)
        requires
            !(self.phase is Finished),
            self.next(reply).phase is Finished,
        ensures
            reply is Restored,
            self.pending() == (Request::Restore { ppn: self.previous }),
            self.next(reply).result() == self.result(),
    {
    }
}

/// A region of `size` bytes that was mapped with success took one frame for
/// each of its pages, `size / PGSIZE` rounded up, and each page was mapped
/// with the protection that was asked for, on a present page. A region that
/// stopped early took no more than that.
pub proof fn lemma_region_alloc_frames(
    ppn: u32,
    va: VirtAddr,
    size: usize,
    flag: Flag,
    replies: Seq<Reply>,
)
    requires
        region_fits(va, size),
    ensures
        ({
            let start = RegionState::start(
                ppn,
                va.spec_page(),
                spec_page_count(size as int) as u32,
                flag,
            );
            let end = start.run(replies);
            &&& start.frames_granted(replies) <= spec_page_count(size as int)
            &&& start.installed(replies).len() <= start.frames_granted(replies)
            &&& end.phase is Finished && end.result() is Ok ==> {
                &&& start.frames_granted(replies) == spec_page_count(size as int)
                &&& start.installed(replies).len() == spec_page_count(size as int)
            }
            &&& forall|k: int|
                0 <= k < start.installed(replies).len() ==> {
                    &&& (#[trigger] start.installed(replies)[k]).page == Page(
                        (va.spec_page().0 + k) as u32,
                    )
                    &&& start.installed(replies)[k].flag == flag.spec_union(
                        Flag { valid: true, read: false, write: false, execute: false, user: false },
                    )
                }
        }),
{
    let start = RegionState::start(ppn, va.spec_page(), spec_page_count(size as int) as u32, flag);
    start.lemma_run(replies);
}

/// Whether the `size` bytes from the start of the page that holds `va` end
/// inside the virtual address space.
pub open spec fn region_fits(va: VirtAddr, size: usize) -> bool {
    va.spec_page().0 + spec_page_count(size as int) <= N_PAGES
}

/// The mapping of one region: what was asked for, and how far it has come.
pub struct RegionAlloc {
    state: RegionState,
}

impl RegionAlloc {
    /// The state of the mapping.
    pub closed spec fn view(&self) -> RegionState {
        self.state
    }

    /// The mapping of the `count` pages from `first` into the address space
    /// rooted in frame `ppn`, before its first request.
    pub(crate) fn start(ppn: u32, first: Page, count: u32, flag: Flag) -> (op: RegionAlloc)
        requires
            first.0 + count <= N_PAGES,
        ensures
            op@ == RegionState::start(ppn, first, count, flag),
            op@.wf(),
    {
        RegionAlloc {
            state: RegionState {
                ppn,
                first,
                count,
                flag,
                mapped: 0,
                frames: 0,
                frame: Frame(0),
                previous: 0,
                phase: Phase::Activating,
                failure: None,
            },
        }
    }

    /// The request that the platform is to carry out now.
    pub fn request<'a>(&self) -> (r: Request<'a>)
        requires
            self@.wf(),
        ensures
            r == self@.pending::<'a>(),
    {
        match self.state.phase {
            Phase::Activating => Request::Activate { ppn: self.state.ppn },
            Phase::Allocating => Request::AllocFrame,
            Phase::Mapping => Request::MapPage {
                page: Page(self.state.first.0 + self.state.mapped),
                frame: self.state.frame,
                flag: self.state.flag.with_valid(),
            },
            Phase::Restoring => Request::Restore { ppn: self.state.previous },
            Phase::Finished => Request::Done(
                match self.state.failure {
                    None => Ok(()),
                    Some(cause) => Err(ProcessError::FailedToMap(cause)),
                },
            ),
        }
    }

    /// Takes the platform's `reply` to the pending request, and says what
    /// the platform is to do next.
    pub fn step<'a>(&mut self, reply: Reply) -> (r: Request<'a>)
        requires
            old(self)@.wf(),
        ensures
            final(self)@ == old(self)@.next(reply),
            final(self)@.wf(),
            r == final(self)@.pending::<'a>(),
    {
        match self.state.phase {
            Phase::Activating => {
                if let Reply::Activated { previous } = reply {
                    self.state.previous = previous;
                    self.state.phase = if self.state.count == 0 {
                        Phase::Restoring
                    } else {
                        Phase::Allocating
                    };
                }
            },
            Phase::Allocating => {
                if let Reply::Frame(answer) = reply {
                    match answer {
                        Ok(frame) => {
                            self.state.frame = frame;
                            self.state.frames = self.state.frames + 1;
                            self.state.phase = Phase::Mapping;
                        },
                        Err(cause) => {
                            self.state.failure = Some(cause);
                            self.state.phase = Phase::Restoring;
                        },
                    }
                }
            },
            Phase::Mapping => {
                if let Reply::Mapped(answer) = reply {
                    match answer {
                        Ok(()) => {
                            self.state.mapped = self.state.mapped + 1;
                            self.state.phase = if self.state.mapped == self.state.count {
                                Phase::Restoring
                            } else {
                                Phase::Allocating
                            };
                        },
                        Err(cause) => {
                            self.state.failure = Some(cause);
                            self.state.phase = Phase::Restoring;
                        },
                    }
                }
            },
            Phase::Restoring => {
                if let Reply::Restored = reply {
                    self.state.phase = Phase::Finished;
                }
            },
            Phase::Finished => {},
        }
        self.request()
    }

    /// Number of pages that are mapped.
    pub fn pages_mapped(&self) -> (n: u32)
        ensures
            n == self@.mapped,
    {
        self.state.mapped
    }

    /// Number of frames that the allocator gave.
    pub fn frames_taken(&self) -> (n: u32)
        ensures
            n == self@.frames,
    {
        self.state.frames
    }
}

impl Process {
    /// Begins the mapping of the pages that hold the `size` bytes from the
    /// start of the page of `va`, each to a frame of its own, with the
    /// protection `flag` on a present page.
    pub fn region_alloc(&self, va: VirtAddr, size: usize, flag: Flag) -> (r: Result<
        RegionAlloc,
        ProcessError,
    >)
        ensures
            region_fits(va, size) ==> (r matches Ok(op) && op@ == RegionState::start(
                self.mapper.dir.0,
                va.spec_page(),
                spec_page_count(size as int) as u32,
                flag,
            ) && op@.wf()),
            !region_fits(va, size) ==> (r matches Err(
                ProcessError::FailedToMap(PageError::OutOfRange),
            )),
    {
        let first = va.page();
        let count: usize = page_count(size);
        if count > (N_PAGES - first.0) as usize {
            return Err(ProcessError::FailedToMap(PageError::OutOfRange));
        }
        Ok(RegionAlloc::start(self.ppn(), first, count as u32, flag))
    }
}

} // verus!
