//! Loading an ELF image into the address space of a process.
//!
//! Each segment of the image becomes a region that is mapped, filled with
//! zero and then with the segment's file bytes; after the segments comes
//! the region of the user stack. As for a single region, the platform
//! carries out the requests and this module decides them.

use vstd::prelude::*;
use crate::elf::{Elf, ProgramHeader, elf_flag, program_count, program_header};
use crate::mem::{
    Flag,
    Page,
    VirtAddr,
    N_PAGES,
    PGSIZE,
    USER_STACK_SIZE,
    USER_STACK_TOP,
    page_count,
    round_up,
    spec_page_count,
};
use crate::proc::{Process, ProcessError};
use crate::platform::{Reply, Request};
use crate::region::{Mapping, RegionAlloc, RegionState};

verus! {

/// The bytes of a region of `size` bytes after `data` was loaded into it:
/// `data` at its start, zero after that.
pub open spec fn loaded(data: Seq<u8>, size: nat) -> Seq<u8> {
    Seq::new(
        size,
        |i: int|
            if i < data.len() {
                data[i]
            } else {
                0u8
            },
    )
}

/// Fills `region` with zero, then copies `data` to its start.
pub fn fill_region(region: &mut [u8], data: &[u8])
    requires
        data@.len() <= old(region)@.len(),
    ensures
        final(region)@ == loaded(data@, old(region)@.len()),
{
    let size: usize = region.len();
    let mut i: usize = 0;
    while i < size
        invariant
            i <= size,
            region@.len() == size,
            forall|j: int| 0 <= j < i ==> region@[j] == 0u8,
        decreases size - i,
    {
        region[i] = 0;
        i += 1;
    }
    let n: usize = data.len();
    let mut k: usize = 0;
    while k < n
        invariant
            k <= n,
            n == data@.len(),
            n <= size,
            region@.len() == size,
            forall|j: int| 0 <= j < k ==> region@[j] == data@[j],
            forall|j: int| k <= j < size ==> region@[j] == 0u8,
        decreases n - k,
    {
        region[k] = data[k];
        k += 1;
    }
    assert(region@ =~= loaded(data@, size as nat));
}

/// The protection of a segment where every segment is mapped alike.
pub open spec fn uniform_segment_flag() -> Flag {
    Flag { valid: true, read: true, write: true, execute: true, user: true }
}

/// The protection of the user stack.
pub open spec fn stack_flag() -> Flag {
    Flag { valid: true, read: true, write: true, execute: false, user: true }
}

/// The protection that a segment is mapped with, where its program header
/// holds the flag word `flags`: readable, writable and executable, unless
/// `strict`; then what `flags` asks for. A user page either way.
pub open spec fn segment_flag(strict: bool, flags: u32) -> Flag {
    if strict {
        elf_flag(flags).spec_union(
            Flag { valid: false, read: false, write: false, execute: false, user: true },
        )
    } else {
        uniform_segment_flag()
    }
}

/// One region that a load maps.
#[derive(Copy, Clone, Debug)]
pub struct Region<'a> {
    /// An address in the first page of the region.
    pub va: VirtAddr,
    /// Number of pages in the region.
    pub pages: u32,
    /// The protection of its pages.
    pub flag: Flag,
    /// The bytes that the region holds at its start once it is mapped, zero
    /// after them. `None`: the region's bytes are left as they are.
    pub data: Option<&'a [u8]>,
}

impl<'a> Region<'a> {
    /// What holds of every region of a load: it ends inside the virtual
    /// address space, and its data is not more than it has room for.
    pub open spec fn wf(&self) -> bool {
        &&& self.va.spec_page().0 + self.pages <= N_PAGES
        &&& self.data matches Some(data) ==> data@.len() <= self.pages * PGSIZE
    }

    /// Whether this is the region of the segment that `header` describes in
    /// `image`.
    pub open spec fn is_segment(&self, image: Seq<u8>, header: ProgramHeader, strict: bool) -> bool {
        &&& self.va == VirtAddr(header.va)
        &&& self.pages == spec_page_count(header.memsz as int)
        &&& self.flag == segment_flag(strict, header.flags)
        &&& self.data matches Some(data) && data@ == image.subrange(
            header.offset as int,
            header.offset + header.filesz,
        )
    }

    /// Whether this is the region of the user stack.
    pub open spec fn is_stack(&self) -> bool {
        &&& self.va == VirtAddr(USER_STACK_TOP)
        &&& self.pages == spec_page_count(USER_STACK_SIZE as int)
        &&& self.flag == stack_flag()
        &&& self.data is None
    }
}

/// Whether `regions` are the regions that a load of `image` maps, in their
/// order: one for each segment, then the user stack.
pub open spec fn is_load_plan(regions: Seq<Region>, image: Seq<u8>, strict: bool) -> bool {
    &&& regions.len() == program_count(image) + 1
    &&& forall|i: int|
        0 <= i < program_count(image) ==> (#[trigger] regions[i]).is_segment(
            image,
            program_header(image, i),
            strict,
        )
    &&& regions[program_count(image)].is_stack()
}

/// Whether every segment of `image` ends inside the virtual address space.
pub open spec fn segments_fit(image: Seq<u8>) -> bool {
    forall|i: int|
        0 <= i < program_count(image) ==> segment_in_space(#[trigger] program_header(image, i))
}

/// Whether the segment that `header` describes ends inside the virtual
/// address space.
pub open spec fn segment_in_space(header: ProgramHeader) -> bool {
    VirtAddr(header.va).spec_page().0 + spec_page_count(header.memsz as int) <= N_PAGES
}

impl<'a> Region<'a> {
    /// The pages of the region, in their order, each with the protection of
    /// the region on a present page.
    pub open spec fn planned(&self) -> Seq<(Page, Flag)> {
        Seq::new(
            self.pages as nat,
            |k: int| (Page((self.va.spec_page().0 + k) as u32), self.flag.spec_with_valid()),
        )
    }
}

/// The pages of the first `n` of `regions`, region after region.
pub open spec fn planned_pages(regions: Seq<Region>, n: int) -> Seq<(Page, Flag)>
    decreases n,
{
    if n <= 0 {
        Seq::empty()
    } else {
        planned_pages(regions, n - 1) + regions[n - 1].planned()
    }
}

/// The places, among the first `n` of `regions`, of those that are filled
/// with data, in their order.
pub open spec fn planned_fills(regions: Seq<Region>, n: int) -> Seq<int>
    decreases n,
{
    if n <= 0 {
        Seq::empty()
    } else if regions[n - 1].data is Some {
        planned_fills(regions, n - 1).push(n - 1)
    } else {
        planned_fills(regions, n - 1)
    }
}

/// Whether `installed` maps the pages of `plan`, in their order, each with
/// its protection.
pub open spec fn follows(installed: Seq<Mapping>, plan: Seq<(Page, Flag)>) -> bool {
    &&& installed.len() == plan.len()
    &&& forall|j: int|
        0 <= j < installed.len() ==> (#[trigger] installed[j]).page == plan[j].0
            && installed[j].flag == plan[j].1
}

/// Which reply a `LoadElf` waits for.
#[derive(Copy, Clone, Debug, PartialEq, Eq, Structural)]
pub enum LoadPhase {
    Activating,
    Mapping,
    Filling,
    Restoring,
    Finished,
}

/// The state of a `LoadElf`.
pub struct LoadState<'a> {
    /// Root frame of the address space that is loaded.
    pub ppn: u32,
    /// The regions to map, in their order.
    pub regions: Seq<Region<'a>>,
    /// Number of regions that are done.
    pub index: nat,
    /// The mapping of the region that is in work.
    pub inner: RegionState,
    /// Root frame of the address space that was active before.
    pub previous: u32,
    pub phase: LoadPhase,
    /// Why the load stopped early, if it did.
    pub failure: Option<ProcessError>,
}

impl<'a> LoadState<'a> {
    /// The state in which the mapping of region `i` begins.
    pub open spec fn begin(self, i: int) -> RegionState {
        RegionState::start(
            self.ppn,
            self.regions[i].va.spec_page(),
            self.regions[i].pages,
            self.regions[i].flag,
        )
    }

    /// The state before the first request.
    pub open spec fn start(ppn: u32, regions: Seq<Region<'a>>) -> LoadState<'a> {
        LoadState {
            ppn,
            regions,
            index: 0,
            inner: RegionState::start(ppn, regions[0].va.spec_page(), regions[0].pages, regions[0].flag),
            previous: 0,
            phase: LoadPhase::Activating,
            failure: None,
        }
    }

    /// What holds of the state of every load.
    pub open spec fn wf(self) -> bool {
        &&& self.regions.len() > 0
        &&& forall|i: int| 0 <= i < self.regions.len() ==> (#[trigger] self.regions[i]).wf()
        &&& self.index <= self.regions.len()
        &&& self.inner.wf()
        &&& self.phase is Activating ==> self.index == 0 && self.failure is None && self.inner
            == self.begin(0)
        &&& self.failure is Some ==> self.phase is Restoring || self.phase is Finished
        &&& self.phase is Mapping ==> {
            &&& self.index < self.regions.len()
            &&& !(self.inner.phase is Finished)
            &&& self.inner.same_region(self.begin(self.index as int))
            &&& self.failure is None
        }
        &&& self.phase is Filling ==> {
            &&& self.index < self.regions.len()
            &&& self.regions[self.index as int].data is Some
            &&& self.inner.phase is Finished
            &&& self.inner.failure is None
            &&& self.failure is None
        }
        &&& self.index < self.regions.len() ==> self.inner.same_region(
            self.begin(self.index as int),
        )
        &&& self.failure is Some ==> self.index < self.regions.len()
        &&& (self.phase is Restoring || self.phase is Finished) && self.failure is None
            ==> self.index == self.regions.len()
    }

    /// How the load ends: well, or with the error that stopped it.
    pub open spec fn result(self) -> Result<(), ProcessError> {
        match self.failure {
            None => Ok(()),
            Some(e) => Err(e),
        }
    }

    /// The request that the platform is to carry out in this state.
    pub open spec fn pending(self) -> Request<'a> {
        match self.phase {
            LoadPhase::Activating => Request::Activate { ppn: self.ppn },
            LoadPhase::Mapping => self.inner.pending(),
            LoadPhase::Filling => Request::Fill {
                va: self.regions[self.index as int].va,
                size: (self.regions[self.index as int].pages * PGSIZE) as u64,
                data: self.regions[self.index as int].data->0,
            },
            LoadPhase::Restoring => Request::Restore { ppn: self.previous },
            LoadPhase::Finished => Request::Done(self.result()),
        }
    }

    /// The state after the region in work is done: the next region begins,
    /// or, after the last, the earlier address space is restored.
    pub open spec fn advance(self) -> LoadState<'a> {
        if self.index + 1 < self.regions.len() {
            LoadState {
                index: self.index + 1,
                phase: LoadPhase::Mapping,
                inner: self.begin(self.index as int + 1),
                ..self
            }
        } else {
            LoadState { index: self.index + 1, phase: LoadPhase::Restoring, ..self }
        }
    }

    /// The state after the mapping of the region in work has come to
    /// `inner`.
    pub open spec fn mapped(self, inner: RegionState) -> LoadState<'a> {
        if !(inner.phase is Finished) {
            LoadState { inner, ..self }
        } else {
            match inner.failure {
                Some(cause) => LoadState {
                    inner,
                    failure: Some(ProcessError::FailedToMap(cause)),
                    phase: LoadPhase::Restoring,
                    ..self
                },
                None => if self.regions[self.index as int].data is Some {
                    LoadState { inner, phase: LoadPhase::Filling, ..self }
                } else {
                    (LoadState { inner, ..self }).advance()
                },
            }
        }
    }

    /// The state after the platform's `reply` to the pending request. A
    /// reply that does not answer the pending request changes nothing.
    pub open spec fn next(self, reply: Reply) -> LoadState<'a> {
        match self.phase {
            LoadPhase::Activating => match reply {
                Reply::Activated { previous } => LoadState {
                    previous,
                    phase: LoadPhase::Mapping,
                    ..self
                },
                _ => self,
            },
            LoadPhase::Mapping => self.mapped(self.inner.next(reply)),
            LoadPhase::Filling => match reply {
                Reply::Filled => self.advance(),
                _ => self,
            },
            LoadPhase::Restoring => match reply {
                Reply::Restored => LoadState { phase: LoadPhase::Finished, ..self },
                _ => self,
            },
            LoadPhase::Finished => self,
        }
    }
}

impl<'a> LoadState<'a> {
    /// The state after the platform's `replies`, in their order.
    pub open spec fn run(self, replies: Seq<Reply>) -> LoadState<'a>
        decreases replies.len(),
    {
        if replies.len() == 0 {
            self
        } else {
            self.run(replies.drop_last()).next(replies.last())
        }
    }

    /// The mappings that the page table took in the course of `replies`,
    /// in their order: one for each reply that answered `MapPage` with
    /// success.
    pub open spec fn installed(self, replies: Seq<Reply>) -> Seq<Mapping>
        decreases replies.len(),
    {
        if replies.len() == 0 {
            Seq::empty()
        } else {
            let before = self.run(replies.drop_last());
            let earlier = self.installed(replies.drop_last());
            if before.phase is Mapping && before.inner.phase is Mapping
                && replies.last() matches Reply::Mapped(Ok(_)) {
                earlier.push(
                    Mapping {
                        page: Page((before.inner.first.0 + before.inner.mapped) as u32),
                        frame: before.inner.frame,
                        flag: before.inner.flag.spec_with_valid(),
                    },
                )
            } else {
                earlier
            }
        }
    }

    /// The places of the regions that were filled in the course of
    /// `replies`, in their order: one for each reply `Filled` that answered
    /// `Fill`.
    pub open spec fn filled(self, replies: Seq<Reply>) -> Seq<int>
        decreases replies.len(),
    {
        if replies.len() == 0 {
            Seq::empty()
        } else {
            let before = self.run(replies.drop_last());
            let earlier = self.filled(replies.drop_last());
            if before.phase is Filling && replies.last() is Filled {
                earlier.push(before.index as int)
            } else {
                earlier
            }
        }
    }

    /// The pages that are mapped in this state: those of the regions that
    /// are done, and the first of the region in work.
    pub open spec fn reached(self) -> Seq<(Page, Flag)> {
        if self.index < self.regions.len() {
            planned_pages(self.regions, self.index as int) + self.regions[self.index as int].planned().take(
                self.inner.mapped as int,
            )
        } else {
            planned_pages(self.regions, self.regions.len() as int)
        }
    }

    /// One reply takes the mappings from the pages that were reached to
    /// the pages that are reached then.
    proof fn lemma_next_reached(self, reply: Reply, installed: Seq<Mapping>)
        requires
            self.wf(),
            follows(installed, self.reached()),
        ensures
            self.phase is Mapping && self.inner.phase is Mapping && (reply matches Reply::Mapped(
                Ok(_),
            )) ==> follows(
                installed.push(
                    Mapping {
                        page: Page((self.inner.first.0 + self.inner.mapped) as u32),
                        frame: self.inner.frame,
                        flag: self.inner.flag.spec_with_valid(),
                    },
                ),
                self.next(reply).reached(),
            ),
            !(self.phase is Mapping && self.inner.phase is Mapping && (reply matches Reply::Mapped(
                Ok(_),
            ))) ==> follows(installed, self.next(reply).reached()),
    {
        self.lemma_next_wf(reply);
        let after = self.next(reply);
        if self.index < self.regions.len() {
            let region = self.regions[self.index as int];
            let done = planned_pages(self.regions, self.index as int);
            let mapped = self.inner.mapped as int;
            assert(region.wf());
            assert(region.planned().len() == region.pages);
            if after.index == self.index {
                if after.inner.mapped == mapped + 1 {
                    assert(region.planned().take(mapped + 1) =~= region.planned().take(mapped).push(
                        region.planned()[mapped],
                    ));
                    assert(after.reached() =~= self.reached().push(region.planned()[mapped]));
                } else {
                    assert(after.inner.mapped == mapped);
                    assert(after.reached() =~= self.reached());
                }
            } else {
                assert(after.index == self.index + 1);
                assert(mapped == region.pages);
                assert(region.planned().take(mapped) =~= region.planned());
                if after.index < self.regions.len() {
                    assert(after.inner.mapped == 0);
                    assert(self.regions[after.index as int].planned().take(0) =~= Seq::<
                        (Page, Flag),
                    >::empty());
                    assert(after.reached() =~= self.reached());
                } else {
                    assert(after.reached() =~= self.reached());
                }
            }
        } else {
            assert(after.reached() =~= self.reached());
        }
    }

    /// From the start, after any replies: the state is well formed, the
    /// mappings that were taken are those of the pages that are reached,
    /// and the regions that were filled are those with data among the
    /// regions that are done.
    pub proof fn lemma_run(self, replies: Seq<Reply>)
        requires
            self == LoadState::start(self.ppn, self.regions),
            self.regions.len() > 0,
            forall|i: int| 0 <= i < self.regions.len() ==> (#[trigger] self.regions[i]).wf(),
        ensures
            self.run(replies).wf(),
            self.run(replies).regions == self.regions,
            self.run(replies).ppn == self.ppn,
            follows(self.installed(replies), self.run(replies).reached()),
            self.filled(replies) == planned_fills(self.regions, self.run(replies).index as int),
        decreases replies.len(),
    {
        if replies.len() == 0 {
            assert(self.regions[0].planned().take(0) =~= Seq::<(Page, Flag)>::empty());
            assert(self.reached() =~= Seq::<(Page, Flag)>::empty());
        } else {
            self.lemma_run(replies.drop_last());
            let before = self.run(replies.drop_last());
            before.lemma_next_wf(replies.last());
            before.lemma_next_reached(replies.last(), self.installed(replies.drop_last()));
        }
    }

    /// The root frame that the platform reported when the load began is
    /// kept to the end.
    pub proof fn lemma_previous_is_kept(self, reply: Reply)
        ensures
            self.phase is Activating && (reply matches Reply::Activated { previous })
                ==> self.next(reply).previous == reply->previous,
            !(self.phase is Activating) ==> self.next(reply).previous == self.previous,
    {
    }

    /// A load is done only after the address space that was active before
    /// it is active again: the state becomes `Finished` by the reply
    /// `Restored` alone, to the request to restore the root frame that the
    /// platform reported when the load began.
    pub proof fn lemma_finish_follows_restore(self, reply: Reply)
        requires
            !(self.phase is Finished),
            self.next(reply).phase is Finished,
        ensures
            reply is Restored,
            self.pending() == (Request::Restore { ppn: self.previous }),
            self.next(reply).result() == self.result(),
    {
    }

    /// Nothing is mapped or filled after a failure: once a load has failed
    /// it asks to restore the earlier address space, and then for nothing.
    pub proof fn lemma_failure_stops(self, reply: Reply)
        requires
            self.wf(),
            self.failure is Some,
        ensures
            self.pending() is Restore || self.pending() is Done,
            self.next(reply).failure == self.failure,
    {
    }

    /// A reply leaves a well-formed state well formed, and the regions as
    /// they were.
    pub proof fn lemma_next_wf(self, reply: Reply)
        requires
            self.wf(),
        ensures
            self.next(reply).wf(),
            self.next(reply).regions == self.regions,
            self.next(reply).ppn == self.ppn,
    {
        self.inner.lemma_next_wf(reply);
    }
}

/// A load that ended well has mapped every page of every region, region
/// after region and page after page, each with the protection of its region
/// on a present page, and it has filled each region that holds data, in
/// their order.
pub proof fn lemma_load_follows_plan(ppn: u32, regions: Seq<Region>, replies: Seq<Reply>)
    requires
        regions.len() > 0,
        forall|i: int| 0 <= i < regions.len() ==> (#[trigger] regions[i]).wf(),
    ensures
        ({
            let start = LoadState::start(ppn, regions);
            let end = start.run(replies);
            end.phase is Finished && end.result() is Ok ==> {
                &&& follows(start.installed(replies), planned_pages(regions, regions.len() as int))
                &&& start.filled(replies) == planned_fills(regions, regions.len() as int)
            }
        }),
{
    LoadState::start(ppn, regions).lemma_run(replies);
}

/// The load of one ELF image: what is to be mapped, and how far it has
/// come.
pub struct LoadElf<'a> {
    ppn: u32,
    regions: Vec<Region<'a>>,
    index: usize,
    inner: RegionAlloc,
    previous: u32,
    phase: LoadPhase,
    failure: Option<ProcessError>,
}

impl<'a> LoadElf<'a> {
    /// The state of the load.
    pub closed spec fn view(&self) -> LoadState<'a> {
        LoadState {
            ppn: self.ppn,
            regions: self.regions@,
            index: self.index as nat,
            inner: self.inner@,
            previous: self.previous,
            phase: self.phase,
            failure: self.failure,
        }
    }

    fn begin(ppn: u32, region: &Region<'a>) -> (op: RegionAlloc)
        requires
            region.wf(),
        ensures
            op@ == RegionState::start(ppn, region.va.spec_page(), region.pages, region.flag),
            op@.wf(),
    {
        RegionAlloc::start(ppn, region.va.page(), region.pages, region.flag)
    }

    fn advance(&mut self)
        requires
            forall|i: int|
                0 <= i < old(self).regions@.len() ==> (#[trigger] old(self).regions@[i]).wf(),
            old(self).index < old(self).regions.len(),
        ensures
            final(self)@ == old(self)@.advance(),
    {
        self.index = self.index + 1;
        if self.index < self.regions.len() {
            self.inner = Self::begin(self.ppn, &self.regions[self.index]);
            self.phase = LoadPhase::Mapping;
        } else {
            self.phase = LoadPhase::Restoring;
        }
    }

    /// The request that the platform is to carry out now.
    pub fn request(&self) -> (r: Request<'a>)
        requires
            self@.wf(),
        ensures
            r == self@.pending(),
    {
        match self.phase {
            LoadPhase::Activating => Request::Activate { ppn: self.ppn },
            LoadPhase::Mapping => self.inner.request(),
            LoadPhase::Filling => {
                let region = &self.regions[self.index];
                assert(region.wf());
                match region.data {
                    Some(data) => Request::Fill {
                        va: region.va,
                        size: (region.pages as u64) * (PGSIZE as u64),
                        data,
                    },
                    None => Request::Done(Ok(())),
                }
            },
            LoadPhase::Restoring => Request::Restore { ppn: self.previous },
            LoadPhase::Finished => Request::Done(
                match self.failure {
                    None => Ok(()),
                    Some(e) => Err(e),
                },
            ),
        }
    }

    /// Takes the platform's `reply` to the pending request, and says what
    /// the platform is to do next.
    pub fn step(&mut self, reply: Reply) -> (r: Request<'a>)
        requires
            old(self)@.wf(),
        ensures
            final(self)@ == old(self)@.next(reply),
            final(self)@.wf(),
            r == final(self)@.pending(),
    {
        match self.phase {
            LoadPhase::Activating => {
                if let Reply::Activated { previous } = reply {
                    self.previous = previous;
                    self.phase = LoadPhase::Mapping;
                }
            },
            LoadPhase::Mapping => {
                let request = self.inner.step(reply);
                if let Request::Done(result) = request {
                    match result {
                        Err(e) => {
                            self.failure = Some(e);
                            self.phase = LoadPhase::Restoring;
                        },
                        Ok(()) => {
                            if self.regions[self.index].data.is_some() {
                                self.phase = LoadPhase::Filling;
                            } else {
                                self.advance();
                            }
                        },
                    }
                }
            },
            LoadPhase::Filling => {
                if let Reply::Filled = reply {
                    self.advance();
                }
            },
            LoadPhase::Restoring => {
                if let Reply::Restored = reply {
                    self.phase = LoadPhase::Finished;
                }
            },
            LoadPhase::Finished => {},
        }
        proof {
            old(self)@.lemma_next_wf(reply);
        }
        self.request()
    }

    /// Number of regions that are mapped and filled.
    pub fn regions_done(&self) -> (n: usize)
        ensures
            n == self@.index,
    {
        self.index
    }
}

impl Process {
    /// Begins the load of `elf_file` into the address space of this
    /// process: a region for each segment, in the order of the program
    /// header table, then the region of the user stack. Nothing is asked of
    /// the platform where a segment does not end inside the virtual address
    /// space.
    pub fn load_elf<'a>(&self, elf_file: &Elf<'a>) -> (r: Result<LoadElf<'a>, ProcessError>)
        requires
            elf_file.wf(),
        ensures
            segments_fit(elf_file.image()) ==> (r matches Ok(op) && op@.wf() && is_load_plan(
                op@.regions,
                elf_file.image(),
                self.strict_segment_flags,
            ) && op@ == LoadState::start(self.mapper.dir.0, op@.regions)),
            !segments_fit(elf_file.image()) ==> (r matches Err(ProcessError::ProgramError(_))),
    {
        let ghost image = elf_file.image();
        let strict = self.strict_segment_flags;
        let mut regions: Vec<Region<'a>> = Vec::new();
        let mut programs = elf_file.programs();
        loop
            invariant
                image == elf_file.image(),
                strict == self.strict_segment_flags,
                programs.wf(),
                programs.image() == image,
                0 <= programs.position() <= program_count(image),
                regions@.len() == programs.position(),
                forall|j: int|
                    0 <= j < regions@.len() ==> {
                        &&& (#[trigger] regions@[j]).wf()
                        &&& regions@[j].is_segment(image, program_header(image, j), strict)
                        &&& segment_in_space(program_header(image, j))
                    },
            ensures
                programs.position() == program_count(image),
            decreases program_count(image) - programs.position(),
        {
            let ghost at = programs.position();
            match programs.next() {
                None => {
                    break;
                },
                Some(program) => {
                    let first = program.virt_addr.page();
                    let size: u64 = round_up(program.mem_size as u64, PGSIZE as u64);
                    let pages: u64 = size / (PGSIZE as u64);
                    assert(pages == spec_page_count(program.mem_size as int));
                    if pages > (N_PAGES - first.0) as u64 {
                        assert(!segment_in_space(program_header(image, at)));
                        return Err(ProcessError::ProgramError("segment exceeds the address space"));
                    }
                    let flag = if strict {
                        program.flag.union(
                            Flag {
                                valid: false,
                                read: false,
                                write: false,
                                execute: false,
                                user: true,
                            },
                        )
                    } else {
                        Flag { valid: true, read: true, write: true, execute: true, user: true }
                    };
                    regions.push(
                        Region {
                            va: program.virt_addr,
                            pages: pages as u32,
                            flag,
                            data: Some(program.data),
                        },
                    );
                },
            }
        }
        assert forall|i: int| 0 <= i < program_count(image) implies segment_in_space(
            #[trigger] program_header(image, i),
        ) by {
            assert(regions@[i].wf());
        }
        let ghost segments = regions@;
        let stack_pages: usize = page_count(USER_STACK_SIZE as usize);
        regions.push(
            Region {
                va: VirtAddr::new(USER_STACK_TOP),
                pages: stack_pages as u32,
                flag: Flag { valid: true, read: true, write: true, execute: false, user: true },
                data: None,
            },
        );
        assert forall|i: int| 0 <= i < regions@.len() implies (#[trigger] regions@[i]).wf() by {
            if i < segments.len() {
                assert(regions@[i] == segments[i]);
            }
        }
        assert(is_load_plan(regions@, image, strict)) by {
            assert forall|i: int| 0 <= i < program_count(image) implies (#[trigger] regions@[i]).is_segment(
                image,
                program_header(image, i),
                strict,
            ) by {
                assert(regions@[i] == segments[i]);
            }
        }
        let ppn = self.ppn();
        let inner = LoadElf::begin(ppn, &regions[0]);
        Ok(
            LoadElf {
                ppn,
                regions,
                index: 0,
                inner,
                previous: 0,
                phase: LoadPhase::Activating,
                failure: None,
            },
        )
    }
}

} // verus!
