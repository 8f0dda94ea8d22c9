//! Processes: identity, status, saved context, exit code and inbound
//! messages of each schedulable unit.

use vstd::prelude::*;
use crate::mem::{AddressSpace, Frame, PageError};
use crate::queue::{MessageQueue, QueueError, QUEUE_CAPACITY, dequeued, enqueued, has_room};
use crate::trap::TrapFrame;

verus! {

/// Number of process slots.
pub const N_PROCS: usize = 1024;

/// What kind of process a slot holds.
#[derive(Copy, Clone, Debug, PartialEq, Eq, Structural)]
pub enum Type {
    User,
}

/// Where a process slot stands in its life.
#[derive(Copy, Clone, Debug, PartialEq, Eq, Structural)]
pub enum Status {
    Free,
    Running,
    Runnable,
    NotRunnable,
    Zombie,
}

impl Status {
    /// The number that stands for the status in a system call's result.
    pub open spec fn code(&self) -> u32 {
        match self {
            Status::Free => 0,
            Status::Running => 1,
            Status::Runnable => 2,
            Status::NotRunnable => 3,
            Status::Zombie => 4,
        }
    }

    /// The number that stands for the status in a system call's result.
    pub fn to_u32(&self) -> (n: u32)
        ensures
            n == self.code(),
    {
        match self {
            Status::Free => 0,
            Status::Running => 1,
            Status::Runnable => 2,
            Status::NotRunnable => 3,
            Status::Zombie => 4,
        }
    }
}

/// Why an operation on a process or on the process table did not succeed.
#[derive(Debug, Copy, Clone)]
pub enum ProcessError {
    FailedToCreateProcess,
    /// A page of a region could not be mapped.
    FailedToMap(PageError),
    ProgramError(&'static str),
    NoSuchProcess,
    QueueFull,
    QueueEmpty,
    /// Every process slot is in use.
    OutOfProcesses,
    /// The slot that was to be released is not in use.
    FreeListOverflow,
}

impl ProcessError {
    /// The words that describe the error.
    pub open spec fn message(&self) -> Seq<char> {
        match self {
            ProcessError::FailedToCreateProcess => "failed to create process"@,
            ProcessError::FailedToMap(_) => "failed to map"@,
            ProcessError::ProgramError(s) => s@,
            ProcessError::NoSuchProcess => "no such process"@,
            ProcessError::QueueFull => "queue is full"@,
            ProcessError::QueueEmpty => "queue is empty"@,
            ProcessError::OutOfProcesses => "out of processes"@,
            ProcessError::FreeListOverflow => "free list overflow"@,
        }
    }

    /// The words that describe the error.
    pub fn to_str(&self) -> (s: &'static str)
        ensures
            s@ == self.message(),
    {
        match self {
            ProcessError::FailedToCreateProcess => "failed to create process",
            ProcessError::FailedToMap(_) => "failed to map",
            ProcessError::ProgramError(s) => s,
            ProcessError::NoSuchProcess => "no such process",
            ProcessError::QueueFull => "queue is full",
            ProcessError::QueueEmpty => "queue is empty",
            ProcessError::OutOfProcesses => "out of processes",
            ProcessError::FreeListOverflow => "free list overflow",
        }
    }
}

/// Identity of a process.
#[derive(Copy, Clone, PartialEq, Eq, Debug, Structural)]
pub struct Id(pub u32);

impl Id {
    /// The identity as a number.
    pub fn to_u32(self) -> (n: u32)
        ensures
            n == self.0,
    {
        self.0
    }
}

/// A word of data, with the process that sent it.
#[derive(Copy, Clone, Debug, PartialEq, Eq, Structural)]
pub struct Message {
    pub id: Id,
    pub data: u32,
}

/// What the platform does to run a process: make the address space rooted
/// in frame `ppn` the active one, then resume at `trap_frame`.
#[derive(Copy, Clone, Debug)]
pub struct ContextSwitch {
    pub ppn: u32,
    pub trap_frame: TrapFrame,
}

/// What the platform does to give a process its first mappings: copy the
/// directory of the page table in `template` into the page table in
/// `target`. The page tables are copied, not the pages.
#[derive(Copy, Clone, Debug, PartialEq, Eq, Structural)]
pub struct CloneDir {
    pub template: Frame,
    pub target: Frame,
}

/// One process slot.
pub struct Process {
    pub mapper: AddressSpace,
    pub id: Id,
    pub parent_id: Id,
    /// Place of the slot in the process table. The table sets it when it is
    /// built, and nothing changes it after that.
    pub index: usize,
    pub proc_type: Type,
    pub status: Status,
    pub trap_frame: TrapFrame,
    pub exit_code: u32,
    /// Whether `load_elf` maps each segment with the protection that its
    /// program header asks for. Where it is `false`, every segment is
    /// mapped readable, writable and executable.
    pub strict_segment_flags: bool,
    /// The messages that wait for the process.
    pub message_queue: MessageQueue,
}

impl Process {
    /// The messages that wait for this process, oldest first.
    pub open spec fn messages(&self) -> Seq<Message> {
        self.message_queue@
    }

    /// What holds of every process: its queue of messages is well formed.
    pub open spec fn wf(&self) -> bool {
        self.message_queue.wf()
    }

    /// Whether `self` is as `init(id, mapper)` leaves a slot.
    pub open spec fn is_fresh(&self, id: Id, mapper: AddressSpace) -> bool {
        &&& self.wf()
        &&& self.mapper == mapper
        &&& self.id == id
        &&& self.parent_id == id
        &&& self.proc_type == Type::User
        &&& self.status == Status::Free
        &&& self.trap_frame.pc == 0
        &&& self.trap_frame.regs@ == TrapFrame::initial_regs(0)
        &&& !self.strict_segment_flags
        &&& self.messages() == Seq::<Message>::empty()
        &&& self.message_queue.places() == Seq::new(
            QUEUE_CAPACITY as nat,
            |i: int| Message { id, data: 0 },
        )
    }

    /// A slot at place `index` of the table, reset for `id`.
    pub fn new(index: usize, id: Id, mapper: AddressSpace) -> (p: Process)
        ensures
            p.is_fresh(id, mapper),
            p.index == index,
            p.exit_code == 0,
    {
        Process {
            mapper,
            id,
            parent_id: id,
            index,
            proc_type: Type::User,
            status: Status::Free,
            trap_frame: TrapFrame::new(0, 0),
            exit_code: 0,
            strict_segment_flags: false,
            message_queue: MessageQueue::new(Message { id, data: 0 }),
        }
    }

    /// Resets the slot for the process `id` with the address space `mapper`.
    pub fn init(&mut self, id: Id, mapper: AddressSpace)
        ensures
            final(self).is_fresh(id, mapper),
            final(self).index == old(self).index,
            final(self).exit_code == old(self).exit_code,
    {
        self.mapper = mapper;
        self.id = id;
        self.parent_id = id;
        self.proc_type = Type::User;
        self.status = Status::Free;
        self.trap_frame = TrapFrame::new(0, 0);
        self.strict_segment_flags = false;
        self.message_queue = MessageQueue::new(Message { id, data: 0 });
    }

    /// Sets the place of the slot in the process table. The table does so
    /// when it is built.
    pub fn set_index(&mut self, index: usize)
        ensures
            *final(self) == (Process { index, ..*old(self) }),
    {
        self.index = index;
    }

    /// Says what the platform does to give this process the mappings of
    /// the address space `mapper`.
    pub fn create(&self, mapper: &AddressSpace) -> (r: Result<CloneDir, ProcessError>)
        ensures
            r matches Ok(clone) && clone == (CloneDir {
                template: mapper.dir,
                target: self.mapper.dir,
            }),
    {
        Ok(CloneDir { template: mapper.dir, target: self.mapper.dir })
    }

    /// Number of the frame that holds the root page table of the process.
    pub fn ppn(&self) -> (ppn: u32)
        ensures
            ppn == self.mapper.dir.0,
    {
        self.mapper.ppn()
    }

    /// Sets the context in which the process resumes.
    pub fn set_trap_frame(&mut self, tf: TrapFrame)
        ensures
            *final(self) == (Process { trap_frame: tf, ..*old(self) }),
    {
        self.trap_frame = tf;
    }

    /// Marks the process as running and says what the platform does to
    /// run it. The platform does not come back from that.
    pub fn run(&mut self) -> (switch: ContextSwitch)
        ensures
            *final(self) == (Process { status: Status::Running, ..*old(self) }),
            switch.ppn == old(self).mapper.dir.0,
            switch.trap_frame == old(self).trap_frame,
    {
        self.status = Status::Running;
        ContextSwitch { ppn: self.ppn(), trap_frame: self.trap_frame }
    }

    /// Ends the process with `exit_code`. Its memory and its slot stay as
    /// they are.
    pub fn exit(&mut self, exit_code: u32)
        ensures
            *final(self) == (Process { status: Status::Zombie, exit_code, ..*old(self) }),
    {
        self.status = Status::Zombie;
        self.exit_code = exit_code;
    }

    /// Appends the word `data` from the process `id` to the queue, unless
    /// the queue is full.
    pub fn enqueue_message(&mut self, id: Id, data: u32) -> (r: Result<(), ProcessError>)
        requires
            old(self).wf(),
        ensures
            final(self).wf(),
            final(self).same_but_messages(old(self)),
            final(self).messages() == enqueued(old(self).messages(), Message { id, data }),
            has_room(old(self).messages()) ==> r is Ok,
            !has_room(old(self).messages()) ==> (r matches Err(ProcessError::QueueFull)),
    {
        match self.message_queue.enqueue(Message { id, data }) {
            Ok(()) => Ok(()),
            Err(QueueError::Full) => Err(ProcessError::QueueFull),
            Err(QueueError::Empty) => Err(ProcessError::QueueEmpty),
        }
    }

    /// Takes the oldest message out of the queue, unless the queue is
    /// empty.
    pub fn dequeue_message(&mut self) -> (r: Result<Message, ProcessError>)
        requires
            old(self).wf(),
        ensures
            final(self).wf(),
            final(self).same_but_messages(old(self)),
            final(self).messages() == dequeued(old(self).messages()),
            old(self).messages().len() > 0 ==> (r matches Ok(m) && m == old(self).messages()[0]),
            old(self).messages().len() == 0 ==> (r matches Err(ProcessError::QueueEmpty)),
    {
        match self.message_queue.dequeue() {
            Ok(x) => Ok(x),
            Err(QueueError::Full) => Err(ProcessError::QueueFull),
            Err(QueueError::Empty) => Err(ProcessError::QueueEmpty),
        }
    }

    /// Whether `self` and `other` differ in their messages at most.
    pub open spec fn same_but_messages(&self, other: &Process) -> bool {
        *self == (Process { message_queue: self.message_queue, ..*other })
    }
}

} // verus!
