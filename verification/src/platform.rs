//! What the process core asks of the platform, and what the platform
//! answers.
//!
//! The core touches neither page tables nor frames nor the register that
//! names the active address space. It says what is to be done, one
//! `Request` at a time, and the platform says how it went, in a `Reply`.
//! To switch the active address space is to be done with interrupts off.

use vstd::prelude::*;
use crate::mem::{Flag, Frame, Page, PageError, VirtAddr};
use crate::proc::ProcessError;

verus! {

/// What the platform is asked to do.
#[derive(Copy, Clone, Debug)]
pub enum Request<'a> {
    /// Make the address space rooted in frame `ppn` the active one, and
    /// report the root frame of the one that was active.
    Activate { ppn: u32 },
    /// Take one frame from the frame allocator.
    AllocFrame,
    /// Map `page` to `frame` with the protection `flag`, in the active
    /// address space.
    MapPage { page: Page, frame: Frame, flag: Flag },
    /// Fill the `size` bytes at `va` with zero, then copy `data` to their
    /// start.
    Fill { va: VirtAddr, size: u64, data: &'a [u8] },
    /// Make the address space rooted in frame `ppn` the active one again.
    Restore { ppn: u32 },
    /// Nothing: the operation has ended, with this result.
    Done(Result<(), ProcessError>),
}

/// What the platform reports of the request it has carried out.
#[derive(Copy, Clone, Debug)]
pub enum Reply {
    /// The address space is active; `previous` is the root frame of the one
    /// that was.
    Activated { previous: u32 },
    /// The frame that the allocator gave, or why it gave none.
    Frame(Result<Frame, PageError>),
    /// Whether the page table took the mapping.
    Mapped(Result<(), PageError>),
    /// The bytes are in place.
    Filled,
    /// The earlier address space is active again.
    Restored,
}

} // verus!
