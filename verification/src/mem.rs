//! Addresses, pages, frames and protection flags of the 32-bit virtual
//! address space, as plain values.

use vstd::prelude::*;
use vstd::arithmetic::div_mod::lemma_fundamental_div_mod;
use vstd::arithmetic::div_mod::lemma_fundamental_div_mod_converse;

verus! {

/// Bytes in one page, and in one frame.
pub const PGSIZE: usize = 4096;

/// Number of pages in the virtual address space.
pub const N_PAGES: u32 = 0x10_0000;

/// Lowest address of the region that holds a user program's stack.
pub const USER_STACK_TOP: u32 = 0x7fff_0000;

/// Bytes in the user stack region.
pub const USER_STACK_SIZE: u32 = 0x1_0000;

/// A set of page protection bits.
#[derive(Copy, Clone, Debug, PartialEq, Eq, Structural)]
pub struct Flag {
    pub valid: bool,
    pub read: bool,
    pub write: bool,
    pub execute: bool,
    pub user: bool,
}

impl Flag {
    /// The set that holds what `self` or `other` holds.
    pub open spec fn spec_union(self, other: Flag) -> Flag {
        Flag {
            valid: self.valid || other.valid,
            read: self.read || other.read,
            write: self.write || other.write,
            execute: self.execute || other.execute,
            user: self.user || other.user,
        }
    }

    /// The set that holds what `self` holds, and `valid`.
    pub open spec fn spec_with_valid(self) -> Flag {
        self.spec_union(Flag { valid: true, read: false, write: false, execute: false, user: false })
    }

    /// The set that holds what `self` holds, and `valid`.
    #[verifier::when_used_as_spec(spec_with_valid)]
    pub fn with_valid(self) -> (r: Flag)
        ensures
            r == self.spec_with_valid(),
            r.valid,
    {
        self.union(Flag { valid: true, read: false, write: false, execute: false, user: false })
    }

    /// The set that holds what `self` or `other` holds.
    #[verifier::when_used_as_spec(spec_union)]
    pub fn union(self, other: Flag) -> (r: Flag)
        ensures
            r == self.spec_union(other),
    {
        Flag {
            valid: self.valid || other.valid,
            read: self.read || other.read,
            write: self.write || other.write,
            execute: self.execute || other.execute,
            user: self.user || other.user,
        }
    }
}

/// A virtual address.
#[derive(Copy, Clone, Debug, PartialEq, Eq, Structural)]
pub struct VirtAddr(pub u32);

impl VirtAddr {
    /// The virtual address `addr`.
    pub fn new(addr: u32) -> (va: VirtAddr)
        ensures
            va == VirtAddr(addr),
    {
        VirtAddr(addr)
    }

    /// The address as a number.
    pub fn to_u32(self) -> (addr: u32)
        ensures
            addr == self.0,
    {
        self.0
    }

    /// The page that holds this address.
    pub open spec fn spec_page(self) -> Page {
        Page((self.0 / 4096) as u32)
    }

    /// The page that holds this address.
    #[verifier::when_used_as_spec(spec_page)]
    pub fn page(self) -> (page: Page)
        ensures
            page == self.spec_page(),
            page.0 < N_PAGES,
    {
        Page(self.0 / 4096)
    }
}

/// A physical address.
#[derive(Copy, Clone, Debug, PartialEq, Eq, Structural)]
pub struct PhysAddr(pub u64);

impl PhysAddr {
    /// The physical address `addr`.
    pub fn new(addr: u64) -> (pa: PhysAddr)
        ensures
            pa == PhysAddr(addr),
    {
        PhysAddr(addr)
    }
}

/// A page of virtual memory, by its number: the page's first address
/// divided by the page size.
#[derive(Copy, Clone, Debug, PartialEq, Eq, Structural)]
pub struct Page(pub u32);

/// A frame of physical memory, by its number.
#[derive(Copy, Clone, Debug, PartialEq, Eq, Structural)]
pub struct Frame(pub u32);

/// Why a page could not be mapped.
#[derive(Copy, Clone, Debug, PartialEq, Eq, Structural)]
pub enum PageError {
    /// The frame allocator has no frame left.
    OutOfMemory,
    /// The page table did not take the mapping.
    MapFailed,
    /// The region does not end inside the virtual address space.
    OutOfRange,
}

/// Handle of one address space: the frame of its root page table and the
/// frame of the scratch table it uses for temporary mappings.
#[derive(Copy, Clone, Debug, PartialEq, Eq, Structural)]
pub struct AddressSpace {
    pub dir: Frame,
    pub tmp: Frame,
}

impl AddressSpace {
    /// The address space whose root page table is in `dir` and whose
    /// scratch table is in `tmp`.
    pub fn new(dir: Frame, tmp: Frame) -> (space: AddressSpace)
        ensures
            space == (AddressSpace { dir, tmp }),
    {
        AddressSpace { dir, tmp }
    }

    /// Number of the frame that holds the root page table.
    pub fn ppn(&self) -> (ppn: u32)
        ensures
            ppn == self.dir.0,
    {
        self.dir.0
    }
}

/// Number of pages that `size` bytes take: `size / PGSIZE`, rounded up.
pub open spec fn spec_page_count(size: int) -> int {
    (size + PGSIZE - 1) / (PGSIZE as int)
}

/// Number of pages that `size` bytes take.
pub fn page_count(size: usize) -> (n: usize)
    ensures
        n == spec_page_count(size as int),
        n * PGSIZE >= size,
        n * PGSIZE < size + PGSIZE,
{
    if size % PGSIZE == 0 {
        size / PGSIZE
    } else {
        size / PGSIZE + 1
    }
}

/// The least multiple of `align` that is not below `value`.
pub open spec fn spec_round_up(value: int, align: int) -> int {
    ((value + align - 1) / align) * align
}

/// Rounds `value` up to a multiple of `align`.
pub fn round_up(value: u64, align: u64) -> (r: u64)
    requires
        align > 0,
        value + align - 1 <= u64::MAX,
    ensures
        r == spec_round_up(value as int, align as int),
        r % align == 0,
        value <= r < value + align,
{
    let q: u64 = (value + (align - 1)) / align;
    proof {
        let s: int = value + align - 1;
        let a: int = align as int;
        lemma_fundamental_div_mod(s, a);
        assert(0 <= s % a < a);
        assert(a * (s / a) == s - s % a);
        assert((s / a) * a == a * (s / a)) by (nonlinear_arith);
        lemma_fundamental_div_mod_converse((s / a) * a, a, s / a, 0);
    }
    q * align
}

} // verus!
