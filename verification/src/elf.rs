//! Reader for 32-bit little-endian ELF images: the file header and the
//! program header table.

use vstd::prelude::*;
use vstd::slice::slice_subrange;
use crate::mem::{Flag, PhysAddr, VirtAddr};

verus! {

/// The first four bytes of every ELF image, read as a little-endian word.
pub const ELF_MAGIC: u32 = 0x464c457f;

/// Bytes in the file header.
pub const ELF_HEADER_SIZE: usize = 52;

/// Bytes in one program header.
pub const PROGRAM_HEADER_SIZE: usize = 32;

/// Why a slice of bytes is not taken for an ELF image.
#[derive(Debug, Copy, Clone, PartialEq, Eq, Structural)]
pub enum ElfError {
    /// The image does not start with the four magic bytes.
    InvalidMagic,
    /// The image starts with the magic bytes, but it ends before its file
    /// header, one of its program headers or the file bytes of one of its
    /// segments does, or a segment holds more bytes in the file than in
    /// memory.
    Malformed,
}

/// The file header of a 32-bit ELF image.
#[derive(Debug, Copy, Clone)]
pub struct ElfHeader {
    pub magic: u32,
    pub elf: [u8; 12],
    pub etype: u16,
    pub machine: u16,
    pub version: u32,
    pub entry: u32,
    pub phoff: u32,
    pub shoff: u32,
    pub flags: u32,
    pub size: u16,
    pub phentsize: u16,
    pub phnum: u16,
    pub shentsize: u16,
    pub shnum: u16,
    pub shstrndx: u16,
}

/// One entry of the program header table.
#[derive(Debug, Copy, Clone, PartialEq, Eq, Structural)]
pub struct ProgramHeader {
    pub ptype: u32,
    pub offset: u32,
    pub va: u32,
    pub pa: u32,
    pub filesz: u32,
    pub memsz: u32,
    pub flags: u32,
    pub align: u32,
}

/// The 16-bit little-endian number at `bytes[at..at + 2]`.
pub open spec fn spec_u16_le(bytes: Seq<u8>, at: int) -> u16 {
    (bytes[at] as int + bytes[at + 1] as int * 0x100) as u16
}

/// The 32-bit little-endian number at `bytes[at..at + 4]`.
pub open spec fn spec_u32_le(bytes: Seq<u8>, at: int) -> u32 {
    (bytes[at] as int + bytes[at + 1] as int * 0x100 + bytes[at + 2] as int * 0x1_0000 + bytes[at
        + 3] as int * 0x100_0000) as u32
}

fn u16_le(bytes: &[u8], at: usize) -> (r: u16)
    requires
        at + 2 <= bytes.len(),
    ensures
        r == spec_u16_le(bytes@, at as int),
{
    let b0: u16 = bytes[at] as u16;
    let b1: u16 = bytes[at + 1] as u16;
    b0 + b1 * 0x100
}

fn u32_le(bytes: &[u8], at: usize) -> (r: u32)
    requires
        at + 4 <= bytes.len(),
    ensures
        r == spec_u32_le(bytes@, at as int),
{
    let b0: u32 = bytes[at] as u32;
    let b1: u32 = bytes[at + 1] as u32;
    let b2: u32 = bytes[at + 2] as u32;
    let b3: u32 = bytes[at + 3] as u32;
    b0 + b1 * 0x100 + b2 * 0x1_0000 + b3 * 0x100_0000
}

/// Whether `bytes` starts with the ELF magic.
pub open spec fn has_magic(bytes: Seq<u8>) -> bool {
    bytes.len() >= 4 && spec_u32_le(bytes, 0) == ELF_MAGIC
}

/// Whether `header` holds the fields of the file header at the start of
/// `bytes`.
pub open spec fn is_header_of(header: ElfHeader, bytes: Seq<u8>) -> bool {
    &&& header.magic == spec_u32_le(bytes, 0)
    &&& header.elf@ == bytes.subrange(4, 16)
    &&& header.etype == spec_u16_le(bytes, 16)
    &&& header.machine == spec_u16_le(bytes, 18)
    &&& header.version == spec_u32_le(bytes, 20)
    &&& header.entry == spec_u32_le(bytes, 24)
    &&& header.phoff == spec_u32_le(bytes, 28)
    &&& header.shoff == spec_u32_le(bytes, 32)
    &&& header.flags == spec_u32_le(bytes, 36)
    &&& header.size == spec_u16_le(bytes, 40)
    &&& header.phentsize == spec_u16_le(bytes, 42)
    &&& header.phnum == spec_u16_le(bytes, 44)
    &&& header.shentsize == spec_u16_le(bytes, 46)
    &&& header.shnum == spec_u16_le(bytes, 48)
    &&& header.shstrndx == spec_u16_le(bytes, 50)
}

/// The program header whose first byte is `bytes[at]`.
pub open spec fn program_header_at(bytes: Seq<u8>, at: int) -> ProgramHeader {
    ProgramHeader {
        ptype: spec_u32_le(bytes, at),
        offset: spec_u32_le(bytes, at + 4),
        va: spec_u32_le(bytes, at + 8),
        pa: spec_u32_le(bytes, at + 12),
        filesz: spec_u32_le(bytes, at + 16),
        memsz: spec_u32_le(bytes, at + 20),
        flags: spec_u32_le(bytes, at + 24),
        align: spec_u32_le(bytes, at + 28),
    }
}

/// Number of program headers that the file header of `bytes` announces.
pub open spec fn program_count(bytes: Seq<u8>) -> int {
    spec_u16_le(bytes, 44) as int
}

/// Where program header `i` of `bytes` starts.
pub open spec fn program_header_offset(bytes: Seq<u8>, i: int) -> int {
    spec_u32_le(bytes, 28) + i * spec_u16_le(bytes, 42)
}

/// Program header `i` of `bytes`.
pub open spec fn program_header(bytes: Seq<u8>, i: int) -> ProgramHeader {
    program_header_at(bytes, program_header_offset(bytes, i))
}

/// Whether program header `i` lies inside `bytes`, the file bytes of its
/// segment do too, and they are not more than the segment takes in memory.
pub open spec fn segment_fits(bytes: Seq<u8>, i: int) -> bool {
    &&& program_header_offset(bytes, i) + PROGRAM_HEADER_SIZE <= bytes.len()
    &&& program_header(bytes, i).offset + program_header(bytes, i).filesz <= bytes.len()
    &&& program_header(bytes, i).filesz <= program_header(bytes, i).memsz
}

/// Whether `bytes` holds a whole file header and every segment it announces
/// fits.
pub open spec fn well_formed(bytes: Seq<u8>) -> bool {
    &&& bytes.len() >= ELF_HEADER_SIZE
    &&& forall|i: int| 0 <= i < program_count(bytes) ==> segment_fits(bytes, i)
}

/// The protection that the flag word of a program header asks for: bit 0
/// for execute, bit 1 for write, bit 2 for read, on a page that is present.
pub open spec fn elf_flag(flags: u32) -> Flag {
    Flag {
        valid: true,
        read: (flags >> 2) & 1 == 1,
        write: (flags >> 1) & 1 == 1,
        execute: flags & 1 == 1,
        user: false,
    }
}

/// Decodes the flag word of a program header.
pub fn parse_elf_flag(flags: u32) -> (flag: Flag)
    ensures
        flag == elf_flag(flags),
{
    let mut flag = Flag { valid: true, read: false, write: false, execute: false, user: false };
    if flags & 1 == 1 {
        flag.execute = true;
    }
    if (flags >> 1) & 1 == 1 {
        flag.write = true;
    }
    if (flags >> 2) & 1 == 1 {
        flag.read = true;
    }
    flag
}

fn read_header(bytes: &[u8]) -> (header: ElfHeader)
    requires
        bytes.len() >= ELF_HEADER_SIZE,
    ensures
        is_header_of(header, bytes@),
{
    let ident: [u8; 12] = [
        bytes[4],
        bytes[5],
        bytes[6],
        bytes[7],
        bytes[8],
        bytes[9],
        bytes[10],
        bytes[11],
        bytes[12],
        bytes[13],
        bytes[14],
        bytes[15],
    ];
    assert(ident@ =~= bytes@.subrange(4, 16));
    ElfHeader {
        magic: u32_le(bytes, 0),
        elf: ident,
        etype: u16_le(bytes, 16),
        machine: u16_le(bytes, 18),
        version: u32_le(bytes, 20),
        entry: u32_le(bytes, 24),
        phoff: u32_le(bytes, 28),
        shoff: u32_le(bytes, 32),
        flags: u32_le(bytes, 36),
        size: u16_le(bytes, 40),
        phentsize: u16_le(bytes, 42),
        phnum: u16_le(bytes, 44),
        shentsize: u16_le(bytes, 46),
        shnum: u16_le(bytes, 48),
        shstrndx: u16_le(bytes, 50),
    }
}

fn read_program_header(bytes: &[u8], at: usize) -> (ph: ProgramHeader)
    requires
        at + PROGRAM_HEADER_SIZE <= bytes.len(),
    ensures
        ph == program_header_at(bytes@, at as int),
{
    ProgramHeader {
        ptype: u32_le(bytes, at),
        offset: u32_le(bytes, at + 4),
        va: u32_le(bytes, at + 8),
        pa: u32_le(bytes, at + 12),
        filesz: u32_le(bytes, at + 16),
        memsz: u32_le(bytes, at + 20),
        flags: u32_le(bytes, at + 24),
        align: u32_le(bytes, at + 28),
    }
}

/// A parsed ELF image: the bytes of the file and its file header.
pub struct Elf<'a> {
    bytes: &'a [u8],
    elf: ElfHeader,
}

/// One segment of an ELF image, as its program header describes it.
pub struct Program<'a> {
    pub virt_addr: VirtAddr,
    pub mem_size: usize,
    pub phys_addr: PhysAddr,
    pub flag: Flag,
    pub data: &'a [u8],
    pub file_size: usize,
}

impl<'a> Program<'a> {
    /// What holds of every segment: its file bytes are `file_size` many,
    /// not more than the segment takes in memory.
    pub open spec fn wf(&self) -> bool {
        &&& self.data@.len() == self.file_size
        &&& self.file_size <= self.mem_size
        &&& self.mem_size <= u32::MAX
    }
}

/// Whether `program` is the segment that `header` describes in `bytes`.
pub open spec fn is_segment_of(program: Program, bytes: Seq<u8>, header: ProgramHeader) -> bool {
    &&& program.virt_addr == VirtAddr(header.va)
    &&& program.mem_size == header.memsz
    &&& program.phys_addr == PhysAddr(header.pa as u64)
    &&& program.flag == elf_flag(header.flags)
    &&& program.data@ == bytes.subrange(
        header.offset as int,
        header.offset + header.filesz,
    )
    &&& program.file_size == header.filesz
}

/// The data of a segment is as long as the segment is in the file, and it
/// is what the image holds from the segment's offset on.
pub proof fn lemma_segment_data(program: Program, bytes: Seq<u8>, header: ProgramHeader)
    requires
        is_segment_of(program, bytes, header),
        header.offset + header.filesz <= bytes.len(),
    ensures
        program.data@.len() == program.file_size,
        forall|k: int|
            0 <= k < program.file_size ==> #[trigger] program.data@[k] == bytes[header.offset + k],
{
}

/// A walk over the segments of an ELF image, in the order of the program
/// header table.
pub struct Programs<'a> {
    data: &'a [u8],
    elf: ElfHeader,
    i: usize,
}

/// Where program header `i` starts.
fn program_header_start(bytes: &[u8], header: &ElfHeader, i: usize) -> (at: u64)
    requires
        is_header_of(*header, bytes@),
        i < header.phnum,
    ensures
        at == program_header_offset(bytes@, i as int),
        at <= 0xffff_ffff + 0xffff * 0xffff,
{
    assert(0 <= i * header.phentsize <= 0xffff * 0xffff) by (nonlinear_arith)
        requires
            0 <= i <= 0xffff,
            0 <= header.phentsize <= 0xffff,
    ;
    let step: u64 = (i as u64) * (header.phentsize as u64);
    header.phoff as u64 + step
}

/// Whether segment `i` of `bytes` fits.
fn check_segment(bytes: &[u8], header: &ElfHeader, i: usize) -> (fits: bool)
    requires
        bytes.len() >= ELF_HEADER_SIZE,
        is_header_of(*header, bytes@),
        i < header.phnum,
    ensures
        fits == segment_fits(bytes@, i as int),
{
    let at: u64 = program_header_start(bytes, header, i);
    if at + (PROGRAM_HEADER_SIZE as u64) <= bytes.len() as u64 {
        let ph = read_program_header(bytes, at as usize);
        ph.offset as u64 + ph.filesz as u64 <= bytes.len() as u64 && ph.filesz <= ph.memsz
    } else {
        false
    }
}

impl<'a> Elf<'a> {
    /// The bytes of the image.
    pub closed spec fn image(&self) -> Seq<u8> {
        self.bytes@
    }

    /// The file header of the image.
    pub closed spec fn spec_header(&self) -> ElfHeader {
        self.elf
    }

    /// What holds of every `Elf`: the image starts with the magic, is well
    /// formed, and the header is the one at its start.
    pub closed spec fn wf(&self) -> bool {
        &&& has_magic(self.bytes@)
        &&& well_formed(self.bytes@)
        &&& is_header_of(self.elf, self.bytes@)
    }

    /// What `wf` says of the image and the header.
    pub proof fn lemma_wf(&self)
        requires
            self.wf(),
        ensures
            has_magic(self.image()),
            well_formed(self.image()),
            is_header_of(self.spec_header(), self.image()),
    {
    }

    /// Parses `bytes` as an ELF image. Of the file header only the magic is
    /// checked; of the program headers, that each segment fits.
    pub fn new(bytes: &'a [u8]) -> (r: Result<Elf<'a>, ElfError>)
        ensures
            r is Ok <==> has_magic(bytes@) && well_formed(bytes@),
            r == Err::<Elf<'a>, ElfError>(ElfError::InvalidMagic) <==> !has_magic(bytes@),
            r == Err::<Elf<'a>, ElfError>(ElfError::Malformed) <==> has_magic(bytes@)
                && !well_formed(bytes@),
            r matches Ok(elf) ==> elf.wf() && elf.image() == bytes@ && is_header_of(
                elf.spec_header(),
                bytes@,
            ),
    {
        if bytes.len() < 4 || u32_le(bytes, 0) != ELF_MAGIC {
            return Err(ElfError::InvalidMagic);
        }
        if bytes.len() < ELF_HEADER_SIZE {
            return Err(ElfError::Malformed);
        }
        let header = read_header(bytes);
        let n: usize = header.phnum as usize;
        let mut i: usize = 0;
        while i < n
            invariant
                i <= n,
                n == header.phnum,
                bytes.len() >= ELF_HEADER_SIZE,
                has_magic(bytes@),
                is_header_of(header, bytes@),
                forall|j: int| 0 <= j < i ==> segment_fits(bytes@, j),
            decreases n - i,
        {
            if !check_segment(bytes, &header, i) {
                assert(!segment_fits(bytes@, i as int));
                return Err(ElfError::Malformed);
            }
            i += 1;
        }
        Ok(Elf { bytes, elf: header })
    }

    /// The file header.
    pub fn header(&self) -> (header: &ElfHeader)
        ensures
            *header == self.spec_header(),
    {
        &self.elf
    }

    /// A walk over the segments, from the first.
    pub fn programs(&self) -> (programs: Programs<'a>)
        requires
            self.wf(),
        ensures
            programs.wf(),
            programs.image() == self.image(),
            programs.position() == 0,
    {
        Programs { data: self.bytes, elf: self.elf, i: 0 }
    }
}

impl<'a> Programs<'a> {
    /// The bytes of the image that is walked.
    pub closed spec fn image(&self) -> Seq<u8> {
        self.data@
    }

    /// Number of segments that were handed out.
    pub closed spec fn position(&self) -> int {
        self.i as int
    }

    /// What holds of every walk: the image is well formed, and the walk has
    /// not gone beyond its last segment.
    pub closed spec fn wf(&self) -> bool {
        &&& well_formed(self.data@)
        &&& is_header_of(self.elf, self.data@)
        &&& self.i <= self.elf.phnum
    }

    /// The next segment, or `None` after the last.
    pub fn next(&mut self) -> (r: Option<Program<'a>>)
        requires
            old(self).wf(),
        ensures
            final(self).wf(),
            final(self).image() == old(self).image(),
            r is Some <==> old(self).position() < program_count(old(self).image()),
            r is None ==> final(self).position() == old(self).position(),
            r matches Some(program) ==> final(self).position() == old(self).position() + 1
                && program.wf() && is_segment_of(
                program,
                old(self).image(),
                program_header(old(self).image(), old(self).position()),
            ),
    {
        if self.i < self.elf.phnum as usize {
            assert(segment_fits(self.data@, self.i as int));
            assert(self.data.len() == self.data@.len());
            let at: u64 = program_header_start(self.data, &self.elf, self.i);
            let item = read_program_header(self.data, at as usize);
            self.i += 1;
            let end: u64 = item.offset as u64 + item.filesz as u64;
            let data = slice_subrange(self.data, item.offset as usize, end as usize);
            Some(
                Program {
                    virt_addr: VirtAddr::new(item.va),
                    phys_addr: PhysAddr::new(item.pa as u64),
                    mem_size: item.memsz as usize,
                    file_size: item.filesz as usize,
                    flag: parse_elf_flag(item.flags),
                    data,
                },
            )
        } else {
            None
        }
    }
}

} // verus!
