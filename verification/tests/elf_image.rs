use kernel::elf::{parse_elf_flag, Elf, ElfError, ELF_HEADER_SIZE, ELF_MAGIC, PROGRAM_HEADER_SIZE};
use kernel::mem::{Flag, PhysAddr, VirtAddr};

fn put16(image: &mut Vec<u8>, value: u16) {
    image.extend_from_slice(&value.to_le_bytes());
}

fn put32(image: &mut Vec<u8>, value: u32) {
    image.extend_from_slice(&value.to_le_bytes());
}

/// A file header with the given program header table, and nothing after it.
fn file_header(phoff: u32, phentsize: u16, phnum: u16) -> Vec<u8> {
    let mut image = vec![0x7f, b'E', b'L', b'F'];
    image.extend_from_slice(&[1, 1, 1, 0, 0, 0, 0, 0, 0, 0, 0, 0]);
    put16(&mut image, 2);
    put16(&mut image, 0xf3);
    put32(&mut image, 1);
    put32(&mut image, 0x0001_0074);
    put32(&mut image, phoff);
    put32(&mut image, 0x1234);
    put32(&mut image, 0x5);
    put16(&mut image, 52);
    put16(&mut image, phentsize);
    put16(&mut image, phnum);
    put16(&mut image, 40);
    put16(&mut image, 7);
    put16(&mut image, 6);
    assert_eq!(image.len(), 52);
    image
}

fn put_program_header(
    image: &mut Vec<u8>,
    offset: u32,
    va: u32,
    pa: u32,
    filesz: u32,
    memsz: u32,
    flags: u32,
) {
    put32(image, 1);
    put32(image, offset);
    put32(image, va);
    put32(image, pa);
    put32(image, filesz);
    put32(image, memsz);
    put32(image, flags);
    put32(image, 0x1000);
}

/// Three segments behind a table at offset 52 with entries of 32 bytes.
fn three_segments() -> Vec<u8> {
    let mut image = file_header(52, 32, 3);
    put_program_header(&mut image, 148, 0x0001_0000, 0x8001_0000, 4, 0x1000, 5);
    put_program_header(&mut image, 152, 0x0002_0000, 0x8002_0000, 6, 0x2000, 6);
    put_program_header(&mut image, 158, 0x0003_0000, 0x8003_0000, 0, 0x10, 4);
    assert_eq!(image.len(), 148);
    image.extend_from_slice(&[0xa0, 0xa1, 0xa2, 0xa3]);
    image.extend_from_slice(&[0xb0, 0xb1, 0xb2, 0xb3, 0xb4, 0xb5]);
    image
}

fn flag(valid: bool, read: bool, write: bool, execute: bool, user: bool) -> Flag {
    Flag { valid, read, write, execute, user }
}

#[test]
fn sizes_of_the_headers() {
    assert_eq!(ELF_HEADER_SIZE, 52);
    assert_eq!(PROGRAM_HEADER_SIZE, 32);
    assert_eq!(ELF_MAGIC.to_le_bytes(), [0x7f, b'E', b'L', b'F']);
}

#[test]
fn parse_accepts_the_magic_with_a_whole_header() {
    let image = file_header(0, 0, 0);
    assert!(Elf::new(&image).is_ok());
}

#[test]
fn parse_takes_any_class_machine_and_version() {
    let mut image = file_header(0, 0, 0);
    for byte in image[4..24].iter_mut() {
        *byte = 0xee;
    }
    assert!(Elf::new(&image).is_ok());
}

#[test]
fn parse_rejects_another_prefix() {
    let mut image = file_header(0, 0, 0);
    image[0] = 0x7e;
    assert!(matches!(Elf::new(&image), Err(ElfError::InvalidMagic)));
    let mut image = file_header(0, 0, 0);
    image[3] = b'G';
    assert!(matches!(Elf::new(&image), Err(ElfError::InvalidMagic)));
    let image = vec![0u8; 64];
    assert!(matches!(Elf::new(&image), Err(ElfError::InvalidMagic)));
}

#[test]
fn parse_rejects_less_than_four_bytes() {
    assert!(matches!(Elf::new(&[]), Err(ElfError::InvalidMagic)));
    assert!(matches!(Elf::new(&[0x7f, b'E', b'L']), Err(ElfError::InvalidMagic)));
}

#[test]
fn parse_rejects_a_header_cut_short() {
    let image = file_header(0, 0, 0);
    assert!(matches!(Elf::new(&image[..4]), Err(ElfError::Malformed)));
    assert!(matches!(Elf::new(&image[..51]), Err(ElfError::Malformed)));
    assert!(Elf::new(&image[..52]).is_ok());
}

#[test]
fn parse_rejects_a_program_header_beyond_the_image() {
    let mut image = file_header(52, 32, 1);
    put_program_header(&mut image, 0, 0x1000, 0, 0, 0, 0);
    assert!(Elf::new(&image).is_ok());
    assert!(matches!(Elf::new(&image[..83]), Err(ElfError::Malformed)));
    let far = file_header(0xffff_fff0, 0xffff, 0xffff);
    assert!(matches!(Elf::new(&far), Err(ElfError::Malformed)));
}

#[test]
fn parse_rejects_file_bytes_beyond_the_image() {
    let mut image = file_header(52, 32, 1);
    put_program_header(&mut image, 80, 0x1000, 0, 5, 0x1000, 0);
    assert_eq!(image.len(), 84);
    assert!(matches!(Elf::new(&image), Err(ElfError::Malformed)));
    image.push(0);
    assert!(Elf::new(&image).is_ok());
    let mut wide = file_header(52, 32, 1);
    put_program_header(&mut wide, 0xffff_ffff, 0x1000, 0, 0xffff_ffff, 0xffff_ffff, 0);
    assert!(matches!(Elf::new(&wide), Err(ElfError::Malformed)));
}

#[test]
fn parse_rejects_more_file_bytes_than_memory() {
    let mut image = file_header(52, 32, 1);
    put_program_header(&mut image, 0, 0x1000, 0, 9, 8, 0);
    assert!(matches!(Elf::new(&image), Err(ElfError::Malformed)));
    let mut image = file_header(52, 32, 1);
    put_program_header(&mut image, 0, 0x1000, 0, 8, 8, 0);
    assert!(Elf::new(&image).is_ok());
}

#[test]
fn header_fields_are_little_endian() {
    let image = three_segments();
    let elf = Elf::new(&image).unwrap();
    let header = elf.header();
    assert_eq!(header.magic, 0x464c_457f);
    assert_eq!(header.elf, [1, 1, 1, 0, 0, 0, 0, 0, 0, 0, 0, 0]);
    assert_eq!(header.etype, 2);
    assert_eq!(header.machine, 0xf3);
    assert_eq!(header.version, 1);
    assert_eq!(header.entry, 0x0001_0074);
    assert_eq!(header.phoff, 52);
    assert_eq!(header.shoff, 0x1234);
    assert_eq!(header.flags, 5);
    assert_eq!(header.size, 52);
    assert_eq!(header.phentsize, 32);
    assert_eq!(header.phnum, 3);
    assert_eq!(header.shentsize, 40);
    assert_eq!(header.shnum, 7);
    assert_eq!(header.shstrndx, 6);
}

#[test]
fn programs_yields_three_segments_in_header_order() {
    let image = three_segments();
    let elf = Elf::new(&image).unwrap();
    let mut programs = elf.programs();

    let first = programs.next().unwrap();
    assert_eq!(first.virt_addr, VirtAddr(0x0001_0000));
    assert_eq!(first.phys_addr, PhysAddr(0x8001_0000));
    assert_eq!(first.mem_size, 0x1000);
    assert_eq!(first.file_size, 4);
    assert_eq!(first.data.len(), 4);
    assert_eq!(first.data[0], image[148]);
    assert_eq!(first.data, &[0xa0, 0xa1, 0xa2, 0xa3]);
    assert_eq!(first.flag, flag(true, true, false, true, false));

    let second = programs.next().unwrap();
    assert_eq!(second.virt_addr, VirtAddr(0x0002_0000));
    assert_eq!(second.phys_addr, PhysAddr(0x8002_0000));
    assert_eq!(second.mem_size, 0x2000);
    assert_eq!(second.file_size, 6);
    assert_eq!(second.data.len(), 6);
    assert_eq!(second.data[0], image[152]);
    assert_eq!(second.data, &[0xb0, 0xb1, 0xb2, 0xb3, 0xb4, 0xb5]);
    assert_eq!(second.flag, flag(true, true, true, false, false));

    let third = programs.next().unwrap();
    assert_eq!(third.virt_addr, VirtAddr(0x0003_0000));
    assert_eq!(third.mem_size, 0x10);
    assert_eq!(third.file_size, 0);
    assert!(third.data.is_empty());
    assert_eq!(third.flag, flag(true, true, false, false, false));

    assert!(programs.next().is_none());
    assert!(programs.next().is_none());
}

#[test]
fn programs_starts_again_from_the_first() {
    let image = three_segments();
    let elf = Elf::new(&image).unwrap();
    let mut walk = elf.programs();
    assert_eq!(walk.next().unwrap().virt_addr, VirtAddr(0x0001_0000));
    assert_eq!(walk.next().unwrap().virt_addr, VirtAddr(0x0002_0000));
    let mut again = elf.programs();
    assert_eq!(again.next().unwrap().virt_addr, VirtAddr(0x0001_0000));
    assert_eq!(walk.next().unwrap().virt_addr, VirtAddr(0x0003_0000));
}

#[test]
fn programs_yields_segments_of_every_type() {
    let mut image = file_header(52, 32, 2);
    put32(&mut image, 6);
    for word in [0u32, 0x4000, 0, 0, 0, 4, 4] {
        put32(&mut image, word);
    }
    put32(&mut image, 0x7000_0003);
    for word in [0u32, 0x5000, 0, 0, 0, 0, 1] {
        put32(&mut image, word);
    }
    let elf = Elf::new(&image).unwrap();
    let mut programs = elf.programs();
    assert_eq!(programs.next().unwrap().virt_addr, VirtAddr(0x4000));
    assert_eq!(programs.next().unwrap().virt_addr, VirtAddr(0x5000));
    assert!(programs.next().is_none());
}

#[test]
fn programs_steps_by_the_entry_size() {
    let mut image = file_header(60, 40, 2);
    image.extend_from_slice(&[0xff; 8]);
    put_program_header(&mut image, 0, 0x1000, 0, 1, 1, 1);
    image.extend_from_slice(&[0xff; 8]);
    put_program_header(&mut image, 1, 0x2000, 0, 2, 2, 2);
    let elf = Elf::new(&image).unwrap();
    let mut programs = elf.programs();
    let first = programs.next().unwrap();
    assert_eq!(first.virt_addr, VirtAddr(0x1000));
    assert_eq!(first.data, &image[0..1]);
    let second = programs.next().unwrap();
    assert_eq!(second.virt_addr, VirtAddr(0x2000));
    assert_eq!(second.data, &image[1..3]);
    assert!(programs.next().is_none());
}

#[test]
fn programs_of_an_image_without_segments_is_empty() {
    let image = file_header(52, 32, 0);
    let elf = Elf::new(&image).unwrap();
    assert!(elf.programs().next().is_none());
}

#[test]
fn flags_decode_bit_by_bit() {
    assert_eq!(parse_elf_flag(0), flag(true, false, false, false, false));
    assert_eq!(parse_elf_flag(1), flag(true, false, false, true, false));
    assert_eq!(parse_elf_flag(2), flag(true, false, true, false, false));
    assert_eq!(parse_elf_flag(4), flag(true, true, false, false, false));
    assert_eq!(parse_elf_flag(5), flag(true, true, false, true, false));
    assert_eq!(parse_elf_flag(7), flag(true, true, true, true, false));
    assert_eq!(parse_elf_flag(0xffff_fff8), flag(true, false, false, false, false));
    assert_eq!(parse_elf_flag(0xffff_ffff), flag(true, true, true, true, false));
}
