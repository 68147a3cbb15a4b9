use rpi_os::elf::load_elf;
use rpi_os::paging::{AddressSpace, PageTableEntry};

type Space = AddressSpace<16, 25>;

fn put16(b: &mut [u8], o: usize, v: u16) {
    b[o..o + 2].copy_from_slice(&v.to_le_bytes());
}

fn put32(b: &mut [u8], o: usize, v: u32) {
    b[o..o + 4].copy_from_slice(&v.to_le_bytes());
}

fn put64(b: &mut [u8], o: usize, v: u64) {
    b[o..o + 8].copy_from_slice(&v.to_le_bytes());
}

/// A 64-bit image with one loadable segment at `va`, holding `filesz` bytes of the file from
/// offset 0 and `memsz` bytes in memory, with the given flags.
fn image(va: u64, filesz: u64, memsz: u64, flags: u32) -> Vec<u8> {
    let mut b = vec![0u8; 120];
    b[0..4].copy_from_slice(&[0x7F, b'E', b'L', b'F']);
    b[4] = 2;
    b[5] = 1;
    put64(&mut b, 24, va + 0x10);
    put64(&mut b, 32, 64);
    put16(&mut b, 54, 56);
    put16(&mut b, 56, 1);
    put32(&mut b, 64, 1);
    put32(&mut b, 68, flags);
    put64(&mut b, 72, 0);
    put64(&mut b, 80, va);
    put64(&mut b, 96, filesz);
    put64(&mut b, 104, memsz);
    b
}

#[test]
fn loads_segment_and_reports_bss() {
    let mut s = Space::new(vec![PageTableEntry::new(); 512]);
    let b = image(0x1_0000, 0x78, 0x100, 0b101);
    let r = load_elf(&mut s, &b, 0x10_0000, 0x3_0000);
    assert_eq!(r, Some((0x1_0010, 0x1_0078, 0x1_0100)));
    assert_eq!(s.table()[1], PageTableEntry::mapping(0x3_0000, false, true, false));
    assert!(!s.table()[2].valid());
}

#[test]
fn segment_without_bss_reports_zeroes() {
    let mut s = Space::new(vec![PageTableEntry::new(); 512]);
    let b = image(0x2_0000, 0x78, 0x78, 0b110);
    let r = load_elf(&mut s, &b, 0x10_0000, 0x3_0000);
    assert_eq!(r, Some((0x2_0010, 0, 0)));
    assert_eq!(s.table()[2], PageTableEntry::mapping(0x3_0000, true, false, false));
}

#[test]
fn rejects_bad_magic() {
    let mut s = Space::new(vec![PageTableEntry::new(); 512]);
    let mut b = image(0x1_0000, 0x78, 0x100, 0b101);
    b[1] = b'X';
    assert_eq!(load_elf(&mut s, &b, 0x10_0000, 0x3_0000), None);
    assert!(!s.table()[1].valid());
}

#[test]
fn rejects_truncated_program_headers() {
    let mut s = Space::new(vec![PageTableEntry::new(); 512]);
    let b = image(0x1_0000, 0x78, 0x100, 0b101);
    assert_eq!(load_elf(&mut s, &b[..100], 0x10_0000, 0x3_0000), None);
}

#[test]
fn rejects_segment_larger_in_file_than_in_memory() {
    let mut s = Space::new(vec![PageTableEntry::new(); 512]);
    let b = image(0x1_0000, 0x100, 0x78, 0b101);
    assert_eq!(load_elf(&mut s, &b, 0x10_0000, 0x3_0000), None);
}

#[test]
fn rejects_misaligned_segment_offset() {
    let mut s = Space::new(vec![PageTableEntry::new(); 512]);
    let b = image(0x1_0008, 0x78, 0x78, 0b101);
    assert_eq!(load_elf(&mut s, &b, 0x10_0000, 0x3_0000), None);
}

#[test]
fn rejects_misaligned_image() {
    let mut s = Space::new(vec![PageTableEntry::new(); 512]);
    let b = image(0x1_0000, 0x78, 0x100, 0b101);
    assert_eq!(load_elf(&mut s, &b, 0x10_0004, 0x3_0000), None);
    assert!(!s.table()[1].valid());
}
