use rpi_os::machine::{all_interrupts_masked, disable, exception_level, restore, PrivilegeLevel};
use rpi_os::bump_allocator::{align_to, AllocError, BumpAllocator};
use rpi_os::cell::OnceLock;
use rpi_os::kernel_vm::{AddressSpace, TranslationDescriptor, KERNEL_TABLE_ENTRIES};
use rpi_os::machine::{core_id_from_mpidr, translation_result, InvalidAddr, ValidAddr};
use rpi_os::paging::MemoryAttribute;
use rpi_os::sync::{
    read_acquire, read_release, spin_acquire, write_acquire, write_downgrade, write_release, RwLock,
    SpinLock, MAX_READERS, UNLOCKED, WRITER,
};

#[test]
fn align_to_rounds_up_to_multiple() {
    assert_eq!(align_to(0x1001, 0x1000), 0x2000);
    assert_eq!(align_to(0x2000, 0x1000), 0x2000);
    assert_eq!(align_to(7, 3), 9);
}

#[test]
fn bump_allocations_are_aligned_and_disjoint() {
    let mut b = BumpAllocator::new(0x1001, 0x2000);
    let x = b.allocate(0x10, 0x100).unwrap();
    assert_eq!(x, 0x1100);
    let y = b.allocate(0x8, 0x8).unwrap();
    assert_eq!(y, 0x1110);
    assert_eq!(b.allocate(0x1000, 1), Err(AllocError));
    assert_eq!(b.allocate(0, 0x40), Ok(0x40));
}

#[test]
fn empty_bump_allocator_fails_and_set_refills_it() {
    let mut b = BumpAllocator::empty();
    assert_eq!(b.allocate(1, 1), Err(AllocError));
    b.set(0x100, 0x200);
    assert_eq!(b.allocate(0x100, 0x10), Ok(0x100));
    assert_eq!(b.allocate(1, 1), Err(AllocError));
    b.deallocate(0x100, 0x100, 0x10);
}

#[test]
fn kernel_descriptors_and_mappings() {
    let d = TranslationDescriptor::valid_base(0x5_0000).unwrap();
    assert_eq!(d.0, 0x0040_0000_0005_0703);
    assert!(TranslationDescriptor::valid_base(1 << 52).is_none());
    assert!(TranslationDescriptor::valid_base(1 << 48).is_none());
    assert!(TranslationDescriptor::valid_base((1 << 48) - 0x1_0000).is_some());
    let m = d
        .with_writeable_never(true)
        .with_privileged_execute_never(true)
        .with_memory_type(MemoryAttribute::Device);
    assert_eq!(m.0, 0x0060_0000_0005_0787);
    let mut s = AddressSpace::new(vec![TranslationDescriptor::new(); KERNEL_TABLE_ENTRIES]);
    assert!(s.map(0xFFFF_FFFF_FE01_0000, 0x5_0000, true, false));
    assert!(!s.map(0x0000_0000_0001_0000, 0x5_0000, true, false));
    assert!(!s.map(0xFFFF_FFFF_FE01_0008, 0x5_0000, true, false));
    assert!(!s.map(0xFFFF_FFFF_FE01_0000, 0x5_0010, true, false));
}

#[test]
fn translation_results_decode() {
    assert_eq!(translation_result(0x0000_0000_1234_5000), Ok(ValidAddr(0x0000_0000_1234_5000)));
    assert_eq!(ValidAddr(0x0000_0000_1234_5000).pa(), 0x1234_5000);
    let fault = translation_result((0b10 << 1) | 1 | (0b0101 << 3)).unwrap_err();
    assert_eq!(fault, InvalidAddr(0b10_1101));
    assert_eq!(fault.level(), 2);
    assert_eq!(fault.status(), 5);
    assert_eq!(core_id_from_mpidr(0x8000_0003), 3);
}

#[test]
fn rw_lock_words() {
    assert_eq!(read_acquire(UNLOCKED), Some(1));
    assert_eq!(read_acquire(WRITER), None);
    assert_eq!(read_acquire(MAX_READERS), None);
    assert_eq!(write_acquire(UNLOCKED), Some(WRITER));
    assert_eq!(write_acquire(1), None);
    assert_eq!(read_release(2), 1);
    assert_eq!(write_release(), UNLOCKED);
    assert_eq!(write_downgrade(), 1);
    assert!(spin_acquire(false));
    assert!(!spin_acquire(true));
}

#[test]
fn rw_lock_sequence() {
    let mut l = RwLock::new(5u32);
    let g = l.read();
    assert_eq!(g.state(&l), 1);
    l.unlock_read(g);
    let w = l.write();
    assert_eq!(w.state(&l), WRITER);
    assert_eq!(l.replace(&w, 9), 5);
    let r = l.downgrade(w);
    assert_eq!(r.state(&l), 1);
    assert_eq!(*l.data(), 9);
    l.unlock_read(r);
    let w2 = l.write();
    l.unlock_write(w2);
}

#[test]
fn guards_report_the_current_lock_word() {
    let mut l = RwLock::new(5u32);
    let g1 = l.read();
    let g2 = l.read();
    assert_eq!(g1.state(&l), 2);
    assert_eq!(g2.state(&l), 2);
    assert_eq!(*l.data(), 5);
    l.unlock_read(g1);
    assert_eq!(g2.state(&l), 1);
    l.unlock_read(g2);
}

#[test]
fn spin_lock_sequence() {
    let mut l = SpinLock::new(3u8);
    let mut g = l.lock();
    l.unlock(&mut g);
    let mut g2 = l.lock();
    l.unlock(&mut g2);
    assert_eq!(*l.data(), 3);
}

#[test]
fn once_lock_is_set_once() {
    let mut c: OnceLock<u32> = OnceLock::new();
    assert_eq!(c.get(), None);
    assert_eq!(c.set(4), Ok(()));
    assert_eq!(c.set(5), Err(5));
    assert_eq!(c.get(), Some(&4));
}

#[test]
fn exception_levels_and_masks() {
    assert_eq!(exception_level(0b0100), PrivilegeLevel::Kernel);
    assert_eq!(exception_level(0b1000), PrivilegeLevel::Hypervisor);
    assert_eq!(exception_level(0), PrivilegeLevel::User);
    assert_eq!(exception_level(0b1100), PrivilegeLevel::Unknown);
    let (saved, now) = disable(0x3C0);
    assert_eq!(now, 0);
    assert!(!all_interrupts_masked(now));
    assert_eq!(restore(saved), 0x3C0);
    assert!(all_interrupts_masked(0x3C0));
    assert!(!all_interrupts_masked(0x340));
}

#[test]
fn interleaved_holders_keep_the_lock_word_counting_them() {
    let mut word = UNLOCKED;
    word = read_acquire(word).unwrap();
    word = read_acquire(word).unwrap();
    assert_eq!(word, 2);
    assert_eq!(write_acquire(word), None);
    word = read_release(word);
    assert_eq!(write_acquire(word), None);
    word = read_release(word);
    assert_eq!(word, UNLOCKED);
    word = write_acquire(word).unwrap();
    assert_eq!(word, WRITER);
    assert_eq!(read_acquire(word), None);
    assert_eq!(write_acquire(word), None);
    word = write_downgrade();
    assert_eq!(write_acquire(word), None);
    word = read_acquire(word).unwrap();
    assert_eq!(word, 2);
}
