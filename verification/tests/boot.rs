use rpi_os::boot::{device_tree_words, kernel_heap, region_bounds, KERNEL_MEMORY_END};
use rpi_os::boot::{boot_table, core_stack_top, NUM_CORES};
use rpi_os::rpi3::{
    boot_stack_top, boot_translation_table, elr_el2, image_page_descriptor, per_core_stack_top,
    sp_el1, ttbr1_el1, STACK_SIZE, TABLE_ENTRIES, VIRTUAL_OFFSET,
};
use rpi_os::syscalls::{alloc_page, exec, fork, getpid, unblock};
use rpi_os::exception::Return;

#[test]
fn image_pages_map_consecutive_physical_pages() {
    assert_eq!(image_page_descriptor(0), 0x0040_0000_0008_0703);
    assert_eq!(image_page_descriptor(1), 0x0040_0000_0009_0703);
    let t = boot_translation_table(0x2_0000);
    assert_eq!(t.len(), TABLE_ENTRIES);
    assert_eq!(t[0], image_page_descriptor(0));
    assert_eq!(t[2], image_page_descriptor(2));
    assert_eq!(t[3], 0);
}

#[test]
fn stacks_of_cores() {
    assert_eq!(boot_stack_top(0x9_0008), 0x9_1008);
    assert_eq!(boot_stack_top(usize::MAX - 1), usize::MAX);
    assert_eq!(per_core_stack_top(0x9_0008, 2), 0x9_0010 + 2 * STACK_SIZE);
    assert_eq!(per_core_stack_top(0x9_0010, 4), 0x9_0010 + 4 * STACK_SIZE);
}

#[test]
fn el1_entry_registers() {
    assert_eq!(sp_el1(0x9_1000), VIRTUAL_OFFSET + 0x9_1000);
    assert_eq!(ttbr1_el1(0x10_0000), 0x10_0001);
    assert_eq!(elr_el2(0x8_0800), 0xFFFF_FFFF_FE00_0800);
}

#[test]
fn syscall_results_read_back() {
    let ok = Return::from_page(Some(0x5_0000));
    assert_eq!(alloc_page(ok.status, ok.value), Some(0x5_0000));
    let none = Return::from_page(None);
    assert_eq!(alloc_page(none.status, none.value), None);
    let w = Return::from_outcome(true);
    assert!(rpi_os::syscalls::write(w.status));
    assert!(!rpi_os::syscalls::write(Return::from_outcome(false).status));
    assert_eq!(unblock(Return::failure().status), Err(()));
    assert_eq!(unblock(Return::success(0).status), Ok(()));
    assert_eq!(exec(1), Err(()));
    assert_eq!(getpid(7), 7);
    assert_eq!(fork(3, 3, 4), Some(4));
    assert_eq!(fork(3, 4, 4), None);
}

#[test]
fn kernel_heap_follows_the_stacks() {
    let (start, len) = kernel_heap(0xFFFF_FFFF_FE10_0001).unwrap();
    assert_eq!(start, 0xFFFF_FFFF_FE10_0010 + 0x8000);
    assert_eq!(start + len, KERNEL_MEMORY_END);
    assert_eq!(kernel_heap(KERNEL_MEMORY_END), None);
    assert_eq!(kernel_heap(u64::MAX), None);
    assert_eq!(device_tree_words(17), Some(3));
    assert_eq!(device_tree_words(16), Some(2));
    assert_eq!(device_tree_words(0x1_0000), None);
    assert_eq!(region_bounds(0x1000, 0x2000), Some((0x1000, 0x3000)));
    assert_eq!(region_bounds(u64::MAX, 1), None);
}

#[test]
fn init_program_mappings_and_exceptions() {
    let (offset, entry) = rpi_os::syscalls::temporary_map(0x2_0000, 0x7_0000);
    assert_eq!(offset, 16);
    assert_eq!(entry, 0x0020_0000_0007_0F43);
    assert_eq!(
        rpi_os::syscalls::general_handler(2, 0xABC),
        rpi_os::syscalls::UserException::PageFault(0xABC)
    );
    assert_eq!(
        rpi_os::syscalls::general_handler(3, 5),
        rpi_os::syscalls::UserException::UserSignal(5)
    );
    assert_eq!(rpi_os::paging::page_directory_entry(0x1_2345_6000), 0x3800_0001_2345_6003);
}

#[test]
fn boot_table_maps_kernel_and_devices() {
    let t = boot_table();
    assert_eq!(t[0], 0x40000000000701);
    assert_eq!(t[1], 0x4000047e200705);
    assert_eq!(t[2], 0x4000047e000705);
    assert_eq!(t[3], 0x400004c0040705);
}

#[test]
fn live_boot_stacks_and_entry() {
    assert_eq!(NUM_CORES, 4);
    assert_eq!(rpi_os::boot::STACK_SIZE, 0x2000);
    assert_eq!(core_stack_top(0x9_0008, 0), 0xFFFF_FFFF_FE09_2010);
    assert_eq!(core_stack_top(0x9_0008, 3), 0xFFFF_FFFF_FE09_8010);
    assert_eq!(core_stack_top(0x9_0010, 0x8000_0001), 0xFFFF_FFFF_FE09_4010);
    assert_eq!(rpi_os::boot::elr_el2(0x8_0000), 0xFFFF_FFFF_FE08_0000);
    assert_eq!(rpi_os::boot::elr_el2(0x8_0000), rpi_os::boot::VIRTUAL_LINK_ADDR);
    assert_eq!(rpi_os::boot::ttbr1_el1(0x9_0000), 0x9_0001);
}
