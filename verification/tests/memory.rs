use rpi_os::memory::{PageAllocator, PhysicalPage, RegionAllocator, WriteablePage, PAGE_SIZE};

#[test]
fn region_rejects_misaligned_or_overflowing_ranges() {
    assert!(RegionAllocator::new(0x1000, 4 * PAGE_SIZE, &[]).is_none());
    assert!(RegionAllocator::new(0, PAGE_SIZE + 1, &[]).is_none());
    assert!(RegionAllocator::new(u64::MAX - PAGE_SIZE + 1, 2 * PAGE_SIZE, &[]).is_none());
    assert!(RegionAllocator::new(0, 4 * PAGE_SIZE, &[]).is_some());
}

#[test]
fn region_hands_out_lowest_free_page_and_skips_reserved() {
    let start = 0x10 * PAGE_SIZE;
    let mut r = RegionAllocator::new(start, 4 * PAGE_SIZE, &[(start, PAGE_SIZE)]).unwrap();
    assert_eq!(r.allocate(), Some(start + PAGE_SIZE));
    assert_eq!(r.allocate(), Some(start + 2 * PAGE_SIZE));
    assert_eq!(r.allocate(), Some(start + 3 * PAGE_SIZE));
    assert_eq!(r.allocate(), None);
}

#[test]
fn region_reference_counts_free_a_page_at_zero() {
    let mut r = RegionAllocator::new(0, 2 * PAGE_SIZE, &[]).unwrap();
    assert_eq!(r.allocate(), Some(0));
    assert!(r.add_ref(0));
    assert!(r.remove_ref(0));
    assert_eq!(r.allocate(), Some(PAGE_SIZE));
    assert!(r.remove_ref(0));
    assert_eq!(r.allocate(), Some(0));
    assert!(!r.add_ref(5 * PAGE_SIZE));
}

#[test]
fn region_to_owned_keeps_pages_of_its_region() {
    let mut r = RegionAllocator::new(PAGE_SIZE, PAGE_SIZE, &[]).unwrap();
    assert_eq!(r.allocate(), Some(PAGE_SIZE));
    let page = r.to_owned(PhysicalPage::new(PAGE_SIZE)).unwrap();
    assert_eq!(page.addr(), PAGE_SIZE);
    let other = r.to_owned(PhysicalPage::new(3 * PAGE_SIZE)).unwrap_err();
    assert_eq!(other.addr(), 3 * PAGE_SIZE);
}

#[test]
fn other_add_ref_marks_a_reserved_page() {
    let mut r = RegionAllocator::new(0, 2 * PAGE_SIZE, &[]).unwrap();
    assert!(r.other_add_ref(0));
    assert_eq!(r.allocate(), Some(PAGE_SIZE));
    assert!(!r.other_add_ref(7 * PAGE_SIZE));
}

#[test]
fn page_allocator_walks_regions_in_order() {
    let ranges = [(0x20 * PAGE_SIZE, PAGE_SIZE), (0x40 * PAGE_SIZE, 2 * PAGE_SIZE)];
    let mut a = PageAllocator::new(&ranges, &[]).unwrap();
    assert_eq!(a.allocate().unwrap().addr(), 0x20 * PAGE_SIZE);
    assert_eq!(a.allocate().unwrap().addr(), 0x40 * PAGE_SIZE);
    assert_eq!(a.allocate().unwrap().addr(), 0x41 * PAGE_SIZE);
    assert!(a.allocate().is_none());
}

#[test]
fn page_allocator_rejects_misaligned_range() {
    assert!(PageAllocator::new(&[(0x100, PAGE_SIZE)], &[]).is_none());
    assert!(PageAllocator::new(&[], &[]).is_some());
}

#[test]
fn page_allocator_release_makes_page_allocatable_again() {
    let mut a = PageAllocator::new(&[(0, 2 * PAGE_SIZE)], &[(0, PAGE_SIZE)]).unwrap();
    let p = a.allocate().unwrap();
    assert_eq!(p.addr(), PAGE_SIZE);
    a.add_ref(PAGE_SIZE);
    a.remove_ref(PAGE_SIZE);
    assert!(a.allocate().is_none());
    a.remove_ref(PAGE_SIZE);
    assert_eq!(a.allocate().unwrap().addr(), PAGE_SIZE);
}

#[test]
fn successive_allocations_differ() {
    let mut a = PageAllocator::new(&[(0, 3 * PAGE_SIZE)], &[]).unwrap();
    let first = a.allocate().unwrap().addr();
    let second = a.allocate().unwrap().addr();
    assert_ne!(first, second);
}

#[test]
fn page_views_keep_their_address() {
    let w = WriteablePage::new(PhysicalPage::new(7 * PAGE_SIZE));
    assert_eq!(w.addr(), 7 * PAGE_SIZE);
    let r = w.clone().downgrade();
    assert_eq!(r.addr(), 7 * PAGE_SIZE);
    let a = PageAllocator::new(&[(0, 8 * PAGE_SIZE)], &[(7 * PAGE_SIZE, PAGE_SIZE)]).unwrap();
    assert_eq!(a.to_owned(PhysicalPage::new(7 * PAGE_SIZE)).addr(), 7 * PAGE_SIZE);
    assert_eq!(PhysicalPage::new(7 * PAGE_SIZE).to_owned(&a).addr(), 7 * PAGE_SIZE);
}
