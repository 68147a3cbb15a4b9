use rpi_os::paging::{AddressSpace, MemoryAttribute, PageTableEntry, Shareability, PA_LIMIT};

type Space = AddressSpace<16, 25>;

fn empty_space() -> Space {
    Space::new(vec![PageTableEntry::new(); 512])
}

#[test]
fn valid_base_needs_a_representable_address() {
    assert!(PageTableEntry::valid_base(PA_LIMIT).is_none());
    assert!(PageTableEntry::valid_base(1 << 48).is_none());
    let e = PageTableEntry::valid_base(0x1_0000).unwrap();
    assert_eq!(e.0, 0x0040_0000_0001_0FC3);
    assert!(e.valid());
    assert!(e.writeable_never());
    assert!(e.execute_never());
    assert_eq!(e.pa(), 0x10);
}

#[test]
fn mapping_sets_permissions_and_memory_kind() {
    let e = PageTableEntry::mapping(0x1_0000, true, false, false);
    assert_eq!(e.0, 0x0040_0000_0001_0F43);
    assert!(!e.writeable_never());
    let d = PageTableEntry::mapping(0x2_0000, false, true, true);
    assert_eq!(d.0, 0x0000_0000_0002_0FC7);
    assert!(!d.execute_never());
}

#[test]
fn attribute_encodings_round_trip() {
    assert_eq!(MemoryAttribute::from_bits(MemoryAttribute::Device.into_bits()), MemoryAttribute::Device);
    assert_eq!(MemoryAttribute::Normal.into_bits(), 0);
    assert_eq!(MemoryAttribute::Device.into_bits(), 1);
    assert_eq!(Shareability::from_bits(Shareability::Inner.into_bits()), Shareability::Inner);
}

#[test]
fn entry_index_is_page_number() {
    let s = empty_space();
    assert_eq!(s.entry_index(0x3_1234), Some(3));
    assert_eq!(s.entry_index(0x200_0000), None);
}

#[test]
fn map_range_maps_every_spanned_page() {
    let mut s = empty_space();
    s.map_range(0x2_0000, 0x5_0000, 0x1_8000, true, false, false);
    let t = s.table();
    assert!(!t[1].valid());
    assert_eq!(t[2], PageTableEntry::mapping(0x5_0000, true, false, false));
    assert_eq!(t[3], PageTableEntry::mapping(0x6_0000, true, false, false));
    assert!(!t[4].valid());
}

#[test]
fn map_range_overrides_earlier_mapping() {
    let mut s = empty_space();
    s.map_range(0x1_0000, 0x9_0000, 0x1_0000, false, true, false);
    s.map_range(0x1_0000, 0xA_0000, 0x1_0000, true, false, true);
    assert_eq!(s.table()[1], PageTableEntry::mapping(0xA_0000, true, false, true));
}
