use rpi_os::as_bits::DiscriminantTable;

const FIRST_VALUE: u16 = 0;
const SECOND_VALUE: u16 = 13;
const THIRD_VALUE: u16 = 12345;

#[derive(PartialEq, Debug, Clone, Copy)]
enum Enum {
    First,
    Second,
    Third,
}

const VARIANTS: [Enum; 3] = [Enum::First, Enum::Second, Enum::Third];

fn table() -> DiscriminantTable {
    DiscriminantTable::new(vec![
        u64::from(FIRST_VALUE),
        u64::from(SECOND_VALUE),
        u64::from(THIRD_VALUE),
    ])
    .unwrap()
}

impl Enum {
    fn into_bits(self) -> u16 {
        u16::try_from(table().into_bits(self as usize)).unwrap()
    }

    fn from_bits(value: u16) -> Self {
        VARIANTS[table().from_bits(u64::from(value))]
    }
}

#[test]
fn into_bits() {
    assert_eq!(Enum::First.into_bits(), FIRST_VALUE);
    assert_eq!(Enum::Second.into_bits(), SECOND_VALUE);
    assert_eq!(Enum::Third.into_bits(), THIRD_VALUE);
}

#[test]
fn from_bits_valid() {
    assert_eq!(Enum::from_bits(FIRST_VALUE), Enum::First);
    assert_eq!(Enum::from_bits(SECOND_VALUE), Enum::Second);
    assert_eq!(Enum::from_bits(THIRD_VALUE), Enum::Third);
}

#[test]
fn from_bits_rejects_values_of_no_variant() {
    let t = table();
    assert_eq!(t.try_from_bits(1), None);
    assert_eq!(t.try_from_bits(12344), None);
    assert_eq!(t.try_from_bits(13), Some(1));
}

#[test]
fn duplicate_discriminants_are_refused() {
    assert!(DiscriminantTable::new(vec![4, 7, 4]).is_none());
    assert!(DiscriminantTable::new(vec![]).is_some());
    assert_eq!(DiscriminantTable::new(vec![9, 8]).unwrap().len(), 2);
}

#[test]
fn round_trip_over_all_variants() {
    let t = table();
    for v in 0..t.len() {
        assert_eq!(t.from_bits(t.into_bits(v)), v);
    }
}
