use pt::{Flags, PdFlags, PdptFlags, Prot, PtFlags, PteFlags};

#[test]
fn flags_have_their_hardware_bits() {
    assert_eq!(Flags::Present().bits(), 1 << 0);
    assert_eq!(Flags::Writable().bits(), 1 << 1);
    assert_eq!(Flags::User().bits(), 1 << 2);
    assert_eq!(Flags::WriteThrough().bits(), 1 << 3);
    assert_eq!(Flags::CacheDisabled().bits(), 1 << 4);
    assert_eq!(Flags::Accessed().bits(), 1 << 5);
    assert_eq!(Flags::Dirty().bits(), 1 << 6);
    assert_eq!(Flags::NX().bits(), 1 << 63);
    assert_eq!(Flags::all().bits(), 0x8000_0000_0000_007f);
    assert_eq!(Flags::empty().bits(), 0);
}

#[test]
fn pte_flags_have_their_hardware_bits() {
    assert_eq!(PteFlags::Present().bits(), 1 << 0);
    assert_eq!(PteFlags::Writable().bits(), 1 << 1);
    assert_eq!(PteFlags::User().bits(), 1 << 2);
    assert_eq!(PteFlags::WriteThrough().bits(), 1 << 3);
    assert_eq!(PteFlags::CacheDisabled().bits(), 1 << 4);
    assert_eq!(PteFlags::Accessed().bits(), 1 << 5);
    assert_eq!(PteFlags::Dirty().bits(), 1 << 6);
    assert_eq!(PteFlags::AttributeTable().bits(), 1 << 7);
    assert_eq!(PteFlags::Global().bits(), 1 << 8);
    assert_eq!(PteFlags::NX().bits(), 1 << 63);
    assert_eq!(PteFlags::all().bits(), 0x8000_0000_0000_01ff);
}

#[test]
fn table_flags_have_their_hardware_bits() {
    assert_eq!(PtFlags::Present().bits(), 1 << 0);
    assert_eq!(PtFlags::Writable().bits(), 1 << 1);
    assert_eq!(PtFlags::User().bits(), 1 << 2);
    assert_eq!(PtFlags::WriteThrough().bits(), 1 << 3);
    assert_eq!(PtFlags::CacheDisabled().bits(), 1 << 4);
    assert_eq!(PtFlags::Accessed().bits(), 1 << 5);
    assert_eq!(PtFlags::Size().bits(), 1 << 7);
    assert_eq!(PtFlags::NX().bits(), 1 << 63);
    assert_eq!(PtFlags::all().bits(), 0x8000_0000_0000_00bf);
    assert_eq!(PdFlags::Size().bits(), 1 << 7);
    assert_eq!(PdFlags::NX().bits(), 1 << 63);
    assert_eq!(PdFlags::all().bits(), 0x8000_0000_0000_00bf);
    assert_eq!(PdptFlags::Writable().bits(), 1 << 1);
    assert_eq!(PdptFlags::Size().bits(), 1 << 7);
    assert_eq!(PdptFlags::all().bits(), 0x8000_0000_0000_00bf);
}

#[test]
fn prot_has_its_bits() {
    assert_eq!(Prot::R().bits(), 4);
    assert_eq!(Prot::W().bits(), 2);
    assert_eq!(Prot::X().bits(), 1);
    assert_eq!(Prot::all().bits(), 7);
    assert_eq!(Prot::empty().bits(), 0);
    assert_eq!((Prot::R() | Prot::X()).bits(), 5);
    assert_eq!(Prot::from_bits_truncate(0xff).bits(), 7);
}

#[test]
fn union_is_bitwise_or() {
    let f = Flags::NX() | Flags::Present() | Flags::Writable();
    assert_eq!(f.bits(), 0x8000_0000_0000_0003);
    assert_eq!((f | f).bits(), f.bits());
    assert_eq!((Flags::empty() | Flags::User()).bits(), 4);
}

#[test]
fn contains_asks_for_every_flag() {
    let f = Flags::Present() | Flags::Writable();
    assert!(f.contains(Flags::Present()));
    assert!(f.contains(Flags::Writable()));
    assert!(f.contains(Flags::Present() | Flags::Writable()));
    assert!(!f.contains(Flags::NX()));
    assert!(!f.contains(Flags::Present() | Flags::NX()));
    assert!(f.contains(Flags::empty()));
    assert!(Prot::all().contains(Prot::W()));
    assert!(!Prot::R().contains(Prot::W()));
}

#[test]
fn from_bits_truncate_drops_what_the_level_does_not_know() {
    let f = Flags::all();
    assert_eq!(PteFlags::from_bits_truncate(f.bits()).bits(), 0x8000_0000_0000_007f);
    assert_eq!(PtFlags::from_bits_truncate(f.bits()).bits(), 0x8000_0000_0000_003f);
    assert_eq!(PdFlags::from_bits_truncate(f.bits()).bits(), 0x8000_0000_0000_003f);
    assert_eq!(PdptFlags::from_bits_truncate(f.bits()).bits(), 0x8000_0000_0000_003f);
    assert_eq!(Flags::from_bits_truncate(u64::MAX).bits(), 0x8000_0000_0000_007f);
    assert_eq!(PteFlags::from_bits_truncate(u64::MAX).bits(), 0x8000_0000_0000_01ff);
    assert_eq!(PtFlags::from_bits_truncate(0x40).bits(), 0);
}

#[test]
fn insert_and_remove_change_the_set_in_place() {
    let mut f = PteFlags::Present();
    f.insert(PteFlags::Dirty() | PteFlags::Global());
    assert_eq!(f.bits(), 0x141);
    f.remove(PteFlags::Present() | PteFlags::NX());
    assert_eq!(f.bits(), 0x140);
    f.remove(PteFlags::all());
    assert_eq!(f.bits(), 0);
}

#[test]
fn flag_sets_compare_by_their_bits() {
    assert_eq!(Flags::Present() | Flags::NX(), Flags::NX() | Flags::Present());
    assert_ne!(Flags::Present(), Flags::Writable());
    let f = PdFlags::User();
    let g = f;
    assert_eq!(f, g);
}
