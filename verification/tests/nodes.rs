use pt::{Pd, PdFlags, Pdpt, PdptFlags, Pt, PtFlags, Pte, PteFlags};

#[test]
fn a_fresh_entry_has_no_address_and_no_flags() {
    let e = Pte::default();
    assert_eq!(e.paddr(), 0);
    assert_eq!(e.flags().bits(), 0);
}

#[test]
fn set_paddr_drops_the_low_twelve_bits() {
    let mut e = Pte::default();
    e.set_paddr(0x8181_0abc);
    assert_eq!(e.paddr(), 0x8181_0000);
    e.set_paddr(0xfff);
    assert_eq!(e.paddr(), 0);
    e.set_paddr(u64::MAX);
    assert_eq!(e.paddr(), 0xffff_ffff_ffff_f000);
    e.set_paddr(0x1000);
    assert_eq!(e.paddr(), 0x1000);
}

#[test]
fn set_flags_replaces_the_flags() {
    let mut e = Pte::default();
    e.set_paddr(0x5000);
    e.set_flags(PteFlags::Present() | PteFlags::Dirty());
    assert_eq!(e.flags().bits(), 0x41);
    e.set_flags(PteFlags::NX());
    assert_eq!(e.flags().bits(), 1 << 63);
    assert_eq!(e.paddr(), 0x5000);
}

#[test]
fn a_fresh_table_is_vacant() {
    let t = Pt::default();
    assert_eq!(t.flags().bits(), 0);
    for i in 0..512 {
        assert!(t.index(i).is_none());
    }
    assert!(t.pte(0).is_none());
    assert!(t.pte(0x1ff000).is_none());
    assert_eq!(t.page_count(), 1);
}

#[test]
fn set_pte_fills_the_slot_of_the_address() {
    let mut t = Pt::default();
    let mut e = Pte::default();
    e.set_paddr(0x7000);
    let r = t.set_pte(0x4141_4000, e);
    assert_eq!(r.paddr(), 0x7000);
    r.set_flags(PteFlags::Present());
    assert_eq!(t.pte(0x4141_4000).unwrap().paddr(), 0x7000);
    assert_eq!(t.pte(0x4141_4fff).unwrap().flags().bits(), 1);
    assert_eq!(t.index(20).as_ref().unwrap().paddr(), 0x7000);
    assert!(t.pte(0x4141_5000).is_none());
    assert!(t.index(19).is_none());
    assert!(t.index(21).is_none());
}

#[test]
fn set_pte_replaces_what_was_there() {
    let mut t = Pt::default();
    let mut e = Pte::default();
    e.set_paddr(0x7000);
    t.set_pte(0, e);
    t.set_pte(0, Pte::default());
    assert_eq!(t.pte(0).unwrap().paddr(), 0);
}

#[test]
fn pte_mut_changes_the_entry_in_place() {
    let mut t = Pt::default();
    assert!(t.pte_mut(0x3000).is_none());
    t.set_pte(0x3000, Pte::default());
    match t.pte_mut(0x3000) {
        Some(e) => e.set_paddr(0x9000),
        None => panic!("the slot was filled"),
    }
    assert_eq!(t.pte(0x3000).unwrap().paddr(), 0x9000);
    assert!(t.pte_mut(0x4000).is_none());
}

#[test]
fn table_flags_are_set_whole() {
    let mut t = Pt::default();
    t.set_flags(PtFlags::Present() | PtFlags::User());
    assert_eq!(t.flags().bits(), 5);
    t.set_flags(PtFlags::NX());
    assert_eq!(t.flags().bits(), 1 << 63);
    let mut d = Pd::default();
    d.set_flags(PdFlags::Writable());
    assert_eq!(d.flags().bits(), 2);
    let mut p = Pdpt::default();
    p.set_flags(PdptFlags::Accessed());
    assert_eq!(p.flags().bits(), 0x20);
}

#[test]
fn a_walk_hands_out_the_occupied_slots_in_order() {
    let mut t = Pt::default();
    let mut e = Pte::default();
    e.set_paddr(0x3000);
    t.set_pte(3 << 12, e);
    t.set_pte(511 << 12, Pte::default());
    t.set_pte(0, Pte::default());
    let mut it = t.iter();
    let mut present = Vec::new();
    while let Some((i, e)) = it.next() {
        present.push((i, e.paddr()));
    }
    assert_eq!(present, vec![(0, 0), (3, 0x3000), (511, 0)]);
    assert!(it.next().is_none());
    assert!(it.next().is_none());
}

#[test]
fn a_walk_over_a_vacant_table_hands_out_nothing() {
    let t = Pt::default();
    assert!(t.iter().next().is_none());
    let d = Pd::default();
    assert!(d.iter().next().is_none());
    let p = Pdpt::default();
    assert!(p.iter().next().is_none());
}

#[test]
fn a_walk_can_be_started_again() {
    let mut t = Pt::default();
    t.set_pte(7 << 12, Pte::default());
    t.set_pte(9 << 12, Pte::default());
    let mut first = Vec::new();
    let mut it = t.iter();
    while let Some((i, _)) = it.next() {
        first.push(i);
    }
    let mut second = Vec::new();
    let mut again = t.iter();
    while let Some((i, _)) = again.next() {
        second.push(i);
    }
    assert_eq!(first, vec![7, 9]);
    assert_eq!(second, first);
    assert!(t.pte(7 << 12).is_some());
}

#[test]
fn directories_hold_tables_by_their_own_index() {
    let mut d = Pd::default();
    assert!(d.pt(0x4141_4000).is_none());
    assert!(d.pt_mut(0x4141_4000).is_none());
    let t = d.set_pt(0x4141_4000, Pt::default());
    t.set_flags(PtFlags::Present());
    assert_eq!(d.pt(0x4141_4000).unwrap().flags().bits(), 1);
    assert!(d.index(10).is_some());
    assert!(d.index(9).is_none());
    assert!(d.pt(0x4141_4000 + (1 << 21)).is_none());
    assert_eq!(d.pt(0x4141_4000 + (1 << 20)).unwrap().flags().bits(), 1);
    d.pt_mut(0x4141_4000).unwrap().set_flags(PtFlags::NX());
    assert_eq!(d.pt(0x4141_4000).unwrap().flags().bits(), 1 << 63);
    assert_eq!(d.page_count(), 2);
    let mut it = d.iter();
    let mut found = Vec::new();
    while let Some((i, t)) = it.next() {
        found.push((i, t.flags().bits()));
    }
    assert_eq!(found, vec![(10, 1 << 63)]);
}

#[test]
fn directory_pointer_tables_hold_directories_by_their_own_index() {
    let mut p = Pdpt::default();
    assert!(p.pd(0x4141_4000).is_none());
    assert!(p.pd_mut(0x4141_4000).is_none());
    let d = p.set_pd(0x4141_4000, Pd::default());
    d.set_pt(0, Pt::default());
    d.set_pt(1 << 21, Pt::default());
    assert!(p.pd(0x4141_4000).is_some());
    assert!(p.index(1).is_some());
    assert!(p.index(0).is_none());
    assert!(p.pd(0x4141_4000 + (1 << 30)).is_none());
    p.pd_mut(0x4141_4000).unwrap().set_flags(PdFlags::User());
    assert_eq!(p.pd(0x4141_4000).unwrap().flags().bits(), 4);
    assert_eq!(p.page_count(), 4);
    let mut it = p.iter();
    let mut found = Vec::new();
    while let Some((i, d)) = it.next() {
        found.push((i, d.flags().bits()));
    }
    assert_eq!(found, vec![(1, 4)]);
}
