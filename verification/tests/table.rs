use pt::{Flags, PageTable, Pd, Pdpt, PdptFlags, Prot, Pt, Pte};

#[test]
fn a_fresh_table_maps_nothing() {
    let x = PageTable::default();
    assert_eq!(x.translate(0, Prot::R()), None);
    assert_eq!(x.translate(0x4141_0000, Prot::R()), None);
    assert_eq!(x.translate(u64::MAX, Prot::empty()), None);
    assert!(x.pdpt(0).is_none());
    assert!(x.pd(0).is_none());
    assert!(x.pt(0).is_none());
    assert!(x.pte(0).is_none());
    for i in 0..512 {
        assert!(x.index(i).is_none());
    }
    assert_eq!(x.page_count(), 1);
}

#[test]
fn insert_makes_the_four_nodes_of_the_path() {
    let mut x = PageTable::default();
    x.insert(0x4141_0000, 0x8181_0000, Flags::User() | Flags::Present());
    assert_eq!(x.pdpt(0x4141_0000).unwrap().flags().bits(), 5);
    assert_eq!(x.pd(0x4141_0000).unwrap().flags().bits(), 5);
    assert_eq!(x.pt(0x4141_0000).unwrap().flags().bits(), 5);
    assert_eq!(x.pte(0x4141_0000).unwrap().flags().bits(), 5);
    assert_eq!(x.pte(0x4141_0000).unwrap().paddr(), 0x8181_0000);
    assert!(x.index(0).is_some());
    assert!(x.index(1).is_none());
    assert!(x.pdpt(1 << 39).is_none());
    assert!(x.pd(0x4141_0000 + (1 << 30)).is_none());
    assert!(x.pt(0x4141_0000 + (1 << 21)).is_none());
    assert!(x.pte(0x4141_0000 + (1 << 12)).is_none());
    assert_eq!(x.page_count(), 4);
}

#[test]
fn insert_stores_the_page_of_the_address() {
    let mut x = PageTable::default();
    x.insert(0x4141_0123, 0x8181_0fff, Flags::Present());
    assert_eq!(x.pte(0x4141_0000).unwrap().paddr(), 0x8181_0000);
    assert_eq!(x.translate(0x4141_0000, Prot::R()), Some(0x8181_0000));
    assert_eq!(x.translate(0x4141_0123, Prot::R()), Some(0x8181_0123));
}

#[test]
fn dirty_stays_at_the_leaf() {
    let mut x = PageTable::default();
    x.insert(0x1000, 0x2000, Flags::Present() | Flags::Dirty() | Flags::Accessed());
    assert_eq!(x.pte(0x1000).unwrap().flags().bits(), 0x61);
    assert_eq!(x.pt(0x1000).unwrap().flags().bits(), 0x21);
    assert_eq!(x.pd(0x1000).unwrap().flags().bits(), 0x21);
    assert_eq!(x.pdpt(0x1000).unwrap().flags().bits(), 0x21);
}

#[test]
fn the_last_insert_sets_the_address_and_flags_only_widen() {
    let mut x = PageTable::default();
    x.insert(0x5000, 0xa000, Flags::Present() | Flags::Writable());
    x.insert(0x5000, 0xb000, Flags::Present() | Flags::NX());
    let e = x.pte(0x5000).unwrap();
    assert_eq!(e.paddr(), 0xb000);
    assert_eq!(e.flags().bits(), 0x8000_0000_0000_0003);
    assert_eq!(x.pt(0x5000).unwrap().flags().bits(), 0x8000_0000_0000_0003);
    assert_eq!(x.translate(0x5000, Prot::W()), Some(0xb000));
    assert_eq!(x.translate(0x5000, Prot::X()), None);
}

#[test]
fn a_walk_stops_at_a_node_that_is_not_present() {
    let mut x = PageTable::default();
    x.insert(0x5000, 0xa000, Flags::Writable() | Flags::User());
    assert!(x.pte(0x5000).is_some());
    assert_eq!(x.translate(0x5000, Prot::R()), None);
    assert_eq!(x.translate(0x5000, Prot::empty()), None);
    x.insert(0x5000, 0xa000, Flags::Present());
    assert_eq!(x.translate(0x5000, Prot::R()), Some(0xa000));
    assert_eq!(x.translate(0x5000, Prot::empty()), Some(0xa000));
}

#[test]
fn every_level_is_asked_for_permission() {
    let mut x = PageTable::default();
    x.insert(0x5000, 0xa000, Flags::Present() | Flags::Writable());
    assert_eq!(x.translate(0x5000, Prot::W()), Some(0xa000));
    x.pdpt_mut(0x5000).unwrap().set_flags(PdptFlags::Present());
    assert_eq!(x.translate(0x5000, Prot::R()), Some(0xa000));
    assert_eq!(x.translate(0x5000, Prot::W()), None);
    x.pdpt_mut(0x5000)
        .unwrap()
        .set_flags(PdptFlags::Present() | PdptFlags::Writable() | PdptFlags::NX());
    assert_eq!(x.translate(0x5000, Prot::W()), Some(0xa000));
    assert_eq!(x.translate(0x5000, Prot::X()), None);
    assert_eq!(x.translate(0x5000, Prot::R() | Prot::W() | Prot::X()), None);
    x.pdpt_mut(0x5000).unwrap().set_flags(PdptFlags::Writable());
    assert_eq!(x.translate(0x5000, Prot::R()), None);
}

#[test]
fn a_request_for_several_kinds_needs_all_of_them() {
    let mut x = PageTable::default();
    x.insert(0x5000, 0xa000, Flags::Present() | Flags::Writable());
    assert_eq!(x.translate(0x5000, Prot::R() | Prot::W() | Prot::X()), Some(0xa000));
    x.insert(0x6000, 0xc000, Flags::Present());
    assert_eq!(x.translate(0x6000, Prot::R() | Prot::X()), Some(0xc000));
    assert_eq!(x.translate(0x6000, Prot::R() | Prot::W()), None);
}

#[test]
fn accessors_for_changing_reach_the_same_nodes() {
    let mut x = PageTable::default();
    assert!(x.pdpt_mut(0x4141_0000).is_none());
    assert!(x.pd_mut(0x4141_0000).is_none());
    assert!(x.pt_mut(0x4141_0000).is_none());
    assert!(x.pte_mut(0x4141_0000).is_none());
    x.insert(0x4141_0000, 0x8181_0000, Flags::Present());
    assert!(x.pd_mut(0x4141_0000 + (1 << 30)).is_none());
    assert!(x.pt_mut(0x4141_0000 + (1 << 21)).is_none());
    assert!(x.pte_mut(0x4141_0000 + (1 << 12)).is_none());
    x.pte_mut(0x4141_0000).unwrap().set_paddr(0x9000);
    assert_eq!(x.translate(0x4141_0000, Prot::R()), Some(0x9000));
    x.pt_mut(0x4141_0000).unwrap().set_pte(0x4141_1000, Pte::default());
    assert!(x.pte(0x4141_1000).is_some());
    assert_eq!(x.translate(0x4141_1000, Prot::R()), None);
    x.pd_mut(0x4141_0000).unwrap().set_pt(0x4141_0000, Pt::default());
    assert!(x.pte(0x4141_0000).is_none());
    assert!(x.pt(0x4141_0000).is_some());
    x.pdpt_mut(0x4141_0000).unwrap().set_pd(0x4141_0000, Pd::default());
    assert!(x.pt(0x4141_0000).is_none());
    assert!(x.pd(0x4141_0000).is_some());
}

#[test]
fn set_pdpt_replaces_the_subtree() {
    let mut x = PageTable::default();
    x.insert(0x4141_0000, 0x8181_0000, Flags::Present());
    let p = x.set_pdpt(0x4141_0000, Pdpt::default());
    p.set_flags(PdptFlags::User());
    assert_eq!(x.pdpt(0x4141_0000).unwrap().flags().bits(), 4);
    assert!(x.pd(0x4141_0000).is_none());
    assert_eq!(x.translate(0x4141_0000, Prot::R()), None);
    assert_eq!(x.page_count(), 2);
}

#[test]
fn a_walk_over_the_top_level_hands_out_the_occupied_slots() {
    let mut x = PageTable::default();
    assert!(x.iter().next().is_none());
    x.insert(5 << 39, 0, Flags::Present() | Flags::User());
    x.insert(0, 0, Flags::Present());
    x.insert(511 << 39, 0, Flags::Present() | Flags::NX());
    let mut it = x.iter();
    let mut present = Vec::new();
    while let Some((i, p)) = it.next() {
        present.push((i, p.flags().bits()));
    }
    assert_eq!(present, vec![(0, 1), (5, 5), (511, 0x8000_0000_0000_0001)]);
    assert!(it.next().is_none());
    let mut again = x.iter();
    assert_eq!(again.next().unwrap().0, 0);
    assert_eq!(again.next().unwrap().0, 5);
    assert_eq!(again.next().unwrap().0, 511);
    assert!(again.next().is_none());
}

#[test]
fn high_address_bits_do_not_pick_another_path() {
    let mut x = PageTable::default();
    x.insert(0xffff_8000_0000_1000, 0x3000, Flags::Present());
    assert_eq!(x.translate(0x0000_8000_0000_1234, Prot::R()), Some(0x3234));
    assert!(x.index(256).is_some());
}
