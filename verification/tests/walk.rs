use memmap::MmapMut;
use pt::{Flags, PageTable, Prot};
use std::collections::BTreeMap;

/// Reads the committed pages as the hardware does: four words, each asked for permission,
/// each naming the next page in its bits 12 to 51.
fn hardware_walk(pages: &BTreeMap<u64, MmapMut>, root: u64, va: u64, r: Prot) -> Option<u64> {
    let mut page = root;
    for shift in [39u32, 30, 21, 12] {
        let slot = ((va >> shift) & 0x1ff) as usize;
        let bytes = &pages[&page][8 * slot..8 * slot + 8];
        let mut b = [0u8; 8];
        b.copy_from_slice(bytes);
        let e = u64::from_le_bytes(b);
        if e & 1 == 0 {
            return None;
        }
        if r.contains(Prot::W()) && e & 2 == 0 {
            return None;
        }
        if r.contains(Prot::X()) && e >> 63 == 1 {
            return None;
        }
        page = e & 0x000f_ffff_ffff_f000;
    }
    Some(page + (va & 0xfff))
}

fn build() -> PageTable {
    let mut x = PageTable::default();
    x.insert(0x4141_0000, 0x8181_0000, Flags::User() | Flags::Present());
    x.insert(
        0x1234_5000,
        0x6789_0000,
        Flags::User() | Flags::Present() | Flags::Writable(),
    );
    x.insert(0x4141_1000, 0x000f_ffff_ffff_f000, Flags::Present() | Flags::NX());
    x.insert(0xffff_8000_0000_0000, 0x2000, Flags::all());
    x.insert(0x7000, 0x3000, Flags::Writable() | Flags::Dirty());
    x.insert(3 << 30, 0x5000, Flags::Present() | Flags::Writable() | Flags::Accessed());
    x
}

#[test]
fn the_image_read_as_the_hardware_reads_it_translates_as_the_tree_does() {
    let requests = vec![
        Prot::empty(),
        Prot::R(),
        Prot::W(),
        Prot::X(),
        Prot::R() | Prot::W(),
        Prot::R() | Prot::X(),
        Prot::W() | Prot::X(),
        Prot::all(),
    ];
    let probes: Vec<u64> = vec![
        0,
        0x4141_0000,
        0x4141_0abc,
        0x4141_1000,
        0x4141_1fff,
        0x4141_2000,
        0x1234_5008,
        0x1234_4fff,
        0xffff_8000_0000_0123,
        0x0000_8000_0000_0123,
        0x7000,
        0x7001,
        3 << 30,
        (3 << 30) + 0xfff,
        (3 << 30) + 0x1000,
        5 << 39,
        u64::MAX,
    ];
    let mut expected = Vec::new();
    let x = build();
    for va in probes.iter() {
        for r in requests.iter() {
            expected.push(x.translate(*va, *r));
        }
    }
    assert!(expected.iter().any(|e| e.is_some()));
    assert!(expected.iter().any(|e| e.is_none()));
    let (root, pages) = x.commit().unwrap();
    let mut found = Vec::new();
    for va in probes.iter() {
        for r in requests.iter() {
            found.push(hardware_walk(&pages, root, *va, *r));
        }
    }
    assert_eq!(found, expected);
    assert_eq!(hardware_walk(&pages, root, 0x4141_0abc, Prot::R()), Some(0x8181_0abc));
    assert_eq!(hardware_walk(&pages, root, 0x4141_1fff, Prot::R()), Some(0x000f_ffff_ffff_ffff));
    assert_eq!(hardware_walk(&pages, root, 0x1234_5008, Prot::W()), Some(0x6789_0008));
    assert_eq!(hardware_walk(&pages, root, 0x7000, Prot::R()), None);
}
