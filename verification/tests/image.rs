use memmap::MmapMut;
use pt::{Flags, PageTable};
use std::collections::BTreeMap;

fn word(page: &[u8], i: usize) -> u64 {
    let mut b = [0u8; 8];
    b.copy_from_slice(&page[8 * i..8 * i + 8]);
    u64::from_le_bytes(b)
}

fn words_set(page: &[u8]) -> Vec<(usize, u64)> {
    let mut out = Vec::new();
    for i in 0..512 {
        let w = word(page, i);
        if w != 0 {
            out.push((i, w));
        }
    }
    out
}

fn addresses(pages: &BTreeMap<u64, MmapMut>) -> Vec<u64> {
    pages.keys().copied().collect()
}

#[test]
fn an_empty_tree_commits_to_one_zero_page() {
    let x = PageTable::default();
    let (root, pages) = x.commit().unwrap();
    assert_eq!(root, 0);
    assert_eq!(addresses(&pages), vec![0]);
    assert_eq!(pages[&0].len(), 4096);
    assert!(pages[&0].iter().all(|b| *b == 0));
}

#[test]
fn one_mapping_commits_to_a_chain_of_four_pages() {
    let mut x = PageTable::default();
    x.insert(0x4141_0000, 0x8181_0000, Flags::Present());
    let (root, pages) = x.commit().unwrap();
    assert_eq!(root, 0);
    assert_eq!(addresses(&pages), vec![0, 0x1000, 0x2000, 0x3000]);
    for page in pages.values() {
        assert_eq!(page.len(), 4096);
    }
    assert_eq!(words_set(&pages[&0]), vec![(0, 0x1001)]);
    assert_eq!(words_set(&pages[&0x1000]), vec![(1, 0x2001)]);
    assert_eq!(words_set(&pages[&0x2000]), vec![(10, 0x3001)]);
    assert_eq!(words_set(&pages[&0x3000]), vec![(16, 0x8181_0001)]);
}

#[test]
fn words_are_little_endian_at_eight_times_the_slot() {
    let mut x = PageTable::default();
    x.insert(
        0x4141_0000,
        0x1122_3344_5566_7000,
        Flags::Present() | Flags::Writable() | Flags::NX(),
    );
    let (_, pages) = x.commit().unwrap();
    let leaf = &pages[&0x3000];
    assert_eq!(&leaf[128..136], &[0x03, 0x70, 0x66, 0x55, 0x44, 0x33, 0x22, 0x91]);
    assert!(leaf[..128].iter().all(|b| *b == 0));
    assert!(leaf[136..].iter().all(|b| *b == 0));
    let top = &pages[&0];
    assert_eq!(&top[0..8], &[0x03, 0x10, 0, 0, 0, 0, 0, 0x80]);
    assert!(top[8..].iter().all(|b| *b == 0));
}

#[test]
fn a_table_word_carries_the_flags_its_level_knows() {
    let mut x = PageTable::default();
    x.insert(0x4141_0000, 0x8181_0000, Flags::all());
    let (_, pages) = x.commit().unwrap();
    assert_eq!(word(&pages[&0], 0), 0x8000_0000_0000_103f);
    assert_eq!(word(&pages[&0x1000], 1), 0x8000_0000_0000_203f);
    assert_eq!(word(&pages[&0x2000], 10), 0x8000_0000_0000_303f);
    assert_eq!(word(&pages[&0x3000], 16), 0x8000_0000_8181_007f);
}

#[test]
fn pages_are_numbered_depth_first_in_slot_order() {
    let mut x = PageTable::default();
    // Inserted out of order on purpose: the layout goes by slots, not by time.
    x.insert(3 << 39, 0xd000, Flags::Present());
    x.insert((1 << 30) | (2 << 21), 0xc000, Flags::Present());
    x.insert(1 << 30, 0xb000, Flags::Present());
    x.insert(0, 0xa000, Flags::Present());
    let (root, pages) = x.commit().unwrap();
    assert_eq!(root, 0);
    let expected: Vec<u64> = (0..10).map(|k| k * 0x1000).collect();
    assert_eq!(addresses(&pages), expected);
    // top level: slot 0 and slot 3
    assert_eq!(words_set(&pages[&0]), vec![(0, 0x1001), (3, 0x7001)]);
    // first directory-pointer table: slot 0 and slot 1
    assert_eq!(words_set(&pages[&0x1000]), vec![(0, 0x2001), (1, 0x4001)]);
    // directory of address 0, then its table
    assert_eq!(words_set(&pages[&0x2000]), vec![(0, 0x3001)]);
    assert_eq!(words_set(&pages[&0x3000]), vec![(0, 0xa001)]);
    // directory of 1 << 30 with two tables, each right after the one before
    assert_eq!(words_set(&pages[&0x4000]), vec![(0, 0x5001), (2, 0x6001)]);
    assert_eq!(words_set(&pages[&0x5000]), vec![(0, 0xb001)]);
    assert_eq!(words_set(&pages[&0x6000]), vec![(0, 0xc001)]);
    // the subtree of top-level slot 3 comes last
    assert_eq!(words_set(&pages[&0x7000]), vec![(0, 0x8001)]);
    assert_eq!(words_set(&pages[&0x8000]), vec![(0, 0x9001)]);
    assert_eq!(words_set(&pages[&0x9000]), vec![(0, 0xd001)]);
}

#[test]
fn two_leaves_of_one_table_share_its_page() {
    let mut x = PageTable::default();
    x.insert(0x4141_0000, 0x8181_0000, Flags::Present());
    x.insert(0x4141_1000, 0x8181_1000, Flags::Present() | Flags::Writable());
    let (_, pages) = x.commit().unwrap();
    assert_eq!(addresses(&pages), vec![0, 0x1000, 0x2000, 0x3000]);
    assert_eq!(words_set(&pages[&0x3000]), vec![(16, 0x8181_0001), (17, 0x8181_1003)]);
    assert_eq!(words_set(&pages[&0x2000]), vec![(10, 0x3003)]);
}

#[test]
fn the_number_of_pages_is_the_number_of_nodes() {
    let mut x = PageTable::default();
    assert_eq!(x.page_count(), 1);
    x.insert(0x4141_0000, 0x8181_0000, Flags::User() | Flags::Present());
    assert_eq!(x.page_count(), 4);
    x.insert(0x1234_5000, 0x6789_0000, Flags::User() | Flags::Present() | Flags::Writable());
    assert_eq!(x.page_count(), 6);
    x.insert(1 << 39, 0, Flags::Present());
    assert_eq!(x.page_count(), 9);
    x.insert((1 << 39) | (1 << 12), 0, Flags::Present());
    assert_eq!(x.page_count(), 9);
    let (_, pages) = x.commit().unwrap();
    assert_eq!(pages.len(), 9);
    let expected: Vec<u64> = (0..9).map(|k| k * 0x1000).collect();
    assert_eq!(addresses(&pages), expected);
}

#[test]
fn commit_with_fills_the_pages_it_is_given() {
    let mut x = PageTable::default();
    x.insert(0x4141_0000, 0x8181_0000, Flags::Present());
    let n = x.page_count();
    assert_eq!(n, 4);
    let mut pool = Vec::new();
    for _ in 0..n {
        let page = MmapMut::map_anon(0x1000).unwrap();
        assert_eq!(page.len(), 4096);
        assert!(page.iter().all(|b| *b == 0));
        pool.push(page);
    }
    let (root, pages) = x.commit_with(pool);
    assert_eq!(root, 0);
    assert_eq!(addresses(&pages), vec![0, 0x1000, 0x2000, 0x3000]);
    assert_eq!(words_set(&pages[&0]), vec![(0, 0x1001)]);
    assert_eq!(words_set(&pages[&0x3000]), vec![(16, 0x8181_0001)]);
}

#[test]
fn an_entry_without_address_and_flags_leaves_its_word_zero() {
    let mut x = PageTable::default();
    x.insert(0x4141_0000, 0, Flags::empty());
    let (_, pages) = x.commit().unwrap();
    assert_eq!(pages.len(), 4);
    assert_eq!(words_set(&pages[&0]), vec![(0, 0x1000)]);
    assert_eq!(words_set(&pages[&0x3000]), vec![]);
}
