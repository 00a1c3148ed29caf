//! Serializing the tree into physical pages.
//!
//! Each page is an anonymous memory map of 4096 bytes, so that it can be handed to whatever
//! runs on the tables afterwards. The maps come from the `memmap` crate; what this module
//! takes on trust about them is stated at the top.

use crate::layout::{
    blank_page, first_words, le_byte, lemma_all_words, lemma_blank_page, lemma_next_word,
    lemma_sum_upto_mono, lemma_vacant_images, lemma_vacant_sizes, lemma_vacant_words, page_bytes,
    page_range, sum_upto, union_upto, with_word, Image,
};
use crate::pd::Pd;
use crate::pdpt::Pdpt;
use crate::pt::Pt;
use crate::table::PageTable;
use memmap::MmapMut;
use std::collections::BTreeMap;
use vstd::prelude::*;

verus! {

/// `memmap::MmapMut`, a writable memory map. Nothing of its inside is known here.
#[verifier::external_type_specification]
#[verifier::external_body]
pub struct ExMmapMut(memmap::MmapMut);

/// `std::io::Error`, with which `memmap` reports that a map could not be made.
#[verifier::external_type_specification]
#[verifier::external_body]
pub struct ExIoError(std::io::Error);

/// The bytes that a memory map holds, which are the bytes that it derefs to.
pub uninterp spec fn mmap_bytes(m: MmapMut) -> Seq<u8>;

/// `MmapMut::map_anon` makes an anonymous map of `length` bytes, or fails where the system
/// refuses the map. A fresh anonymous map has the length asked for and reads as zeros.
pub assume_specification[ MmapMut::map_anon ](length: usize) -> (r: std::io::Result<MmapMut>)
    ensures
        r matches Ok(m) ==> mmap_bytes(m) == Seq::new(length as nat, |i: int| 0u8),
;

/// Stores `b` as byte `i` of the map, through `MmapMut`'s `deref_mut`, which hands out the
/// bytes of the map as a slice. No other byte changes.
#[verifier::external_body]
fn store_byte(m: &mut MmapMut, i: usize, b: u8)
    requires
        i < mmap_bytes(*old(m)).len(),
    ensures
        mmap_bytes(*final(m)) == mmap_bytes(*old(m)).update(i as int, b),
{
    m[i] = b;
}

/// The bytes of each page of a set of memory maps, by address.
pub open spec fn contents(pages: Map<u64, MmapMut>) -> Image {
    pages.map_values(|m: MmapMut| mmap_bytes(m))
}

/// Every map of `pool` is a page of zeros.
pub open spec fn all_blank(pool: Seq<MmapMut>) -> bool {
    forall|i: int| 0 <= i < pool.len() ==> mmap_bytes(#[trigger] pool[i]) == blank_page()
}

/// Hands out the next free physical address and moves on by one page.
pub fn commit_next(base: &mut u64) -> (r: u64)
    requires
        *old(base) + 0x1000 <= u64::MAX,
    ensures
        r == *old(base),
        *final(base) == *old(base) + 0x1000,
{
    let r = *base;
    *base += 0x1000;
    r
}

/// Writes `w` as word `idx` of a page, in little-endian byte order.
fn put_word(page: &mut MmapMut, idx: usize, w: u64)
    requires
        idx < 512,
        mmap_bytes(*old(page)).len() == 4096,
    ensures
        mmap_bytes(*final(page)) == with_word(mmap_bytes(*old(page)), idx as int, w),
{
    let ghost before = mmap_bytes(*page);
    let mut k: usize = 0;
    while k < 8
        invariant
            k <= 8,
            idx < 512,
            before.len() == 4096,
            mmap_bytes(*page).len() == 4096,
            forall|i: int|
                0 <= i < 4096 ==> mmap_bytes(*page)[i] == if i / 8 == idx && i % 8 < k {
                    le_byte(w, (i % 8) as nat)
                } else {
                    before[i]
                },
        decreases 8 - k,
    {
        store_byte(page, 8 * idx + k, ((w >> (8 * k)) & 0xff) as u8);
        k += 1;
    }
    assert(mmap_bytes(*page) =~= with_word(before, idx as int, w));
}

/// Lays out an innermost table: takes a blank page from `pool` and the next address from
/// `base`, writes the leaf entries into the page and files it in `out`.
fn commit_pt(
    pt: &Pt,
    pool: &mut Vec<MmapMut>,
    base: &mut u64,
    out: &mut BTreeMap<u64, MmapMut>,
) -> (paddr: u64)
    requires
        old(pool)@.len() >= pt@.page_count(),
        all_blank(old(pool)@),
        *old(base) + 0x1000 * pt@.page_count() <= u64::MAX,
    ensures
        paddr == *old(base),
        *final(base) == *old(base) + 0x1000 * pt@.page_count(),
        final(pool)@ == old(pool)@.subrange(0, old(pool)@.len() - pt@.page_count()),
        contents(final(out)@) == contents(old(out)@).union_prefer_right(pt@.image(paddr)),
{
    proof {
        pt.lemma_view_wf();
        lemma_blank_page(pt@.words());
    }
    let ghost out0 = contents(out@);
    let mut backing = pool.pop().unwrap();
    let paddr = commit_next(base);
    let mut it = pt.iter();
    loop
        invariant
            pt@.wf(),
            it.table() == pt@,
            it.pos() <= 512,
            mmap_bytes(backing) == page_bytes(first_words(pt@.words(), it.pos() as int)),
        ensures
            it.pos() == 512,
        decreases 512 - it.pos(),
    {
        let ghost from = it.pos() as int;
        match it.next() {
            Some((ss, pte)) => {
                proof {
                    lemma_vacant_words(pt@.words(), from, ss as int);
                    lemma_next_word(pt@.words(), ss as int);
                }
                put_word(&mut backing, ss, pte.paddr() | pte.flags().bits());
            },
            None => {
                proof {
                    lemma_vacant_words(pt@.words(), from, 512);
                }
                break;
            },
        }
    }
    proof {
        lemma_all_words(pt@.words());
    }
    out.insert(paddr, backing);
    assert(contents(out@) =~= out0.union_prefer_right(pt@.image(paddr)));
    paddr
}

/// Lays out a directory and what is below it: takes a blank page from `pool` and the next
/// address from `base`, lays out each innermost table in slot order, writes its address and
/// flags into the directory's page, and files that page in `out`.
fn commit_pd(
    pd: &Pd,
    pool: &mut Vec<MmapMut>,
    base: &mut u64,
    out: &mut BTreeMap<u64, MmapMut>,
) -> (paddr: u64)
    requires
        old(pool)@.len() >= pd@.page_count(),
        all_blank(old(pool)@),
        *old(base) + 0x1000 * pd@.page_count() <= u64::MAX,
    ensures
        paddr == *old(base),
        *final(base) == *old(base) + 0x1000 * pd@.page_count(),
        final(pool)@ == old(pool)@.subrange(0, old(pool)@.len() - pd@.page_count()),
        contents(final(out)@) == contents(old(out)@).union_prefer_right(pd@.image(paddr)),
{
    let ghost pool0 = pool@;
    let ghost out0 = contents(out@);
    let ghost sizes = pd@.sizes();
    let mut backing = pool.pop().unwrap();
    let paddr = commit_next(base);
    proof {
        pd.lemma_view_wf();
        lemma_blank_page(pd@.words(paddr));
        assert(out0 =~= out0.union_prefer_right(union_upto(pd@.images(paddr), 0)));
    }
    let mut it = pd.iter();
    loop
        invariant
            pd@.wf(),
            it.table() == pd@,
            it.pos() <= 512,
            sizes == pd@.sizes(),
            paddr + 0x1000 * pd@.page_count() <= u64::MAX,
            pool0.len() >= pd@.page_count(),
            all_blank(pool0),
            *base == paddr + 0x1000 * (1 + sum_upto(sizes, it.pos() as int)),
            pool@ == pool0.subrange(0, pool0.len() - 1 - sum_upto(sizes, it.pos() as int)),
            mmap_bytes(backing) == page_bytes(first_words(pd@.words(paddr), it.pos() as int)),
            contents(out@) == out0.union_prefer_right(
                union_upto(pd@.images(paddr), it.pos() as int),
            ),
        ensures
            it.pos() == 512,
        decreases 512 - it.pos(),
    {
        let ghost from = it.pos() as int;
        match it.next() {
            Some((rr, pt)) => {
                proof {
                    lemma_vacant_sizes(sizes, from, rr as int);
                    lemma_vacant_words(pd@.words(paddr), from, rr as int);
                    lemma_vacant_images(pd@.images(paddr), from, rr as int);
                    lemma_sum_upto_mono(sizes, rr as int + 1, 512);
                    lemma_next_word(pd@.words(paddr), rr as int);
                }
                let pt_paddr = commit_pt(pt, pool, base, out);
                put_word(&mut backing, rr, pt_paddr | pt.flags().bits());
                assert(contents(out@) =~= out0.union_prefer_right(
                    union_upto(pd@.images(paddr), rr as int + 1),
                ));
            },
            None => {
                proof {
                    lemma_vacant_sizes(sizes, from, 512);
                    lemma_vacant_words(pd@.words(paddr), from, 512);
                    lemma_vacant_images(pd@.images(paddr), from, 512);
                }
                break;
            },
        }
    }
    proof {
        lemma_all_words(pd@.words(paddr));
    }
    let ghost before = contents(out@);
    let ghost page = mmap_bytes(backing);
    out.insert(paddr, backing);
    assert(contents(out@) =~= before.insert(paddr, page));
    assert(contents(out@) =~= out0.union_prefer_right(pd@.image(paddr)));
    paddr
}

/// Lays out a directory-pointer table and what is below it: takes a blank page from `pool`
/// and the next address from `base`, lays out each directory in slot order, writes its
/// address and flags into the table's page, and files that page in `out`.
fn commit_pdpt(
    pdpt: &Pdpt,
    pool: &mut Vec<MmapMut>,
    base: &mut u64,
    out: &mut BTreeMap<u64, MmapMut>,
) -> (paddr: u64)
    requires
        old(pool)@.len() >= pdpt@.page_count(),
        all_blank(old(pool)@),
        *old(base) + 0x1000 * pdpt@.page_count() <= u64::MAX,
    ensures
        paddr == *old(base),
        *final(base) == *old(base) + 0x1000 * pdpt@.page_count(),
        final(pool)@ == old(pool)@.subrange(0, old(pool)@.len() - pdpt@.page_count()),
        contents(final(out)@) == contents(old(out)@).union_prefer_right(pdpt@.image(paddr)),
{
    let ghost pool0 = pool@;
    let ghost out0 = contents(out@);
    let ghost sizes = pdpt@.sizes();
    let mut backing = pool.pop().unwrap();
    let paddr = commit_next(base);
    proof {
        pdpt.lemma_view_wf();
        lemma_blank_page(pdpt@.words(paddr));
        assert(out0 =~= out0.union_prefer_right(union_upto(pdpt@.images(paddr), 0)));
    }
    let mut it = pdpt.iter();
    loop
        invariant
            pdpt@.wf(),
            it.table() == pdpt@,
            it.pos() <= 512,
            sizes == pdpt@.sizes(),
            paddr + 0x1000 * pdpt@.page_count() <= u64::MAX,
            pool0.len() >= pdpt@.page_count(),
            all_blank(pool0),
            *base == paddr + 0x1000 * (1 + sum_upto(sizes, it.pos() as int)),
            pool@ == pool0.subrange(0, pool0.len() - 1 - sum_upto(sizes, it.pos() as int)),
            mmap_bytes(backing) == page_bytes(first_words(pdpt@.words(paddr), it.pos() as int)),
            contents(out@) == out0.union_prefer_right(
                union_upto(pdpt@.images(paddr), it.pos() as int),
            ),
        ensures
            it.pos() == 512,
        decreases 512 - it.pos(),
    {
        let ghost from = it.pos() as int;
        match it.next() {
            Some((qq, pd)) => {
                proof {
                    lemma_vacant_sizes(sizes, from, qq as int);
                    lemma_vacant_words(pdpt@.words(paddr), from, qq as int);
                    lemma_vacant_images(pdpt@.images(paddr), from, qq as int);
                    lemma_sum_upto_mono(sizes, qq as int + 1, 512);
                    lemma_next_word(pdpt@.words(paddr), qq as int);
                }
                let pd_paddr = commit_pd(pd, pool, base, out);
                put_word(&mut backing, qq, pd_paddr | pd.flags().bits());
                assert(contents(out@) =~= out0.union_prefer_right(
                    union_upto(pdpt@.images(paddr), qq as int + 1),
                ));
            },
            None => {
                proof {
                    lemma_vacant_sizes(sizes, from, 512);
                    lemma_vacant_words(pdpt@.words(paddr), from, 512);
                    lemma_vacant_images(pdpt@.images(paddr), from, 512);
                }
                break;
            },
        }
    }
    proof {
        lemma_all_words(pdpt@.words(paddr));
    }
    let ghost before = contents(out@);
    let ghost page = mmap_bytes(backing);
    out.insert(paddr, backing);
    assert(contents(out@) =~= before.insert(paddr, page));
    assert(contents(out@) =~= out0.union_prefer_right(pdpt@.image(paddr)));
    paddr
}

impl PageTable {
    /// Serializes the tree into the pages of `pool`.
    ///
    /// The top-level table takes physical address 0, and every other node the next free
    /// page when the walk first reaches it, a node before its children and the children in
    /// slot order. The result is address 0 and the pages by their addresses.
    pub fn commit_with(self, pool: Vec<MmapMut>) -> (r: (u64, BTreeMap<u64, MmapMut>))
        requires
            pool@.len() == self@.page_count(),
            all_blank(pool@),
        ensures
            r.0 == 0,
            contents(r.1@) == self@.image(),
            r.1@.dom() == page_range(0, self@.page_count()),
            r.1@.len() == self@.page_count(),
    {
        let mut pool = pool;
        let mut out: BTreeMap<u64, MmapMut> = BTreeMap::new();
        let mut base: u64 = 0;
        let ghost pool0 = pool@;
        let ghost sizes = self@.sizes();
        proof {
            self.lemma_view_wf();
            self@.lemma_page_count_bound();
        }
        let mut backing = pool.pop().unwrap();
        let paddr = commit_next(&mut base);
        proof {
            lemma_blank_page(self@.words());
            assert(contents(out@) =~= union_upto(self@.images(), 0));
        }
        let mut it = self.iter();
        loop
            invariant
                paddr == 0,
                self@.wf(),
                it.table() == self@,
                it.pos() <= 512,
                sizes == self@.sizes(),
                self@.page_count() <= 134480385,
                pool0.len() >= self@.page_count(),
                all_blank(pool0),
                base == 0x1000 * (1 + sum_upto(sizes, it.pos() as int)),
                pool@ == pool0.subrange(0, pool0.len() - 1 - sum_upto(sizes, it.pos() as int)),
                mmap_bytes(backing) == page_bytes(first_words(self@.words(), it.pos() as int)),
                contents(out@) == union_upto(self@.images(), it.pos() as int),
            ensures
                it.pos() == 512,
            decreases 512 - it.pos(),
        {
            let ghost from = it.pos() as int;
            match it.next() {
                Some((pp, pdpt)) => {
                    proof {
                        lemma_vacant_sizes(sizes, from, pp as int);
                        lemma_vacant_words(self@.words(), from, pp as int);
                        lemma_vacant_images(self@.images(), from, pp as int);
                        lemma_sum_upto_mono(sizes, pp as int + 1, 512);
                        lemma_next_word(self@.words(), pp as int);
                    }
                    let pdpt_paddr = commit_pdpt(pdpt, &mut pool, &mut base, &mut out);
                    put_word(&mut backing, pp, pdpt_paddr | pdpt.flags().bits());
                    assert(contents(out@) =~= union_upto(self@.images(), pp as int + 1));
                },
                None => {
                    proof {
                        lemma_vacant_sizes(sizes, from, 512);
                        lemma_vacant_words(self@.words(), from, 512);
                        lemma_vacant_images(self@.images(), from, 512);
                    }
                    break;
                },
            }
        }
        proof {
            lemma_all_words(self@.words());
        }
        let ghost before = contents(out@);
        let ghost page = mmap_bytes(backing);
        out.insert(paddr, backing);
        assert(contents(out@) =~= before.insert(paddr, page));
        proof {
            self@.lemma_image_dom();
            assert(out@.dom() =~= contents(out@).dom());
        }
        (paddr, out)
    }

    /// Serializes the tree into freshly mapped pages.
    ///
    /// One anonymous page of 4096 bytes is mapped for each node; where the system refuses
    /// one, its error is handed on and nothing is produced. Otherwise the result is that of
    /// `commit_with` on the fresh pages.
    pub fn commit(self) -> (r: Result<(u64, BTreeMap<u64, MmapMut>), std::io::Error>)
        ensures
            r matches Ok((root, pages)) ==> {
                &&& root == 0
                &&& contents(pages@) == self@.image()
                &&& pages@.dom() == page_range(0, self@.page_count())
                &&& pages@.len() == self@.page_count()
            },
    {
        let n = self.page_count();
        let mut pool: Vec<MmapMut> = Vec::new();
        let mut i: usize = 0;
        while i < n
            invariant
                i <= n,
                pool@.len() == i,
                all_blank(pool@),
            decreases n - i,
        {
            let page = MmapMut::map_anon(0x1000)?;
            assert(mmap_bytes(page) =~= blank_page());
            pool.push(page);
            i += 1;
        }
        Ok(self.commit_with(pool))
    }
}

} // verus!
