//! Reading a committed image as the hardware reads it.
//!
//! The hardware starts at the page of the top-level table. At each of the four levels it
//! reads the word that the index of the address selects, asks its flag bits for permission,
//! and goes on to the page whose address stands in bits 12 to 51 of the word. The page that
//! the fourth word names, plus the offset of the address, is the result.

use crate::addr::{page_offset, pd_index, pdpt_index, pml4_index, pt_index};
use crate::layout::{
    child_base, le_byte, lemma_sum_upto_mono, page_bytes, sum_upto, Image,
};
use crate::model::{permits, PageTableView, PdView, PdptView, PtView};
use vstd::prelude::*;

verus! {

/// Bits 12 to 51 of a word: the address of the page it refers to.
pub const ADDR_MASK: u64 = 0x000f_ffff_ffff_f000;

/// Word `i` of a page, read in little-endian byte order.
pub open spec fn word_at(page: Seq<u8>, i: int) -> u64 {
    (page[8 * i] as u64)
        | ((page[8 * i + 1] as u64) << 8)
        | ((page[8 * i + 2] as u64) << 16)
        | ((page[8 * i + 3] as u64) << 24)
        | ((page[8 * i + 4] as u64) << 32)
        | ((page[8 * i + 5] as u64) << 40)
        | ((page[8 * i + 6] as u64) << 48)
        | ((page[8 * i + 7] as u64) << 56)
}

/// One level of the walk: the address of the next page, taken from word `slot` of the page
/// at `page`, if the flag bits of the word permit the access.
pub open spec fn step(image: Image, page: u64, slot: int, prot: u32) -> Option<u64> {
    let word = word_at(image[page], slot);
    if permits(word, prot) {
        Some(word & ADDR_MASK)
    } else {
        None
    }
}

/// The walk of the hardware through `image` from the top-level page at `root`, for an
/// access of kind `prot` to `vaddr`.
pub open spec fn hardware_walk(image: Image, root: u64, vaddr: u64, prot: u32) -> Option<u64> {
    match step(image, root, pml4_index(vaddr) as int, prot) {
        Some(pdpt) => match step(image, pdpt, pdpt_index(vaddr) as int, prot) {
            Some(pd) => match step(image, pd, pd_index(vaddr) as int, prot) {
                Some(pt) => match step(image, pt, pt_index(vaddr) as int, prot) {
                    Some(page) => Some((page + page_offset(vaddr)) as u64),
                    None => None,
                },
                None => None,
            },
            None => None,
        },
        None => None,
    }
}

/// The eight little-endian bytes of a word give the word back.
proof fn lemma_bytes_to_word(w: u64)
    by (bit_vector)
    ensures
        (((w & 0xff) as u8) as u64)
            | (((((w >> 8) & 0xff) as u8) as u64) << 8)
            | (((((w >> 16) & 0xff) as u8) as u64) << 16)
            | (((((w >> 24) & 0xff) as u8) as u64) << 24)
            | (((((w >> 32) & 0xff) as u8) as u64) << 32)
            | (((((w >> 40) & 0xff) as u8) as u64) << 40)
            | (((((w >> 48) & 0xff) as u8) as u64) << 48)
            | (((((w >> 56) & 0xff) as u8) as u64) << 56) == w,
        (w >> 0) == w,
{
}

/// A word read from a page is the word that was laid down there.
pub proof fn lemma_word_at(words: Seq<u64>, i: int)
    requires
        words.len() == 512,
        0 <= i < 512,
    ensures
        word_at(page_bytes(words), i) == words[i],
{
    let w = words[i];
    let page = page_bytes(words);
    lemma_bytes_to_word(w);
    assert(page[8 * i] == le_byte(w, 0));
    assert(page[8 * i + 1] == le_byte(w, 1));
    assert(page[8 * i + 2] == le_byte(w, 2));
    assert(page[8 * i + 3] == le_byte(w, 3));
    assert(page[8 * i + 4] == le_byte(w, 4));
    assert(page[8 * i + 5] == le_byte(w, 5));
    assert(page[8 * i + 6] == le_byte(w, 6));
    assert(page[8 * i + 7] == le_byte(w, 7));
}

/// A word made of a page address below 2^52 and of flags gives both back: the address
/// under the address mask, and the three bits that a walk looks at as the flags have them.
proof fn lemma_word_parts(a: u64, f: u64)
    by (bit_vector)
    requires
        a % 0x1000 == 0,
        a < 0x10_0000_0000_0000,
        f & 0x8000_0000_0000_01ff == f || f & 0x8000_0000_0000_00bf == f,
    ensures
        (a | f) & 0x000f_ffff_ffff_f000 == a,
        ((a | f) & 0x1 == 0x1) == (f & 0x1 == 0x1),
        ((a | f) & 0x2 == 0x2) == (f & 0x2 == 0x2),
        ((a | f) & 0x8000_0000_0000_0000 == 0x8000_0000_0000_0000) == (f & 0x8000_0000_0000_0000
            == 0x8000_0000_0000_0000),
{
}

/// The word of a vacant slot is not present.
proof fn lemma_vacant_word()
    by (bit_vector)
    ensures
        0u64 & 0x1 != 0x1,
{
}

/// What stands in a part of a part of an image stands in the image.
proof fn lemma_part_of_part(inner: Image, middle: Image, outer: Image)
    requires
        inner.submap_of(middle),
        middle.submap_of(outer),
    ensures
        inner.submap_of(outer),
{
    assert forall|a: u64| #[trigger] inner.dom().contains(a) implies outer.dom().contains(a)
        && inner[a] == outer[a] by {
        assert(middle.dom().contains(a));
    }
}

/// Whether a subtree that stands at `base` with `count` pages fits the address bits of a
/// word: its first page is page-aligned and its last page ends below 2^52.
pub open spec fn fits(base: u64, count: nat) -> bool {
    &&& base % 0x1000 == 0
    &&& base + 0x1000 * count <= 0x10_0000_0000_0000
}

/// The page of a child stands where its parent's word says, and its subtree fits the
/// address bits where the parent's does.
proof fn lemma_child_fits(base: u64, count: nat, sizes: Seq<nat>, i: int)
    requires
        0 <= i < 512,
        count == 1 + sum_upto(sizes, 512),
        fits(base, count),
    ensures
        child_base(base, sizes, i) == base + 0x1000 * (1 + sum_upto(sizes, i)),
        fits(child_base(base, sizes, i), sizes[i]),
{
    lemma_sum_upto_mono(sizes, i, 512);
    lemma_sum_upto_mono(sizes, i + 1, 512);
}

impl PtView {
    /// The last level of the walk: the hardware finds the page of the leaf entry of
    /// `vaddr` where the entry is there and permits the access, and fails otherwise.
    pub proof fn lemma_step(self, image: Image, base: u64, vaddr: u64, prot: u32)
        requires
            self.wf(),
            self.image(base).submap_of(image),
            self.pte(vaddr) matches Some(e) ==> e.paddr < 0x10_0000_0000_0000,
        ensures
            step(image, base, pt_index(vaddr) as int, prot) == (match self.pte(vaddr) {
                Some(e) => if permits(e.flags, prot) {
                    Some(e.paddr)
                } else {
                    None
                },
                None => None,
            }),
    {
        assert(self.image(base).dom().contains(base));
        assert(image.dom().contains(base));
        assert(image[base] == page_bytes(self.words()));
        lemma_word_at(self.words(), pt_index(vaddr) as int);
        match self.pte(vaddr) {
            Some(e) => {
                lemma_word_parts(e.paddr, e.flags);
            },
            None => {
                lemma_vacant_word();
            },
        }
    }
}

impl PdView {
    /// One level of the walk: the hardware finds the page of the innermost table of
    /// `vaddr` where the table is there and permits the access, and fails otherwise.
    pub proof fn lemma_step(self, image: Image, base: u64, vaddr: u64, prot: u32)
        requires
            self.wf(),
            self.image(base).submap_of(image),
            fits(base, self.page_count()),
        ensures
            step(image, base, pd_index(vaddr) as int, prot) == (match self.pt(vaddr) {
                Some(t) => if permits(t.flags, prot) {
                    Some(child_base(base, self.sizes(), pd_index(vaddr) as int))
                } else {
                    None
                },
                None => None,
            }),
            self.pt(vaddr) matches Some(t) ==> t.image(
                child_base(base, self.sizes(), pd_index(vaddr) as int),
            ).submap_of(image) && fits(
                child_base(base, self.sizes(), pd_index(vaddr) as int),
                t.page_count(),
            ),
    {
        let i = pd_index(vaddr) as int;
        self.lemma_own_page(base);
        assert(image.dom().contains(base));
        assert(image[base] == page_bytes(self.words(base)));
        lemma_word_at(self.words(base), i);
        match self.pt(vaddr) {
            Some(t) => {
                let next = child_base(base, self.sizes(), i);
                lemma_child_fits(base, self.page_count(), self.sizes(), i);
                lemma_word_parts(next, t.flags);
                self.lemma_image_holds(base, i);
                lemma_part_of_part(t.image(next), self.image(base), image);
            },
            None => {
                lemma_vacant_word();
            },
        }
    }
}

impl PdptView {
    /// One level of the walk: the hardware finds the page of the directory of `vaddr`
    /// where the directory is there and permits the access, and fails otherwise.
    pub proof fn lemma_step(self, image: Image, base: u64, vaddr: u64, prot: u32)
        requires
            self.wf(),
            self.image(base).submap_of(image),
            fits(base, self.page_count()),
        ensures
            step(image, base, pdpt_index(vaddr) as int, prot) == (match self.pd(vaddr) {
                Some(d) => if permits(d.flags, prot) {
                    Some(child_base(base, self.sizes(), pdpt_index(vaddr) as int))
                } else {
                    None
                },
                None => None,
            }),
            self.pd(vaddr) matches Some(d) ==> d.image(
                child_base(base, self.sizes(), pdpt_index(vaddr) as int),
            ).submap_of(image) && fits(
                child_base(base, self.sizes(), pdpt_index(vaddr) as int),
                d.page_count(),
            ),
    {
        let i = pdpt_index(vaddr) as int;
        self.lemma_own_page(base);
        assert(image.dom().contains(base));
        assert(image[base] == page_bytes(self.words(base)));
        lemma_word_at(self.words(base), i);
        match self.pd(vaddr) {
            Some(d) => {
                let next = child_base(base, self.sizes(), i);
                lemma_child_fits(base, self.page_count(), self.sizes(), i);
                lemma_word_parts(next, d.flags);
                self.lemma_image_holds(base, i);
                lemma_part_of_part(d.image(next), self.image(base), image);
            },
            None => {
                lemma_vacant_word();
            },
        }
    }
}

impl PageTableView {
    /// The first level of the walk: the hardware finds the page of the directory-pointer
    /// table of `vaddr` where the table is there and permits the access, and fails
    /// otherwise.
    pub proof fn lemma_step(self, vaddr: u64, prot: u32)
        requires
            self.wf(),
        ensures
            step(self.image(), 0, pml4_index(vaddr) as int, prot) == (match self.pdpt(vaddr) {
                Some(p) => if permits(p.flags, prot) {
                    Some(child_base(0, self.sizes(), pml4_index(vaddr) as int))
                } else {
                    None
                },
                None => None,
            }),
            self.pdpt(vaddr) matches Some(p) ==> p.image(
                child_base(0, self.sizes(), pml4_index(vaddr) as int),
            ).submap_of(self.image()) && fits(
                child_base(0, self.sizes(), pml4_index(vaddr) as int),
                p.page_count(),
            ),
    {
        let i = pml4_index(vaddr) as int;
        self.lemma_page_count_bound();
        assert(self.image()[0] == page_bytes(self.words()));
        lemma_word_at(self.words(), i);
        match self.pdpt(vaddr) {
            Some(p) => {
                let next = child_base(0, self.sizes(), i);
                lemma_child_fits(0, self.page_count(), self.sizes(), i);
                lemma_word_parts(next, p.flags);
                self.lemma_image_holds(i);
            },
            None => {
                lemma_vacant_word();
            },
        }
    }

    /// The committed image means what the tree means: read as the hardware reads it, from
    /// the top-level page at address 0, it translates `vaddr` as `translate` does. The
    /// address of the leaf entry has to fit the 40 address bits of a word.
    pub proof fn lemma_image_translates(self, vaddr: u64, prot: u32)
        requires
            self.wf(),
            self.pte(vaddr) matches Some(e) ==> e.paddr < 0x10_0000_0000_0000,
        ensures
            hardware_walk(self.image(), 0, vaddr, prot) == self.translate(vaddr, prot),
    {
        let image = self.image();
        self.lemma_step(vaddr, prot);
        if let Some(p) = self.pdpt(vaddr) {
            let a3 = child_base(0, self.sizes(), pml4_index(vaddr) as int);
            p.lemma_step(image, a3, vaddr, prot);
            if let Some(d) = p.pd(vaddr) {
                let a2 = child_base(a3, p.sizes(), pdpt_index(vaddr) as int);
                d.lemma_step(image, a2, vaddr, prot);
                if let Some(t) = d.pt(vaddr) {
                    let a1 = child_base(a2, d.sizes(), pd_index(vaddr) as int);
                    t.lemma_step(image, a1, vaddr, prot);
                }
            }
        }
    }
}

} // verus!
