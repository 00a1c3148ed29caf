//! The mathematical model of the tree, and what `insert` and `translate` mean on it.
//!
//! Every node is modelled by its flag bits and a sequence of 512 optional children; a leaf
//! entry by its page address and flag bits. The executable types of this crate have these
//! as their views, and every contract is stated over them.

use crate::addr::{page_base, pd_index, pdpt_index, pml4_index, pt_index, page_offset};
use crate::flags::{NX, PRESENT, PTE_MASK, TABLE_MASK, WRITABLE};
use crate::prot::{PROT_W, PROT_X};
use vstd::prelude::*;

verus! {

/// A leaf entry: the address of a page and the flags of the mapping.
#[verifier::ext_equal]
pub struct PteView {
    pub paddr: u64,
    pub flags: u64,
}

/// An innermost table: aggregate flags and 512 optional leaf entries.
#[verifier::ext_equal]
pub struct PtView {
    pub flags: u64,
    pub ptes: Seq<Option<PteView>>,
}

/// A directory: aggregate flags and 512 optional innermost tables.
#[verifier::ext_equal]
pub struct PdView {
    pub flags: u64,
    pub pts: Seq<Option<PtView>>,
}

/// A directory-pointer table: aggregate flags and 512 optional directories.
#[verifier::ext_equal]
pub struct PdptView {
    pub flags: u64,
    pub pds: Seq<Option<PdView>>,
}

/// The whole tree: 512 optional directory-pointer tables.
#[verifier::ext_equal]
pub struct PageTableView {
    pub pdpts: Seq<Option<PdptView>>,
}

/// 512 slots without a child.
pub open spec fn vacant<T>() -> Seq<Option<T>> {
    Seq::new(512, |i: int| None)
}

/// The view of what a slot holds.
pub open spec fn slot_view<T: View>(slot: Option<Box<T>>) -> Option<T::V> {
    match slot {
        Some(child) => Some(child@),
        None => None,
    }
}

/// The view of what a borrowed slot holds.
pub open spec fn ref_view<T: View>(slot: Option<&Box<T>>) -> Option<T::V> {
    match slot {
        Some(child) => Some(child@),
        None => None,
    }
}

/// Whether a node with flags `flags` lets an access of kind `prot` through: it is present,
/// it is writable if a write is asked for, and it does not forbid execution if an
/// instruction fetch is asked for.
pub open spec fn permits(flags: u64, prot: u32) -> bool {
    &&& flags & PRESENT == PRESENT
    &&& (prot & PROT_W == PROT_W ==> flags & WRITABLE == WRITABLE)
    &&& (prot & PROT_X == PROT_X ==> flags & NX != NX)
}

impl PteView {
    /// The page address is page-aligned, and the flags are flags of a leaf entry.
    pub open spec fn wf(self) -> bool {
        &&& self.paddr % 0x1000 == 0
        &&& self.flags & PTE_MASK == self.flags
    }

    /// The entry a slot gets before its first insert.
    pub open spec fn empty() -> Self {
        PteView { paddr: 0, flags: 0 }
    }

    /// The entry after an insert of `paddr` with flags `f`: the address is replaced by the
    /// page of `paddr`, the flags are widened by `f`.
    pub open spec fn insert(self, paddr: u64, f: u64) -> Self {
        PteView { paddr: page_base(paddr), flags: self.flags | (f & PTE_MASK) }
    }
}

impl PtView {
    /// The flags are flags of a table level, there are 512 slots, and every entry is well-formed.
    pub open spec fn wf(self) -> bool {
        &&& self.flags & TABLE_MASK == self.flags
        &&& self.ptes.len() == 512
        &&& forall|i: int| 0 <= i < 512 ==> (#[trigger] self.ptes[i] matches Some(e) ==> e.wf())
    }

    /// A table without entries and without flags.
    pub open spec fn empty() -> Self {
        PtView { flags: 0, ptes: vacant() }
    }

    /// The entry that `vaddr` goes through.
    pub open spec fn pte(self, vaddr: u64) -> Option<PteView> {
        self.ptes[pt_index(vaddr) as int]
    }

    /// The table with `e` in the slot of `vaddr`.
    pub open spec fn with_pte(self, vaddr: u64, e: PteView) -> Self {
        PtView { ptes: self.ptes.update(pt_index(vaddr) as int, Some(e)), ..self }
    }

    /// The table after an insert: its flags are widened by `f`, and the entry of `vaddr`,
    /// made if there was none, takes the insert.
    pub open spec fn insert(self, vaddr: u64, paddr: u64, f: u64) -> Self {
        let e = match self.pte(vaddr) {
            Some(e) => e,
            None => PteView::empty(),
        };
        PtView { flags: self.flags | (f & TABLE_MASK), ..self }.with_pte(
            vaddr,
            e.insert(paddr, f),
        )
    }
}

impl PdView {
    /// The flags are flags of a table level, there are 512 slots, and every table is well-formed.
    pub open spec fn wf(self) -> bool {
        &&& self.flags & TABLE_MASK == self.flags
        &&& self.pts.len() == 512
        &&& forall|i: int| 0 <= i < 512 ==> (#[trigger] self.pts[i] matches Some(t) ==> t.wf())
    }

    /// A directory without tables and without flags.
    pub open spec fn empty() -> Self {
        PdView { flags: 0, pts: vacant() }
    }

    /// The table that `vaddr` goes through.
    pub open spec fn pt(self, vaddr: u64) -> Option<PtView> {
        self.pts[pd_index(vaddr) as int]
    }

    /// The directory with `t` in the slot of `vaddr`.
    pub open spec fn with_pt(self, vaddr: u64, t: PtView) -> Self {
        PdView { pts: self.pts.update(pd_index(vaddr) as int, Some(t)), ..self }
    }

    /// The directory after an insert: its flags are widened by `f`, and the table of
    /// `vaddr`, made if there was none, takes the insert.
    pub open spec fn insert(self, vaddr: u64, paddr: u64, f: u64) -> Self {
        let t = match self.pt(vaddr) {
            Some(t) => t,
            None => PtView::empty(),
        };
        PdView { flags: self.flags | (f & TABLE_MASK), ..self }.with_pt(
            vaddr,
            t.insert(vaddr, paddr, f),
        )
    }
}

impl PdptView {
    /// The flags are flags of a table level, there are 512 slots, and every directory is
    /// well-formed.
    pub open spec fn wf(self) -> bool {
        &&& self.flags & TABLE_MASK == self.flags
        &&& self.pds.len() == 512
        &&& forall|i: int| 0 <= i < 512 ==> (#[trigger] self.pds[i] matches Some(d) ==> d.wf())
    }

    /// A directory-pointer table without directories and without flags.
    pub open spec fn empty() -> Self {
        PdptView { flags: 0, pds: vacant() }
    }

    /// The directory that `vaddr` goes through.
    pub open spec fn pd(self, vaddr: u64) -> Option<PdView> {
        self.pds[pdpt_index(vaddr) as int]
    }

    /// The directory-pointer table with `d` in the slot of `vaddr`.
    pub open spec fn with_pd(self, vaddr: u64, d: PdView) -> Self {
        PdptView { pds: self.pds.update(pdpt_index(vaddr) as int, Some(d)), ..self }
    }

    /// The directory-pointer table after an insert: its flags are widened by `f`, and the
    /// directory of `vaddr`, made if there was none, takes the insert.
    pub open spec fn insert(self, vaddr: u64, paddr: u64, f: u64) -> Self {
        let d = match self.pd(vaddr) {
            Some(d) => d,
            None => PdView::empty(),
        };
        PdptView { flags: self.flags | (f & TABLE_MASK), ..self }.with_pd(
            vaddr,
            d.insert(vaddr, paddr, f),
        )
    }
}

impl PageTableView {
    /// There are 512 slots, and every directory-pointer table is well-formed.
    pub open spec fn wf(self) -> bool {
        &&& self.pdpts.len() == 512
        &&& forall|i: int|
            0 <= i < 512 ==> (#[trigger] self.pdpts[i] matches Some(p) ==> p.wf())
    }

    /// The tree without any node.
    pub open spec fn empty() -> Self {
        PageTableView { pdpts: vacant() }
    }

    /// The directory-pointer table that `vaddr` goes through.
    pub open spec fn pdpt(self, vaddr: u64) -> Option<PdptView> {
        self.pdpts[pml4_index(vaddr) as int]
    }

    /// The directory that `vaddr` goes through.
    pub open spec fn pd(self, vaddr: u64) -> Option<PdView> {
        match self.pdpt(vaddr) {
            Some(p) => p.pd(vaddr),
            None => None,
        }
    }

    /// The innermost table that `vaddr` goes through.
    pub open spec fn pt(self, vaddr: u64) -> Option<PtView> {
        match self.pd(vaddr) {
            Some(d) => d.pt(vaddr),
            None => None,
        }
    }

    /// The leaf entry that `vaddr` goes through.
    pub open spec fn pte(self, vaddr: u64) -> Option<PteView> {
        match self.pt(vaddr) {
            Some(t) => t.pte(vaddr),
            None => None,
        }
    }

    /// The flags of the directory-pointer table that `vaddr` goes through; none where it
    /// is missing.
    pub open spec fn pdpt_flags(self, vaddr: u64) -> u64 {
        match self.pdpt(vaddr) {
            Some(p) => p.flags,
            None => 0,
        }
    }

    /// The flags of the directory that `vaddr` goes through; none where it is missing.
    pub open spec fn pd_flags(self, vaddr: u64) -> u64 {
        match self.pd(vaddr) {
            Some(d) => d.flags,
            None => 0,
        }
    }

    /// The flags of the innermost table that `vaddr` goes through; none where it is
    /// missing.
    pub open spec fn pt_flags(self, vaddr: u64) -> u64 {
        match self.pt(vaddr) {
            Some(t) => t.flags,
            None => 0,
        }
    }

    /// The flags of the leaf entry that `vaddr` goes through; none where it is missing.
    pub open spec fn pte_flags(self, vaddr: u64) -> u64 {
        match self.pte(vaddr) {
            Some(e) => e.flags,
            None => 0,
        }
    }

    /// Some node on the path of `vaddr` forbids execution.
    pub open spec fn path_has_nx(self, vaddr: u64) -> bool {
        ||| self.pdpt_flags(vaddr) & NX == NX
        ||| self.pd_flags(vaddr) & NX == NX
        ||| self.pt_flags(vaddr) & NX == NX
        ||| self.pte_flags(vaddr) & NX == NX
    }

    /// The four nodes on the path of `vaddr` exist and every one of them is writable.
    pub open spec fn path_writable(self, vaddr: u64) -> bool {
        &&& self.pdpt_flags(vaddr) & WRITABLE == WRITABLE
        &&& self.pd_flags(vaddr) & WRITABLE == WRITABLE
        &&& self.pt_flags(vaddr) & WRITABLE == WRITABLE
        &&& self.pte_flags(vaddr) & WRITABLE == WRITABLE
    }

    /// The tree with `p` in the slot of `vaddr`.
    pub open spec fn with_pdpt(self, vaddr: u64, p: PdptView) -> Self {
        PageTableView { pdpts: self.pdpts.update(pml4_index(vaddr) as int, Some(p)) }
    }

    /// The tree with `d` in place of the directory of `vaddr`; the tree itself where
    /// `vaddr` has no directory-pointer table.
    pub open spec fn with_pd(self, vaddr: u64, d: PdView) -> Self {
        match self.pdpt(vaddr) {
            Some(p) => self.with_pdpt(vaddr, p.with_pd(vaddr, d)),
            None => self,
        }
    }

    /// The tree with `t` in place of the innermost table of `vaddr`; the tree itself where
    /// `vaddr` has no directory.
    pub open spec fn with_pt(self, vaddr: u64, t: PtView) -> Self {
        match self.pd(vaddr) {
            Some(d) => self.with_pd(vaddr, d.with_pt(vaddr, t)),
            None => self,
        }
    }

    /// The tree with `e` in place of the leaf entry of `vaddr`; the tree itself where
    /// `vaddr` has no innermost table.
    pub open spec fn with_pte(self, vaddr: u64, e: PteView) -> Self {
        match self.pt(vaddr) {
            Some(t) => self.with_pt(vaddr, t.with_pte(vaddr, e)),
            None => self,
        }
    }

    /// Putting a node back where it stands changes nothing.
    pub proof fn lemma_put_back(self, vaddr: u64)
        requires
            self.wf(),
        ensures
            self.pdpt(vaddr) matches Some(p) ==> self.with_pdpt(vaddr, p) == self,
            self.pd(vaddr) matches Some(d) ==> self.with_pd(vaddr, d) == self,
            self.pt(vaddr) matches Some(t) ==> self.with_pt(vaddr, t) == self,
            self.pte(vaddr) matches Some(e) ==> self.with_pte(vaddr, e) == self,
    {
        if let Some(p) = self.pdpt(vaddr) {
            assert(self.with_pdpt(vaddr, p) =~= self);
            if let Some(d) = p.pd(vaddr) {
                assert(p.with_pd(vaddr, d) =~= p);
                if let Some(t) = d.pt(vaddr) {
                    assert(d.with_pt(vaddr, t) =~= d);
                    if let Some(e) = t.pte(vaddr) {
                        assert(t.with_pte(vaddr, e) =~= t);
                    }
                }
            }
        }
    }

    /// The tree after `insert(vaddr, paddr, f)`: the four nodes on the path of `vaddr`
    /// exist, each with its flags widened by the bits of `f` that its level knows, and the
    /// leaf entry holds the page of `paddr`. Nothing off the path changes.
    pub open spec fn insert(self, vaddr: u64, paddr: u64, f: u64) -> Self {
        let p = match self.pdpt(vaddr) {
            Some(p) => p,
            None => PdptView::empty(),
        };
        self.with_pdpt(vaddr, p.insert(vaddr, paddr, f))
    }

    /// The result of translating `vaddr` for an access of kind `prot`: the page address of
    /// the leaf entry plus the offset of `vaddr` in its page, if the four nodes on the path
    /// exist and each permits the access; nothing otherwise.
    pub open spec fn translate(self, vaddr: u64, prot: u32) -> Option<u64> {
        match (self.pdpt(vaddr), self.pd(vaddr), self.pt(vaddr), self.pte(vaddr)) {
            (Some(p), Some(d), Some(t), Some(e)) => if permits(p.flags, prot) && permits(
                d.flags,
                prot,
            ) && permits(t.flags, prot) && permits(e.flags, prot) {
                Some((e.paddr + page_offset(vaddr)) as u64)
            } else {
                None
            },
            _ => None,
        }
    }
}

} // verus!
