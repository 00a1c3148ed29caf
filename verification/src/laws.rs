//! Laws that connect `insert`, `translate` and `commit`.
//!
//! Each law is stated over the model of the tree, of which the executable functions are
//! proved to be implementations, so it holds of every tree that they build.

use crate::addr::{
    lemma_same_page_same_indices, page_base, page_offset, pd_index, pdpt_index, pml4_index,
    pt_index,
};
use crate::flags::{NX, PRESENT, PTE_MASK, TABLE_MASK, WRITABLE};
use crate::model::{permits, PageTableView, PdView, PdptView, PtView, PteView};
use crate::prot::{PROT_W, PROT_X};
use vstd::prelude::*;

verus! {

/// A node that had flags `x` and is widened by the bits of `f` under `mask` has one of the
/// three bits that a walk looks at exactly if `x` or `f` had it. A node without flags has
/// none of them.
proof fn lemma_widened_bits(x: u64, f: u64, mask: u64)
    by (bit_vector)
    requires
        mask == 0x8000_0000_0000_00bf || mask == 0x8000_0000_0000_01ff,
    ensures
        ((x | (f & mask)) & 0x1 == 0x1) == (x & 0x1 == 0x1 || f & 0x1 == 0x1),
        ((x | (f & mask)) & 0x2 == 0x2) == (x & 0x2 == 0x2 || f & 0x2 == 0x2),
        ((x | (f & mask)) & 0x8000_0000_0000_0000 == 0x8000_0000_0000_0000) == (x
            & 0x8000_0000_0000_0000 == 0x8000_0000_0000_0000 || f & 0x8000_0000_0000_0000
            == 0x8000_0000_0000_0000),
        0u64 & 0x1 != 0x1,
        0u64 & 0x2 != 0x2,
        0u64 & 0x8000_0000_0000_0000 != 0x8000_0000_0000_0000,
{
}

/// Flags within a mask stay within it when they are widened by bits cut to the mask.
proof fn lemma_widened_within(x: u64, f: u64, mask: u64)
    by (bit_vector)
    requires
        x & mask == x,
    ensures
        (x | (f & mask)) & mask == x | (f & mask),
{
}

/// No flags at all are within every mask.
proof fn lemma_no_flags_within(mask: u64)
    by (bit_vector)
    ensures
        0u64 & mask == 0,
{
}

/// Widening by `f1` and then by `f2` is widening by their union; widening twice by the
/// same flags is widening once.
proof fn lemma_widened_twice(x: u64, f1: u64, f2: u64, mask: u64)
    by (bit_vector)
    ensures
        (x | (f1 & mask)) | (f2 & mask) == x | ((f1 | f2) & mask),
        (x | (f1 & mask)) | (f1 & mask) == x | (f1 & mask),
{
}

/// What each level keeps of the flags of an insert: a leaf entry all of them, a table all
/// but `Dirty`.
pub proof fn lemma_flags_at_levels(f: u64)
    by (bit_vector)
    requires
        f & 0x8000_0000_0000_007f == f,
    ensures
        f & 0x8000_0000_0000_01ff == f,
        f & 0x8000_0000_0000_00bf == f & !0x40u64,
{
}

/// The flags of the four nodes on the path of `vaddr` after an insert there: what they
/// were, or none for a node that the insert made, widened by the flags of the insert.
pub proof fn lemma_insert_path(t: PageTableView, vaddr: u64, paddr: u64, f: u64)
    requires
        t.wf(),
    ensures
        t.insert(vaddr, paddr, f).wf(),
        t.insert(vaddr, paddr, f).pdpt(vaddr) is Some,
        t.insert(vaddr, paddr, f).pd(vaddr) is Some,
        t.insert(vaddr, paddr, f).pt(vaddr) is Some,
        t.insert(vaddr, paddr, f).pte(vaddr) is Some,
        t.insert(vaddr, paddr, f).pdpt_flags(vaddr) == t.pdpt_flags(vaddr) | (f & TABLE_MASK),
        t.insert(vaddr, paddr, f).pd_flags(vaddr) == t.pd_flags(vaddr) | (f & TABLE_MASK),
        t.insert(vaddr, paddr, f).pt_flags(vaddr) == t.pt_flags(vaddr) | (f & TABLE_MASK),
        t.insert(vaddr, paddr, f).pte_flags(vaddr) == t.pte_flags(vaddr) | (f & PTE_MASK),
        t.insert(vaddr, paddr, f).pte(vaddr).unwrap().paddr == page_base(paddr),
{
    let p = match t.pdpt(vaddr) {
        Some(p) => p,
        None => PdptView::empty(),
    };
    let d = match p.pd(vaddr) {
        Some(d) => d,
        None => PdView::empty(),
    };
    let n = match d.pt(vaddr) {
        Some(n) => n,
        None => PtView::empty(),
    };
    let e = match n.pte(vaddr) {
        Some(e) => e,
        None => PteView::empty(),
    };
    lemma_no_flags_within(PTE_MASK);
    lemma_no_flags_within(TABLE_MASK);
    lemma_widened_within(e.flags, f, PTE_MASK);
    lemma_widened_within(n.flags, f, TABLE_MASK);
    lemma_widened_within(d.flags, f, TABLE_MASK);
    lemma_widened_within(p.flags, f, TABLE_MASK);
    assert(e.insert(paddr, f).wf());
    assert(n.insert(vaddr, paddr, f).wf());
    assert(d.insert(vaddr, paddr, f).wf());
    assert(p.insert(vaddr, paddr, f).wf());
}

/// Round trip, where the access is within the flags of the insert.
///
/// After `insert(vaddr, paddr, f)` with `Present` in `f` and a page-aligned `paddr`,
/// translating `vaddr` for an access that `f` permits gives `paddr` plus the offset of
/// `vaddr`. Flags only widen, so a node that was on the path before and forbids execution
/// still does: the law leaves out an instruction fetch through such a path.
pub proof fn lemma_round_trip_granted(
    t: PageTableView,
    vaddr: u64,
    paddr: u64,
    f: u64,
    prot: u32,
)
    requires
        t.wf(),
        f & PRESENT == PRESENT,
        paddr % 0x1000 == 0,
        permits(f, prot),
        prot & PROT_X == PROT_X ==> !t.path_has_nx(vaddr),
    ensures
        t.insert(vaddr, paddr, f).translate(vaddr, prot) matches Some(a) && a == paddr
            + page_offset(vaddr),
{
    lemma_insert_path(t, vaddr, paddr, f);
    lemma_widened_bits(t.pdpt_flags(vaddr), f, TABLE_MASK);
    lemma_widened_bits(t.pd_flags(vaddr), f, TABLE_MASK);
    lemma_widened_bits(t.pt_flags(vaddr), f, TABLE_MASK);
    lemma_widened_bits(t.pte_flags(vaddr), f, PTE_MASK);
}

/// Round trip, where the access asks for more than the flags of the insert grant.
///
/// After `insert(vaddr, paddr, f)` with `Present` in `f`, translating `vaddr` for an
/// access that `f` does not permit gives nothing. Flags only widen, so where the four
/// nodes of the path were there before and all writable, a write still goes through
/// though `f` lacks `Writable`: the law leaves that out, unless the access also asks for
/// an instruction fetch that `f` or the path forbids.
pub proof fn lemma_round_trip_denied(
    t: PageTableView,
    vaddr: u64,
    paddr: u64,
    f: u64,
    prot: u32,
)
    requires
        t.wf(),
        f & PRESENT == PRESENT,
        !permits(f, prot),
        prot & PROT_W == PROT_W && f & WRITABLE != WRITABLE && t.path_writable(vaddr) ==> prot
            & PROT_X == PROT_X && (f & NX == NX || t.path_has_nx(vaddr)),
    ensures
        t.insert(vaddr, paddr, f).translate(vaddr, prot) is None,
{
    lemma_insert_path(t, vaddr, paddr, f);
    lemma_widened_bits(t.pdpt_flags(vaddr), f, TABLE_MASK);
    lemma_widened_bits(t.pd_flags(vaddr), f, TABLE_MASK);
    lemma_widened_bits(t.pt_flags(vaddr), f, TABLE_MASK);
    lemma_widened_bits(t.pte_flags(vaddr), f, PTE_MASK);
}

/// Offset preservation.
///
/// Two addresses of one page translate alike: both fail, or both give the page address of
/// their common leaf entry plus their own offset.
pub proof fn lemma_offset_preserved(t: PageTableView, v1: u64, v2: u64, prot: u32)
    requires
        t.wf(),
        v1 / 0x1000 == v2 / 0x1000,
    ensures
        t.translate(v1, prot) is Some <==> t.translate(v2, prot) is Some,
        t.translate(v1, prot) is Some ==> (t.pte(v1) matches Some(e) && t.translate(v2, prot)
            matches Some(a) && a == e.paddr + page_offset(v2)),
{
    lemma_same_page_same_indices(v1, v2);
}

/// Sibling isolation under a shared prefix.
///
/// Two inserts whose addresses go through the same three tables but through different
/// slots of the innermost one leave two leaf entries, each as its own insert made it,
/// while each of the three tables above carries the flags of both inserts.
pub proof fn lemma_sibling_isolation(
    t: PageTableView,
    v1: u64,
    pa1: u64,
    f1: u64,
    v2: u64,
    pa2: u64,
    f2: u64,
)
    requires
        t.wf(),
        pml4_index(v1) == pml4_index(v2),
        pdpt_index(v1) == pdpt_index(v2),
        pd_index(v1) == pd_index(v2),
        pt_index(v1) != pt_index(v2),
    ensures
        ({
            let once = t.insert(v1, pa1, f1);
            let both = once.insert(v2, pa2, f2);
            &&& both.pte(v1) == once.pte(v1)
            &&& both.pte(v2) == t.insert(v2, pa2, f2).pte(v2)
            &&& both.pdpt_flags(v1) == t.pdpt_flags(v1) | ((f1 | f2) & TABLE_MASK)
            &&& both.pd_flags(v1) == t.pd_flags(v1) | ((f1 | f2) & TABLE_MASK)
            &&& both.pt_flags(v1) == t.pt_flags(v1) | ((f1 | f2) & TABLE_MASK)
        }),
{
    let once = t.insert(v1, pa1, f1);
    lemma_insert_path(t, v1, pa1, f1);
    lemma_insert_path(once, v2, pa2, f2);
    lemma_insert_path(t, v2, pa2, f2);
    lemma_widened_twice(t.pdpt_flags(v1), f1, f2, TABLE_MASK);
    lemma_widened_twice(t.pd_flags(v1), f1, f2, TABLE_MASK);
    lemma_widened_twice(t.pt_flags(v1), f1, f2, TABLE_MASK);
}

/// Idempotent re-insert.
///
/// Inserting the same mapping a second time changes nothing: the tree is the same, and so
/// is every translation and the committed image.
pub proof fn lemma_insert_idempotent(t: PageTableView, vaddr: u64, paddr: u64, f: u64)
    requires
        t.wf(),
    ensures
        t.insert(vaddr, paddr, f).insert(vaddr, paddr, f) == t.insert(vaddr, paddr, f),
        forall|va: u64, prot: u32|
            t.insert(vaddr, paddr, f).insert(vaddr, paddr, f).translate(va, prot) == t.insert(
                vaddr,
                paddr,
                f,
            ).translate(va, prot),
        t.insert(vaddr, paddr, f).insert(vaddr, paddr, f).image() == t.insert(
            vaddr,
            paddr,
            f,
        ).image(),
{
    let once = t.insert(vaddr, paddr, f);
    let twice = once.insert(vaddr, paddr, f);
    lemma_insert_path(t, vaddr, paddr, f);
    let p = once.pdpt(vaddr).unwrap();
    let d = once.pd(vaddr).unwrap();
    let n = once.pt(vaddr).unwrap();
    let e = once.pte(vaddr).unwrap();
    lemma_widened_twice(t.pdpt_flags(vaddr), f, f, TABLE_MASK);
    lemma_widened_twice(t.pd_flags(vaddr), f, f, TABLE_MASK);
    lemma_widened_twice(t.pt_flags(vaddr), f, f, TABLE_MASK);
    lemma_widened_twice(t.pte_flags(vaddr), f, f, PTE_MASK);
    assert(e.insert(paddr, f) == e);
    assert(n.insert(vaddr, paddr, f) =~= n);
    assert(d.insert(vaddr, paddr, f) =~= d);
    assert(p.insert(vaddr, paddr, f) =~= p);
    assert(twice =~= once);
}

} // verus!
