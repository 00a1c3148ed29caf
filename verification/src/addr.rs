//! Splitting a virtual address into its four radix indices and its page offset.
//!
//! Only the low 48 bits of an address take part: bits 47..39 select the top-level slot,
//! bits 38..30, 29..21 and 20..12 the slots of the three levels below, and bits 11..0 are
//! the offset inside the page. Bits above 47 are ignored.

use vstd::prelude::*;

verus! {

/// Bits 47..39 of `vaddr`.
pub open spec fn spec_pml4_index(vaddr: u64) -> usize {
    ((vaddr / 0x80_0000_0000) % 512) as usize
}

/// Bits 38..30 of `vaddr`.
pub open spec fn spec_pdpt_index(vaddr: u64) -> usize {
    ((vaddr / 0x4000_0000) % 512) as usize
}

/// Bits 29..21 of `vaddr`.
pub open spec fn spec_pd_index(vaddr: u64) -> usize {
    ((vaddr / 0x20_0000) % 512) as usize
}

/// Bits 20..12 of `vaddr`.
pub open spec fn spec_pt_index(vaddr: u64) -> usize {
    ((vaddr / 0x1000) % 512) as usize
}

/// Bits 11..0 of `vaddr`.
pub open spec fn spec_page_offset(vaddr: u64) -> usize {
    (vaddr % 0x1000) as usize
}

/// The start of the page that holds `paddr`: `paddr` with its low 12 bits cleared.
pub open spec fn page_base(paddr: u64) -> u64 {
    (paddr - paddr % 0x1000) as u64
}

/// The slot of the top-level table that `vaddr` goes through.
#[verifier::when_used_as_spec(spec_pml4_index)]
pub fn pml4_index(vaddr: u64) -> (r: usize)
    ensures
        r == spec_pml4_index(vaddr),
        r < 512,
{
    assert((vaddr >> 39) & 0x1ff == (vaddr / 0x80_0000_0000) % 512) by (bit_vector);
    ((vaddr >> 39) & 0x1ff) as usize
}

/// The slot of the directory-pointer table that `vaddr` goes through.
#[verifier::when_used_as_spec(spec_pdpt_index)]
pub fn pdpt_index(vaddr: u64) -> (r: usize)
    ensures
        r == spec_pdpt_index(vaddr),
        r < 512,
{
    assert((vaddr >> 30) & 0x1ff == (vaddr / 0x4000_0000) % 512) by (bit_vector);
    ((vaddr >> 30) & 0x1ff) as usize
}

/// The slot of the directory that `vaddr` goes through.
#[verifier::when_used_as_spec(spec_pd_index)]
pub fn pd_index(vaddr: u64) -> (r: usize)
    ensures
        r == spec_pd_index(vaddr),
        r < 512,
{
    assert((vaddr >> 21) & 0x1ff == (vaddr / 0x20_0000) % 512) by (bit_vector);
    ((vaddr >> 21) & 0x1ff) as usize
}

/// The slot of the innermost table that `vaddr` goes through.
#[verifier::when_used_as_spec(spec_pt_index)]
pub fn pt_index(vaddr: u64) -> (r: usize)
    ensures
        r == spec_pt_index(vaddr),
        r < 512,
{
    assert((vaddr >> 12) & 0x1ff == (vaddr / 0x1000) % 512) by (bit_vector);
    ((vaddr >> 12) & 0x1ff) as usize
}

/// The offset of `vaddr` inside its page.
#[verifier::when_used_as_spec(spec_page_offset)]
pub fn page_offset(vaddr: u64) -> (r: usize)
    ensures
        r == spec_page_offset(vaddr),
        r < 0x1000,
{
    assert(vaddr & 0xfff == vaddr % 0x1000) by (bit_vector);
    (vaddr & 0xfff) as usize
}

/// Two addresses in the same page go through the same four slots.
pub proof fn lemma_same_page_same_indices(v1: u64, v2: u64)
    requires
        v1 / 0x1000 == v2 / 0x1000,
    ensures
        pml4_index(v1) == pml4_index(v2),
        pdpt_index(v1) == pdpt_index(v2),
        pd_index(v1) == pd_index(v2),
        pt_index(v1) == pt_index(v2),
{
}

} // verus!
