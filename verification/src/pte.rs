//! The leaf entry of the tree.

use crate::addr::page_base;
use crate::flags::PteFlags;
use crate::model::PteView;
use vstd::prelude::*;

verus! {

/// A leaf entry: the page-aligned address of a page and the flags of the mapping.
pub struct Pte {
    paddr: u64,
    flags: PteFlags,
}

impl View for Pte {
    type V = PteView;

    closed spec fn view(&self) -> PteView {
        PteView { paddr: page_base(self.paddr), flags: self.flags@ }
    }
}

impl Pte {
    /// The stored address never has any of its low 12 bits set.
    #[verifier::type_invariant]
    spec fn page_aligned(self) -> bool {
        self.paddr % 0x1000 == 0
    }

    /// The view of every entry is well-formed.
    pub proof fn lemma_view_wf(&self)
        ensures
            self@.wf(),
    {
        self.flags.lemma_view_within();
    }

    /// The flags of the entry.
    pub fn flags(&self) -> (r: PteFlags)
        ensures
            r@ == self@.flags,
    {
        self.flags
    }

    /// Replaces the flags of the entry.
    pub fn set_flags(&mut self, f: PteFlags)
        ensures
            final(self)@ == (PteView { flags: f@, ..old(self)@ }),
    {
        proof {
            use_type_invariant(&*self);
        }
        self.flags = f;
    }

    /// The address of the page, which is page-aligned.
    pub fn paddr(&self) -> (r: u64)
        ensures
            r == self@.paddr,
            self@.wf(),
    {
        proof {
            use_type_invariant(self);
            self.flags.lemma_view_within();
        }
        self.paddr
    }

    /// Replaces the address by the start of the page that holds `paddr`.
    pub fn set_paddr(&mut self, paddr: u64)
        ensures
            final(self)@ == (PteView { paddr: page_base(paddr), ..old(self)@ }),
    {
        assert(paddr & !0xfffu64 == (paddr - paddr % 0x1000) as u64) by (bit_vector);
        self.paddr = paddr & !0xfff;
    }
}

impl Default for Pte {
    /// The entry a slot gets before its first insert: address 0, no flags.
    fn default() -> (r: Self)
        ensures
            r@ == PteView::empty(),
    {
        Pte { paddr: 0, flags: PteFlags::empty() }
    }
}

} // verus!
