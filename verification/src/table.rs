//! The top of the tree: lookup, insertion and translation.

use crate::addr::{page_offset, pml4_index};
use crate::flags::{Flags, PdFlags, PdptFlags, PtFlags, PteFlags};
use crate::model::{ref_view, slot_view, PageTableView};
use crate::pd::Pd;
use crate::pdpt::Pdpt;
use crate::prot::Prot;
use crate::pt::Pt;
use crate::pte::Pte;
use crate::slots::vacant_slots;
use crate::layout::sum_upto;
use vstd::prelude::*;

verus! {

/// A four-level page table: 512 slots, each vacant or holding a directory-pointer table.
pub struct PageTable {
    pml4: [Option<Box<Pdpt>>; 512],
}

impl View for PageTable {
    type V = PageTableView;

    closed spec fn view(&self) -> PageTableView {
        PageTableView { pdpts: Seq::new(512, |i: int| slot_view(self.pml4@[i])) }
    }
}

/// A walk over the occupied slots of the top-level table, in slot order.
pub struct IterPageTable<'a> {
    inner: &'a PageTable,
    pos: usize,
}

impl<'a> IterPageTable<'a> {
    /// The walk never looks past the last slot.
    #[verifier::type_invariant]
    spec fn in_range(self) -> bool {
        self.pos <= 512
    }

    /// The table that is walked.
    pub closed spec fn table(&self) -> PageTableView {
        self.inner@
    }

    /// The slot from which `next` goes on looking; 512 when the walk is over.
    pub closed spec fn pos(&self) -> nat {
        self.pos as nat
    }

    /// The next occupied slot: its number and what it holds. Vacant slots are passed over;
    /// `None` says that no occupied slot is left.
    pub fn next(&mut self) -> (r: Option<(usize, &'a Box<Pdpt>)>)
        ensures
            final(self).table() == old(self).table(),
            match r {
                Some((i, node)) => {
                    &&& old(self).pos() <= i < 512
                    &&& old(self).table().pdpts[i as int] == Some(node@)
                    &&& forall|j: int|
                        old(self).pos() <= j < i ==> old(self).table().pdpts[j] is None
                    &&& final(self).pos() == i + 1
                },
                None => {
                    &&& forall|j: int|
                        old(self).pos() <= j < 512 ==> old(self).table().pdpts[j] is None
                    &&& final(self).pos() == 512
                },
            },
    {
        proof {
            use_type_invariant(&*self);
        }
        let ghost start = self.pos as int;
        while self.pos < 512
            invariant
                0 <= start <= self.pos <= 512,
                start == old(self).pos(),
                self.table() == old(self).table(),
                forall|j: int| start <= j < self.pos ==> old(self).table().pdpts[j] is None,
            decreases 512 - self.pos,
        {
            let i = self.pos;
            self.pos += 1;
            if let Some(node) = self.inner.pml4[i].as_ref() {
                return Some((i, node));
            }
        }
        None
    }
}

impl PageTable {
    /// The view of every page table is well-formed.
    pub proof fn lemma_view_wf(&self)
        ensures
            self@.wf(),
    {
        assert forall|i: int| 0 <= i < 512 implies (#[trigger] self@.pdpts[i] matches Some(c)
            ==> c.wf()) by {
            match self.pml4@[i] {
                Some(child) => {
                    child.lemma_view_wf();
                },
                None => {},
            }
        }
    }

    /// Translates `vaddr` for an access of kind `p`.
    ///
    /// The walk goes through the four nodes on the path of `vaddr`, outermost first. It
    /// fails at a node that is missing or not present, at one that is not writable when a
    /// write is asked for, and at one that forbids execution when an instruction fetch is
    /// asked for. Otherwise the result is the page address of the leaf entry plus the
    /// offset of `vaddr` in its page.
    pub fn translate(&self, vaddr: u64, p: Prot) -> (r: Option<u64>)
        ensures
            r == self@.translate(vaddr, p@),
    {
        let pdpt = self.pdpt(vaddr)?;
        if !pdpt.flags().contains(PdptFlags::Present()) {
            return None;
        }
        if p.contains(Prot::W()) && !pdpt.flags().contains(PdptFlags::Writable()) {
            return None;
        }
        if p.contains(Prot::X()) && pdpt.flags().contains(PdptFlags::NX()) {
            return None;
        }
        let pd = self.pd(vaddr)?;
        if !pd.flags().contains(PdFlags::Present()) {
            return None;
        }
        if p.contains(Prot::W()) && !pd.flags().contains(PdFlags::Writable()) {
            return None;
        }
        if p.contains(Prot::X()) && pd.flags().contains(PdFlags::NX()) {
            return None;
        }
        let pt = self.pt(vaddr)?;
        if !pt.flags().contains(PtFlags::Present()) {
            return None;
        }
        if p.contains(Prot::W()) && !pt.flags().contains(PtFlags::Writable()) {
            return None;
        }
        if p.contains(Prot::X()) && pt.flags().contains(PtFlags::NX()) {
            return None;
        }
        let pte = self.pte(vaddr)?;
        if !pte.flags().contains(PteFlags::Present()) {
            return None;
        }
        if p.contains(Prot::W()) && !pte.flags().contains(PteFlags::Writable()) {
            return None;
        }
        if p.contains(Prot::X()) && pte.flags().contains(PteFlags::NX()) {
            return None;
        }
        Some(pte.paddr() + page_offset(vaddr) as u64)
    }

    /// Maps the page of `vaddr` to the page of `paddr` with flags `f`.
    ///
    /// The four nodes on the path of `vaddr` are made where they are missing, each gets
    /// its flags widened by the bits of `f` that its level knows, and the leaf entry gets
    /// the page of `paddr` as its address. Flags are never narrowed.
    pub fn insert(&mut self, vaddr: u64, paddr: u64, f: Flags)
        ensures
            final(self)@ == old(self)@.insert(vaddr, paddr, f@),
    {
        let pdpt = match self.pdpt_mut(vaddr) {
            None => self.set_pdpt(vaddr, Pdpt::default()),
            Some(x) => x,
        };
        pdpt.set_flags(pdpt.flags() | PdptFlags::from_bits_truncate(f.bits()));
        let pd = match pdpt.pd_mut(vaddr) {
            None => pdpt.set_pd(vaddr, Pd::default()),
            Some(x) => x,
        };
        pd.set_flags(pd.flags() | PdFlags::from_bits_truncate(f.bits()));
        let pt = match pd.pt_mut(vaddr) {
            None => pd.set_pt(vaddr, Pt::default()),
            Some(x) => x,
        };
        pt.set_flags(pt.flags() | PtFlags::from_bits_truncate(f.bits()));
        let pte = match pt.pte_mut(vaddr) {
            None => pt.set_pte(vaddr, Pte::default()),
            Some(x) => x,
        };
        pte.set_flags(pte.flags() | PteFlags::from_bits_truncate(f.bits()));
        pte.set_paddr(paddr);
    }

    /// Puts `v` into the slot of `vaddr`, in place of what was there, and hands it out.
    pub fn set_pdpt(&mut self, vaddr: u64, v: Pdpt) -> (r: &mut Pdpt)
        ensures
            r@ == v@,
            final(self)@ == old(self)@.with_pdpt(vaddr, final(r)@),
    {
        self.pml4[pml4_index(vaddr)] = Some(Box::new(v));
        self.pml4[pml4_index(vaddr)].as_mut().unwrap()
    }

    /// The directory-pointer table that `vaddr` goes through, if there is one.
    pub fn pdpt(&self, vaddr: u64) -> (r: Option<&Box<Pdpt>>)
        ensures
            ref_view(r) == self@.pdpt(vaddr),
    {
        self.pml4[pml4_index(vaddr)].as_ref()
    }

    /// The directory-pointer table that `vaddr` goes through, if there is one, for
    /// changing it.
    pub fn pdpt_mut(&mut self, vaddr: u64) -> (r: Option<&mut Box<Pdpt>>)
        ensures
            match r {
                Some(e) => old(self)@.pdpt(vaddr) == Some(e@) && final(self)@ == old(
                    self,
                )@.with_pdpt(vaddr, final(e)@),
                None => old(self)@.pdpt(vaddr) is None && final(self)@ == old(self)@,
            },
    {
        self.pml4[pml4_index(vaddr)].as_mut()
    }

    /// The directory that `vaddr` goes through, if there is one.
    pub fn pd(&self, vaddr: u64) -> (r: Option<&Box<Pd>>)
        ensures
            ref_view(r) == self@.pd(vaddr),
    {
        let pdpt = self.pdpt(vaddr)?;
        pdpt.pd(vaddr)
    }

    /// The directory that `vaddr` goes through, if there is one, for changing it.
    pub fn pd_mut(&mut self, vaddr: u64) -> (r: Option<&mut Box<Pd>>)
        ensures
            match r {
                Some(e) => old(self)@.pd(vaddr) == Some(e@) && final(self)@ == old(
                    self,
                )@.with_pd(vaddr, final(e)@),
                None => old(self)@.pd(vaddr) is None && final(self)@ == old(self)@,
            },
    {
        let pdpt = self.pdpt_mut(vaddr)?;
        pdpt.pd_mut(vaddr)
    }

    /// The innermost table that `vaddr` goes through, if there is one.
    pub fn pt(&self, vaddr: u64) -> (r: Option<&Box<Pt>>)
        ensures
            ref_view(r) == self@.pt(vaddr),
    {
        let pd = self.pd(vaddr)?;
        pd.pt(vaddr)
    }

    /// The innermost table that `vaddr` goes through, if there is one, for changing it.
    pub fn pt_mut(&mut self, vaddr: u64) -> (r: Option<&mut Box<Pt>>)
        ensures
            match r {
                Some(e) => old(self)@.pt(vaddr) == Some(e@) && final(self)@ == old(
                    self,
                )@.with_pt(vaddr, final(e)@),
                None => old(self)@.pt(vaddr) is None && final(self)@ == old(self)@,
            },
    {
        proof {
            self.lemma_view_wf();
            self@.lemma_put_back(vaddr);
        }
        let pd = self.pd_mut(vaddr)?;
        pd.pt_mut(vaddr)
    }

    /// The leaf entry that `vaddr` goes through, if there is one.
    pub fn pte(&self, vaddr: u64) -> (r: Option<&Box<Pte>>)
        ensures
            ref_view(r) == self@.pte(vaddr),
    {
        let pt = self.pt(vaddr)?;
        pt.pte(vaddr)
    }

    /// The leaf entry that `vaddr` goes through, if there is one, for changing it.
    pub fn pte_mut(&mut self, vaddr: u64) -> (r: Option<&mut Box<Pte>>)
        ensures
            match r {
                Some(e) => old(self)@.pte(vaddr) == Some(e@) && final(self)@ == old(
                    self,
                )@.with_pte(vaddr, final(e)@),
                None => old(self)@.pte(vaddr) is None && final(self)@ == old(self)@,
            },
    {
        proof {
            self.lemma_view_wf();
            self@.lemma_put_back(vaddr);
        }
        let pt = self.pt_mut(vaddr)?;
        pt.pte_mut(vaddr)
    }

    /// The number of pages that the tree takes in a committed image: one for each node.
    pub fn page_count(&self) -> (n: usize)
        ensures
            n == self@.page_count(),
    {
        proof {
            self.lemma_view_wf();
        }
        let mut n: usize = 1;
        let mut i: usize = 0;
        while i < 512
            invariant
                i <= 512,
                self@.wf(),
                n == 1 + sum_upto(self@.sizes(), i as int),
                n <= 1 + i * 262657,
            decreases 512 - i,
        {
            if let Some(child) = &self.pml4[i] {
                proof {
                    child.lemma_view_wf();
                    child@.lemma_page_count_bound();
                }
                n += child.page_count();
            }
            i += 1;
        }
        n
    }

    /// A walk over the occupied slots, from the first slot on.
    pub fn iter(&self) -> (r: IterPageTable<'_>)
        ensures
            r.table() == self@,
            r.pos() == 0,
    {
        IterPageTable { inner: self, pos: 0 }
    }

    /// The slot with number `idx`.
    pub fn index(&self, idx: usize) -> (r: &Option<Box<Pdpt>>)
        requires
            idx < 512,
        ensures
            slot_view(*r) == self@.pdpts[idx as int],
    {
        &self.pml4[idx]
    }
}

impl Default for PageTable {
    /// The table without any mapping.
    fn default() -> (r: Self)
        ensures
            r@ == PageTableView::empty(),
    {
        PageTable { pml4: vacant_slots() }
    }
}

} // verus!
