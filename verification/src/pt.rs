//! The innermost table of the tree, whose slots hold leaf entries.

use crate::addr::pt_index;
use crate::flags::PtFlags;
use crate::model::{ref_view, slot_view, PtView};
use crate::pte::Pte;
use crate::slots::vacant_slots;
use vstd::prelude::*;

verus! {

/// An innermost table: 512 slots, each vacant or holding a leaf entry, and the union of the
/// flags of every insert that went through the table.
pub struct Pt {
    pte: [Option<Box<Pte>>; 512],
    flags: PtFlags,
}

impl View for Pt {
    type V = PtView;

    closed spec fn view(&self) -> PtView {
        PtView { flags: self.flags@, ptes: Seq::new(512, |i: int| slot_view(self.pte@[i])) }
    }
}

/// A walk over the occupied slots of an innermost table, in slot order.
pub struct IterPt<'a> {
    inner: &'a Pt,
    pos: usize,
}

impl<'a> IterPt<'a> {
    /// The walk never looks past the last slot.
    #[verifier::type_invariant]
    spec fn in_range(self) -> bool {
        self.pos <= 512
    }

    /// The table that is walked.
    pub closed spec fn table(&self) -> PtView {
        self.inner@
    }

    /// The slot from which `next` goes on looking; 512 when the walk is over.
    pub closed spec fn pos(&self) -> nat {
        self.pos as nat
    }

    /// The next occupied slot: its number and what it holds. Vacant slots are passed over;
    /// `None` says that no occupied slot is left.
    pub fn next(&mut self) -> (r: Option<(usize, &'a Box<Pte>)>)
        ensures
            final(self).table() == old(self).table(),
            match r {
                Some((i, node)) => {
                    &&& old(self).pos() <= i < 512
                    &&& old(self).table().ptes[i as int] == Some(node@)
                    &&& forall|j: int|
                        old(self).pos() <= j < i ==> old(self).table().ptes[j] is None
                    &&& final(self).pos() == i + 1
                },
                None => {
                    &&& forall|j: int|
                        old(self).pos() <= j < 512 ==> old(self).table().ptes[j] is None
                    &&& final(self).pos() == 512
                },
            },
    {
        proof {
            use_type_invariant(&*self);
        }
        let ghost start = self.pos as int;
        while self.pos < 512
            invariant
                0 <= start <= self.pos <= 512,
                start == old(self).pos(),
                self.table() == old(self).table(),
                forall|j: int| start <= j < self.pos ==> old(self).table().ptes[j] is None,
            decreases 512 - self.pos,
        {
            let i = self.pos;
            self.pos += 1;
            if let Some(node) = self.inner.pte[i].as_ref() {
                return Some((i, node));
            }
        }
        None
    }
}

impl Pt {
    /// The view of every innermost table is well-formed.
    pub proof fn lemma_view_wf(&self)
        ensures
            self@.wf(),
    {
        self.flags.lemma_view_within();
        assert forall|i: int| 0 <= i < 512 implies (#[trigger] self@.ptes[i] matches Some(c)
            ==> c.wf()) by {
            match self.pte@[i] {
                Some(child) => {
                    child.lemma_view_wf();
                },
                None => {},
            }
        }
    }

    /// The aggregate flags of the table.
    pub fn flags(&self) -> (r: PtFlags)
        ensures
            r@ == self@.flags,
    {
        self.flags
    }

    /// Replaces the aggregate flags of the table.
    pub fn set_flags(&mut self, f: PtFlags)
        ensures
            final(self)@ == (PtView { flags: f@, ..old(self)@ }),
    {
        self.flags = f;
    }

    /// Puts `v` into the slot of `vaddr`, in place of what was there, and hands it out.
    pub fn set_pte(&mut self, vaddr: u64, v: Pte) -> (r: &mut Pte)
        ensures
            r@ == v@,
            final(self)@ == old(self)@.with_pte(vaddr, final(r)@),
    {
        self.pte[pt_index(vaddr)] = Some(Box::new(v));
        self.pte[pt_index(vaddr)].as_mut().unwrap()
    }

    /// The leaf entry that `vaddr` goes through, if there is one.
    pub fn pte(&self, vaddr: u64) -> (r: Option<&Box<Pte>>)
        ensures
            ref_view(r) == self@.pte(vaddr),
    {
        self.pte[pt_index(vaddr)].as_ref()
    }

    /// The leaf entry that `vaddr` goes through, if there is one, for changing it.
    pub fn pte_mut(&mut self, vaddr: u64) -> (r: Option<&mut Box<Pte>>)
        ensures
            match r {
                Some(e) => old(self)@.pte(vaddr) == Some(e@) && final(self)@ == old(
                    self,
                )@.with_pte(vaddr, final(e)@),
                None => old(self)@.pte(vaddr) is None && final(self)@ == old(self)@,
            },
    {
        self.pte[pt_index(vaddr)].as_mut()
    }

    /// The number of pages that the table takes in a committed image: its own.
    pub fn page_count(&self) -> (n: usize)
        ensures
            n == self@.page_count(),
    {
        1
    }

    /// A walk over the occupied slots, from the first slot on.
    pub fn iter(&self) -> (r: IterPt<'_>)
        ensures
            r.table() == self@,
            r.pos() == 0,
    {
        IterPt { inner: self, pos: 0 }
    }

    /// The slot with number `idx`.
    pub fn index(&self, idx: usize) -> (r: &Option<Box<Pte>>)
        requires
            idx < 512,
        ensures
            slot_view(*r) == self@.ptes[idx as int],
    {
        &self.pte[idx]
    }
}

impl Default for Pt {
    /// A table without entries and without flags.
    fn default() -> (r: Self)
        ensures
            r@ == PtView::empty(),
    {
        Pt { pte: vacant_slots(), flags: PtFlags::empty() }
    }
}

} // verus!
