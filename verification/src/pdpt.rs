//! The directory-pointer table of the tree, whose slots hold directories.

use crate::addr::pdpt_index;
use crate::flags::PdptFlags;
use crate::model::{ref_view, slot_view, PdptView};
use crate::pd::Pd;
use crate::slots::vacant_slots;
use crate::layout::sum_upto;
use vstd::prelude::*;

verus! {

/// A directory-pointer table: 512 slots, each vacant or holding a directory, and the union
/// of the flags of every insert that went through the table.
pub struct Pdpt {
    pd: [Option<Box<Pd>>; 512],
    flags: PdptFlags,
}

impl View for Pdpt {
    type V = PdptView;

    closed spec fn view(&self) -> PdptView {
        PdptView { flags: self.flags@, pds: Seq::new(512, |i: int| slot_view(self.pd@[i])) }
    }
}

/// A walk over the occupied slots of a directory-pointer table, in slot order.
pub struct IterPdpt<'a> {
    inner: &'a Pdpt,
    pos: usize,
}

impl<'a> IterPdpt<'a> {
    /// The walk never looks past the last slot.
    #[verifier::type_invariant]
    spec fn in_range(self) -> bool {
        self.pos <= 512
    }

    /// The table that is walked.
    pub closed spec fn table(&self) -> PdptView {
        self.inner@
    }

    /// The slot from which `next` goes on looking; 512 when the walk is over.
    pub closed spec fn pos(&self) -> nat {
        self.pos as nat
    }

    /// The next occupied slot: its number and what it holds. Vacant slots are passed over;
    /// `None` says that no occupied slot is left.
    pub fn next(&mut self) -> (r: Option<(usize, &'a Box<Pd>)>)
        ensures
            final(self).table() == old(self).table(),
            match r {
                Some((i, node)) => {
                    &&& old(self).pos() <= i < 512
                    &&& old(self).table().pds[i as int] == Some(node@)
                    &&& forall|j: int|
                        old(self).pos() <= j < i ==> old(self).table().pds[j] is None
                    &&& final(self).pos() == i + 1
                },
                None => {
                    &&& forall|j: int|
                        old(self).pos() <= j < 512 ==> old(self).table().pds[j] is None
                    &&& final(self).pos() == 512
                },
            },
    {
        proof {
            use_type_invariant(&*self);
        }
        let ghost start = self.pos as int;
        while self.pos < 512
            invariant
                0 <= start <= self.pos <= 512,
                start == old(self).pos(),
                self.table() == old(self).table(),
                forall|j: int| start <= j < self.pos ==> old(self).table().pds[j] is None,
            decreases 512 - self.pos,
        {
            let i = self.pos;
            self.pos += 1;
            if let Some(node) = self.inner.pd[i].as_ref() {
                return Some((i, node));
            }
        }
        None
    }
}

impl Pdpt {
    /// The view of every directory-pointer table is well-formed.
    pub proof fn lemma_view_wf(&self)
        ensures
            self@.wf(),
    {
        self.flags.lemma_view_within();
        assert forall|i: int| 0 <= i < 512 implies (#[trigger] self@.pds[i] matches Some(c)
            ==> c.wf()) by {
            match self.pd@[i] {
                Some(child) => {
                    child.lemma_view_wf();
                },
                None => {},
            }
        }
    }

    /// The aggregate flags of the directory-pointer table.
    pub fn flags(&self) -> (r: PdptFlags)
        ensures
            r@ == self@.flags,
    {
        self.flags
    }

    /// Replaces the aggregate flags of the directory-pointer table.
    pub fn set_flags(&mut self, f: PdptFlags)
        ensures
            final(self)@ == (PdptView { flags: f@, ..old(self)@ }),
    {
        self.flags = f;
    }

    /// Puts `v` into the slot of `vaddr`, in place of what was there, and hands it out.
    pub fn set_pd(&mut self, vaddr: u64, v: Pd) -> (r: &mut Pd)
        ensures
            r@ == v@,
            final(self)@ == old(self)@.with_pd(vaddr, final(r)@),
    {
        self.pd[pdpt_index(vaddr)] = Some(Box::new(v));
        self.pd[pdpt_index(vaddr)].as_mut().unwrap()
    }

    /// The directory that `vaddr` goes through, if there is one.
    pub fn pd(&self, vaddr: u64) -> (r: Option<&Box<Pd>>)
        ensures
            ref_view(r) == self@.pd(vaddr),
    {
        self.pd[pdpt_index(vaddr)].as_ref()
    }

    /// The directory that `vaddr` goes through, if there is one, for changing it.
    pub fn pd_mut(&mut self, vaddr: u64) -> (r: Option<&mut Box<Pd>>)
        ensures
            match r {
                Some(e) => old(self)@.pd(vaddr) == Some(e@) && final(self)@ == old(
                    self,
                )@.with_pd(vaddr, final(e)@),
                None => old(self)@.pd(vaddr) is None && final(self)@ == old(self)@,
            },
    {
        self.pd[pdpt_index(vaddr)].as_mut()
    }

    /// The number of pages that the directory-pointer table and what is below it take in a
    /// committed image.
    pub fn page_count(&self) -> (n: usize)
        ensures
            n == self@.page_count(),
    {
        proof {
            self.lemma_view_wf();
        }
        let mut n: usize = 1;
        let mut i: usize = 0;
        while i < 512
            invariant
                i <= 512,
                self@.wf(),
                n == 1 + sum_upto(self@.sizes(), i as int),
                n <= 1 + i * 513,
            decreases 512 - i,
        {
            if let Some(child) = &self.pd[i] {
                proof {
                    child.lemma_view_wf();
                    child@.lemma_page_count_bound();
                }
                n += child.page_count();
            }
            i += 1;
        }
        n
    }

    /// A walk over the occupied slots, from the first slot on.
    pub fn iter(&self) -> (r: IterPdpt<'_>)
        ensures
            r.table() == self@,
            r.pos() == 0,
    {
        IterPdpt { inner: self, pos: 0 }
    }

    /// The slot with number `idx`.
    pub fn index(&self, idx: usize) -> (r: &Option<Box<Pd>>)
        requires
            idx < 512,
        ensures
            slot_view(*r) == self@.pds[idx as int],
    {
        &self.pd[idx]
    }
}

impl Default for Pdpt {
    /// A directory-pointer table without directories and without flags.
    fn default() -> (r: Self)
        ensures
            r@ == PdptView::empty(),
    {
        Pdpt { pd: vacant_slots(), flags: PdptFlags::empty() }
    }
}

} // verus!
