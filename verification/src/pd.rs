//! The directory of the tree, whose slots hold innermost tables.

use crate::addr::pd_index;
use crate::flags::PdFlags;
use crate::model::{ref_view, slot_view, PdView};
use crate::pt::Pt;
use crate::slots::vacant_slots;
use crate::layout::sum_upto;
use vstd::prelude::*;

verus! {

/// A directory: 512 slots, each vacant or holding an innermost table, and the union of the
/// flags of every insert that went through the directory.
pub struct Pd {
    pt: [Option<Box<Pt>>; 512],
    flags: PdFlags,
}

impl View for Pd {
    type V = PdView;

    closed spec fn view(&self) -> PdView {
        PdView { flags: self.flags@, pts: Seq::new(512, |i: int| slot_view(self.pt@[i])) }
    }
}

/// A walk over the occupied slots of a directory, in slot order.
pub struct IterPd<'a> {
    inner: &'a Pd,
    pos: usize,
}

impl<'a> IterPd<'a> {
    /// The walk never looks past the last slot.
    #[verifier::type_invariant]
    spec fn in_range(self) -> bool {
        self.pos <= 512
    }

    /// The table that is walked.
    pub closed spec fn table(&self) -> PdView {
        self.inner@
    }

    /// The slot from which `next` goes on looking; 512 when the walk is over.
    pub closed spec fn pos(&self) -> nat {
        self.pos as nat
    }

    /// The next occupied slot: its number and what it holds. Vacant slots are passed over;
    /// `None` says that no occupied slot is left.
    pub fn next(&mut self) -> (r: Option<(usize, &'a Box<Pt>)>)
        ensures
            final(self).table() == old(self).table(),
            match r {
                Some((i, node)) => {
                    &&& old(self).pos() <= i < 512
                    &&& old(self).table().pts[i as int] == Some(node@)
                    &&& forall|j: int|
                        old(self).pos() <= j < i ==> old(self).table().pts[j] is None
                    &&& final(self).pos() == i + 1
                },
                None => {
                    &&& forall|j: int|
                        old(self).pos() <= j < 512 ==> old(self).table().pts[j] is None
                    &&& final(self).pos() == 512
                },
            },
    {
        proof {
            use_type_invariant(&*self);
        }
        let ghost start = self.pos as int;
        while self.pos < 512
            invariant
                0 <= start <= self.pos <= 512,
                start == old(self).pos(),
                self.table() == old(self).table(),
                forall|j: int| start <= j < self.pos ==> old(self).table().pts[j] is None,
            decreases 512 - self.pos,
        {
            let i = self.pos;
            self.pos += 1;
            if let Some(node) = self.inner.pt[i].as_ref() {
                return Some((i, node));
            }
        }
        None
    }
}

impl Pd {
    /// The view of every directory is well-formed.
    pub proof fn lemma_view_wf(&self)
        ensures
            self@.wf(),
    {
        self.flags.lemma_view_within();
        assert forall|i: int| 0 <= i < 512 implies (#[trigger] self@.pts[i] matches Some(c)
            ==> c.wf()) by {
            match self.pt@[i] {
                Some(child) => {
                    child.lemma_view_wf();
                },
                None => {},
            }
        }
    }

    /// The aggregate flags of the directory.
    pub fn flags(&self) -> (r: PdFlags)
        ensures
            r@ == self@.flags,
    {
        self.flags
    }

    /// Replaces the aggregate flags of the directory.
    pub fn set_flags(&mut self, f: PdFlags)
        ensures
            final(self)@ == (PdView { flags: f@, ..old(self)@ }),
    {
        self.flags = f;
    }

    /// Puts `v` into the slot of `vaddr`, in place of what was there, and hands it out.
    pub fn set_pt(&mut self, vaddr: u64, v: Pt) -> (r: &mut Pt)
        ensures
            r@ == v@,
            final(self)@ == old(self)@.with_pt(vaddr, final(r)@),
    {
        self.pt[pd_index(vaddr)] = Some(Box::new(v));
        self.pt[pd_index(vaddr)].as_mut().unwrap()
    }

    /// The innermost table that `vaddr` goes through, if there is one.
    pub fn pt(&self, vaddr: u64) -> (r: Option<&Box<Pt>>)
        ensures
            ref_view(r) == self@.pt(vaddr),
    {
        self.pt[pd_index(vaddr)].as_ref()
    }

    /// The innermost table that `vaddr` goes through, if there is one, for changing it.
    pub fn pt_mut(&mut self, vaddr: u64) -> (r: Option<&mut Box<Pt>>)
        ensures
            match r {
                Some(e) => old(self)@.pt(vaddr) == Some(e@) && final(self)@ == old(
                    self,
                )@.with_pt(vaddr, final(e)@),
                None => old(self)@.pt(vaddr) is None && final(self)@ == old(self)@,
            },
    {
        self.pt[pd_index(vaddr)].as_mut()
    }

    /// The number of pages that the directory and what is below it take in a committed
    /// image.
    pub fn page_count(&self) -> (n: usize)
        ensures
            n == self@.page_count(),
    {
        proof {
            self.lemma_view_wf();
        }
        let mut n: usize = 1;
        let mut i: usize = 0;
        while i < 512
            invariant
                i <= 512,
                self@.wf(),
                n == 1 + sum_upto(self@.sizes(), i as int),
                n <= 1 + i * 1,
            decreases 512 - i,
        {
            if let Some(child) = &self.pt[i] {
                proof {
                    child.lemma_view_wf();
                }
                n += child.page_count();
            }
            i += 1;
        }
        n
    }

    /// A walk over the occupied slots, from the first slot on.
    pub fn iter(&self) -> (r: IterPd<'_>)
        ensures
            r.table() == self@,
            r.pos() == 0,
    {
        IterPd { inner: self, pos: 0 }
    }

    /// The slot with number `idx`.
    pub fn index(&self, idx: usize) -> (r: &Option<Box<Pt>>)
        requires
            idx < 512,
        ensures
            slot_view(*r) == self@.pts[idx as int],
    {
        &self.pt[idx]
    }
}

impl Default for Pd {
    /// A directory without tables and without flags.
    fn default() -> (r: Self)
        ensures
            r@ == PdView::empty(),
    {
        Pd { pt: vacant_slots(), flags: PdFlags::empty() }
    }
}

} // verus!
