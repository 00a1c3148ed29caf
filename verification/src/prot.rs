//! The access a translation asks for.

use vstd::prelude::*;
use vstd::std_specs::ops::BitOrSpecImpl;

verus! {

/// Bit 2: read access.
pub const PROT_R: u32 = 0x4;

/// Bit 1: write access.
pub const PROT_W: u32 = 0x2;

/// Bit 0: instruction fetch.
pub const PROT_X: u32 = 0x1;

/// Every bit that `Prot` knows.
pub const PROT_MASK: u32 = 0x7;

/// Bits cut to a mask lie within the mask.
proof fn lemma_truncated_prot(bits: u32, mask: u32)
    by (bit_vector)
    ensures
        (bits & mask) & mask == bits & mask,
{
}

/// The union and the difference of two sets within a mask lie within the mask.
proof fn lemma_within_prot(a: u32, b: u32, mask: u32)
    by (bit_vector)
    requires
        a & mask == a,
        b & mask == b,
    ensures
        (a | b) & mask == a | b,
        (a & !b) & mask == a & !b,
{
}

/// Each kind of access lies within the mask.
proof fn lemma_prot_in_mask()
    by (bit_vector)
    ensures
        0x4u32 & 0x7 == 0x4,
        0x2u32 & 0x7 == 0x2,
        0x1u32 & 0x7 == 0x1,
        0x7u32 & 0x7 == 0x7,
        0u32 & 0x7 == 0,
{
}

/// The kinds of access a translation can ask for.
///
/// A set of flag bits; its view is the bits as a `u32`, none of them outside the mask of
/// the type.
#[derive(Clone, Copy, Debug, PartialEq, Eq, Structural)]
pub struct Prot {
    bits: u32,
}

impl View for Prot {
    type V = u32;

    closed spec fn view(&self) -> u32 {
        self.bits & PROT_MASK
    }
}

impl Prot {
    /// No bit outside the mask is ever set.
    #[verifier::type_invariant]
    spec fn within_mask(self) -> bool {
        self.bits & PROT_MASK == self.bits
    }

    /// The bits of every set lie within the mask.
    pub proof fn lemma_view_within(&self)
        ensures
            self@ & PROT_MASK == self@,
    {
        lemma_truncated_prot(self.bits, PROT_MASK);
    }

    /// Read access.
    #[allow(non_snake_case)]
    pub fn R() -> (r: Self)
        ensures
            r@ == PROT_R,
    {
        proof {
            lemma_prot_in_mask();
        }
        Prot { bits: PROT_R }
    }

    /// Write access.
    #[allow(non_snake_case)]
    pub fn W() -> (r: Self)
        ensures
            r@ == PROT_W,
    {
        proof {
            lemma_prot_in_mask();
        }
        Prot { bits: PROT_W }
    }

    /// Instruction fetch.
    #[allow(non_snake_case)]
    pub fn X() -> (r: Self)
        ensures
            r@ == PROT_X,
    {
        proof {
            lemma_prot_in_mask();
        }
        Prot { bits: PROT_X }
    }

    /// The set without any flag.
    pub fn empty() -> (r: Self)
        ensures
            r@ == 0,
    {
        proof {
            lemma_prot_in_mask();
        }
        Prot { bits: 0 }
    }

    /// The set of every flag of this type.
    pub fn all() -> (r: Self)
        ensures
            r@ == PROT_MASK,
    {
        proof {
            lemma_prot_in_mask();
        }
        Prot { bits: PROT_MASK }
    }

    /// The bits of the set.
    pub fn bits(&self) -> (r: u32)
        ensures
            r == self@,
            r & PROT_MASK == r,
    {
        proof {
            use_type_invariant(self);
        }
        self.bits
    }

    /// The flags of this type among `bits`; every other bit is dropped.
    pub fn from_bits_truncate(bits: u32) -> (r: Self)
        ensures
            r@ == bits & PROT_MASK,
    {
        proof {
            lemma_truncated_prot(bits, PROT_MASK);
        }
        Prot { bits: bits & PROT_MASK }
    }

    /// Whether every flag of `other` is in the set.
    pub fn contains(&self, other: Self) -> (r: bool)
        ensures
            r == (self@ & other@ == other@),
    {
        proof {
            use_type_invariant(self);
            use_type_invariant(&other);
        }
        (self.bits & other.bits) == other.bits
    }

    /// Adds the flags of `other` to the set.
    pub fn insert(&mut self, other: Self)
        ensures
            final(self)@ == old(self)@ | other@,
    {
        proof {
            use_type_invariant(&*self);
            use_type_invariant(&other);
            lemma_within_prot(self.bits, other.bits, PROT_MASK);
        }
        self.bits = self.bits | other.bits;
    }

    /// Takes the flags of `other` out of the set.
    pub fn remove(&mut self, other: Self)
        ensures
            final(self)@ == old(self)@ & !other@,
    {
        proof {
            use_type_invariant(&*self);
            use_type_invariant(&other);
            lemma_within_prot(self.bits, other.bits, PROT_MASK);
        }
        self.bits = self.bits & !other.bits;
    }
}

impl BitOrSpecImpl for Prot {
    open spec fn obeys_bitor_spec() -> bool {
        true
    }

    open spec fn bitor_req(self, rhs: Prot) -> bool {
        true
    }

    closed spec fn bitor_spec(self, rhs: Prot) -> Prot {
        Prot { bits: self.bits | rhs.bits }
    }
}

impl core::ops::BitOr for Prot {
    type Output = Prot;

    /// The union of two sets.
    fn bitor(self, rhs: Prot) -> (r: Prot)
        ensures
            r@ == self@ | rhs@,
    {
        proof {
            use_type_invariant(&self);
            use_type_invariant(&rhs);
            lemma_within_prot(self.bits, rhs.bits, PROT_MASK);
        }
        Prot { bits: self.bits | rhs.bits }
    }
}

} // verus!
