//! The hardware flag sets: one for what a caller hands to `insert`, one for leaf entries and
//! one for each of the three table levels.
//!
//! The three table levels share their bit layout; a leaf entry adds `Dirty`, `AttributeTable`
//! and `Global`. A flag handed to `insert` is carried to a level by `from_bits_truncate`,
//! which keeps the bits that level knows.

use vstd::prelude::*;
use vstd::std_specs::ops::BitOrSpecImpl;

verus! {

/// Bit 0: the entry is present.
pub const PRESENT: u64 = 0x1;

/// Bit 1: writes are allowed.
pub const WRITABLE: u64 = 0x2;

/// Bit 2: user-mode accesses are allowed.
pub const USER: u64 = 0x4;

/// Bit 3: write-through caching.
pub const WRITE_THROUGH: u64 = 0x8;

/// Bit 4: caching disabled.
pub const CACHE_DISABLED: u64 = 0x10;

/// Bit 5: the entry has been used by a walk.
pub const ACCESSED: u64 = 0x20;

/// Bit 6: the page has been written to.
pub const DIRTY: u64 = 0x40;

/// Bit 7 of a leaf entry: memory type selector.
pub const ATTRIBUTE_TABLE: u64 = 0x80;

/// Bit 7 of a table entry: large page marker.
pub const SIZE: u64 = 0x80;

/// Bit 8 of a leaf entry: global translation.
pub const GLOBAL: u64 = 0x100;

/// Bit 63: no instruction fetch.
pub const NX: u64 = 0x8000_0000_0000_0000;

/// Every bit that `Flags` knows: bits 0 to 6 and bit 63.
pub const FLAGS_MASK: u64 = 0x8000_0000_0000_007f;

/// Every bit that `PteFlags` knows: bits 0 to 8 and bit 63.
pub const PTE_MASK: u64 = 0x8000_0000_0000_01ff;

/// Every bit that the flags of a table level know: bits 0 to 5, bit 7 and bit 63.
pub const TABLE_MASK: u64 = 0x8000_0000_0000_00bf;

/// Bits cut to a mask lie within the mask.
proof fn lemma_truncated(bits: u64, mask: u64)
    by (bit_vector)
    ensures
        (bits & mask) & mask == bits & mask,
{
}

/// The union and the difference of two sets within a mask lie within the mask.
proof fn lemma_within(a: u64, b: u64, mask: u64)
    by (bit_vector)
    requires
        a & mask == a,
        b & mask == b,
    ensures
        (a | b) & mask == a | b,
        (a & !b) & mask == a & !b,
{
}

/// Each flag of `Flags` lies within its mask.
proof fn lemma_flags_in_mask()
    by (bit_vector)
    ensures
        0x1u64 & 0x8000_0000_0000_007f == 0x1,
        0x2u64 & 0x8000_0000_0000_007f == 0x2,
        0x4u64 & 0x8000_0000_0000_007f == 0x4,
        0x8u64 & 0x8000_0000_0000_007f == 0x8,
        0x10u64 & 0x8000_0000_0000_007f == 0x10,
        0x20u64 & 0x8000_0000_0000_007f == 0x20,
        0x40u64 & 0x8000_0000_0000_007f == 0x40,
        0x8000_0000_0000_0000u64 & 0x8000_0000_0000_007f == 0x8000_0000_0000_0000,
        0x8000_0000_0000_007fu64 & 0x8000_0000_0000_007f == 0x8000_0000_0000_007f,
        0u64 & 0x8000_0000_0000_007f == 0,
{
}

/// Each flag of `PteFlags` lies within its mask.
proof fn lemma_pte_flags_in_mask()
    by (bit_vector)
    ensures
        0x1u64 & 0x8000_0000_0000_01ff == 0x1,
        0x2u64 & 0x8000_0000_0000_01ff == 0x2,
        0x4u64 & 0x8000_0000_0000_01ff == 0x4,
        0x8u64 & 0x8000_0000_0000_01ff == 0x8,
        0x10u64 & 0x8000_0000_0000_01ff == 0x10,
        0x20u64 & 0x8000_0000_0000_01ff == 0x20,
        0x40u64 & 0x8000_0000_0000_01ff == 0x40,
        0x80u64 & 0x8000_0000_0000_01ff == 0x80,
        0x100u64 & 0x8000_0000_0000_01ff == 0x100,
        0x8000_0000_0000_0000u64 & 0x8000_0000_0000_01ff == 0x8000_0000_0000_0000,
        0x8000_0000_0000_01ffu64 & 0x8000_0000_0000_01ff == 0x8000_0000_0000_01ff,
        0u64 & 0x8000_0000_0000_01ff == 0,
{
}

/// Each flag of a table level lies within the mask of the table levels.
proof fn lemma_table_flags_in_mask()
    by (bit_vector)
    ensures
        0x1u64 & 0x8000_0000_0000_00bf == 0x1,
        0x2u64 & 0x8000_0000_0000_00bf == 0x2,
        0x4u64 & 0x8000_0000_0000_00bf == 0x4,
        0x8u64 & 0x8000_0000_0000_00bf == 0x8,
        0x10u64 & 0x8000_0000_0000_00bf == 0x10,
        0x20u64 & 0x8000_0000_0000_00bf == 0x20,
        0x80u64 & 0x8000_0000_0000_00bf == 0x80,
        0x8000_0000_0000_0000u64 & 0x8000_0000_0000_00bf == 0x8000_0000_0000_0000,
        0x8000_0000_0000_00bfu64 & 0x8000_0000_0000_00bf == 0x8000_0000_0000_00bf,
        0u64 & 0x8000_0000_0000_00bf == 0,
{
}

/// The flags a caller hands to `insert`.
///
/// A set of flag bits; its view is the bits as a `u64`, none of them outside the mask of
/// the type.
#[derive(Clone, Copy, Debug, PartialEq, Eq, Structural)]
pub struct Flags {
    bits: u64,
}

impl View for Flags {
    type V = u64;

    closed spec fn view(&self) -> u64 {
        self.bits & FLAGS_MASK
    }
}

impl Flags {
    /// No bit outside the mask is ever set.
    #[verifier::type_invariant]
    spec fn within_mask(self) -> bool {
        self.bits & FLAGS_MASK == self.bits
    }

    /// The bits of every set lie within the mask.
    pub proof fn lemma_view_within(&self)
        ensures
            self@ & FLAGS_MASK == self@,
    {
        lemma_truncated(self.bits, FLAGS_MASK);
    }

    /// The entry is present; a walk stops at an entry without it.
    #[allow(non_snake_case)]
    pub fn Present() -> (r: Self)
        ensures
            r@ == PRESENT,
    {
        proof {
            lemma_flags_in_mask();
        }
        Flags { bits: PRESENT }
    }

    /// Writes are allowed through the entry.
    #[allow(non_snake_case)]
    pub fn Writable() -> (r: Self)
        ensures
            r@ == WRITABLE,
    {
        proof {
            lemma_flags_in_mask();
        }
        Flags { bits: WRITABLE }
    }

    /// User-mode accesses are allowed through the entry.
    #[allow(non_snake_case)]
    pub fn User() -> (r: Self)
        ensures
            r@ == USER,
    {
        proof {
            lemma_flags_in_mask();
        }
        Flags { bits: USER }
    }

    /// Write-through caching for what the entry refers to.
    #[allow(non_snake_case)]
    pub fn WriteThrough() -> (r: Self)
        ensures
            r@ == WRITE_THROUGH,
    {
        proof {
            lemma_flags_in_mask();
        }
        Flags { bits: WRITE_THROUGH }
    }

    /// Caching is disabled for what the entry refers to.
    #[allow(non_snake_case)]
    pub fn CacheDisabled() -> (r: Self)
        ensures
            r@ == CACHE_DISABLED,
    {
        proof {
            lemma_flags_in_mask();
        }
        Flags { bits: CACHE_DISABLED }
    }

    /// The entry has been used by a walk.
    #[allow(non_snake_case)]
    pub fn Accessed() -> (r: Self)
        ensures
            r@ == ACCESSED,
    {
        proof {
            lemma_flags_in_mask();
        }
        Flags { bits: ACCESSED }
    }

    /// The page has been written to.
    #[allow(non_snake_case)]
    pub fn Dirty() -> (r: Self)
        ensures
            r@ == DIRTY,
    {
        proof {
            lemma_flags_in_mask();
        }
        Flags { bits: DIRTY }
    }

    /// Instruction fetches are not allowed through the entry.
    #[allow(non_snake_case)]
    pub fn NX() -> (r: Self)
        ensures
            r@ == NX,
    {
        proof {
            lemma_flags_in_mask();
        }
        Flags { bits: NX }
    }

    /// The set without any flag.
    pub fn empty() -> (r: Self)
        ensures
            r@ == 0,
    {
        proof {
            lemma_flags_in_mask();
        }
        Flags { bits: 0 }
    }

    /// The set of every flag of this type.
    pub fn all() -> (r: Self)
        ensures
            r@ == FLAGS_MASK,
    {
        proof {
            lemma_flags_in_mask();
        }
        Flags { bits: FLAGS_MASK }
    }

    /// The bits of the set.
    pub fn bits(&self) -> (r: u64)
        ensures
            r == self@,
            r & FLAGS_MASK == r,
    {
        proof {
            use_type_invariant(self);
        }
        self.bits
    }

    /// The flags of this type among `bits`; every other bit is dropped.
    pub fn from_bits_truncate(bits: u64) -> (r: Self)
        ensures
            r@ == bits & FLAGS_MASK,
    {
        proof {
            lemma_truncated(bits, FLAGS_MASK);
        }
        Flags { bits: bits & FLAGS_MASK }
    }

    /// Whether every flag of `other` is in the set.
    pub fn contains(&self, other: Self) -> (r: bool)
        ensures
            r == (self@ & other@ == other@),
    {
        proof {
            use_type_invariant(self);
            use_type_invariant(&other);
        }
        (self.bits & other.bits) == other.bits
    }

    /// Adds the flags of `other` to the set.
    pub fn insert(&mut self, other: Self)
        ensures
            final(self)@ == old(self)@ | other@,
    {
        proof {
            use_type_invariant(&*self);
            use_type_invariant(&other);
            lemma_within(self.bits, other.bits, FLAGS_MASK);
        }
        self.bits = self.bits | other.bits;
    }

    /// Takes the flags of `other` out of the set.
    pub fn remove(&mut self, other: Self)
        ensures
            final(self)@ == old(self)@ & !other@,
    {
        proof {
            use_type_invariant(&*self);
            use_type_invariant(&other);
            lemma_within(self.bits, other.bits, FLAGS_MASK);
        }
        self.bits = self.bits & !other.bits;
    }
}

impl BitOrSpecImpl for Flags {
    open spec fn obeys_bitor_spec() -> bool {
        true
    }

    open spec fn bitor_req(self, rhs: Flags) -> bool {
        true
    }

    closed spec fn bitor_spec(self, rhs: Flags) -> Flags {
        Flags { bits: self.bits | rhs.bits }
    }
}

impl core::ops::BitOr for Flags {
    type Output = Flags;

    /// The union of two sets.
    fn bitor(self, rhs: Flags) -> (r: Flags)
        ensures
            r@ == self@ | rhs@,
    {
        proof {
            use_type_invariant(&self);
            use_type_invariant(&rhs);
            lemma_within(self.bits, rhs.bits, FLAGS_MASK);
        }
        Flags { bits: self.bits | rhs.bits }
    }
}

/// The flags of a leaf entry.
///
/// A set of flag bits; its view is the bits as a `u64`, none of them outside the mask of
/// the type.
#[derive(Clone, Copy, Debug, PartialEq, Eq, Structural)]
pub struct PteFlags {
    bits: u64,
}

impl View for PteFlags {
    type V = u64;

    closed spec fn view(&self) -> u64 {
        self.bits & PTE_MASK
    }
}

impl PteFlags {
    /// No bit outside the mask is ever set.
    #[verifier::type_invariant]
    spec fn within_mask(self) -> bool {
        self.bits & PTE_MASK == self.bits
    }

    /// The bits of every set lie within the mask.
    pub proof fn lemma_view_within(&self)
        ensures
            self@ & PTE_MASK == self@,
    {
        lemma_truncated(self.bits, PTE_MASK);
    }

    /// The entry is present; a walk stops at an entry without it.
    #[allow(non_snake_case)]
    pub fn Present() -> (r: Self)
        ensures
            r@ == PRESENT,
    {
        proof {
            lemma_pte_flags_in_mask();
        }
        PteFlags { bits: PRESENT }
    }

    /// Writes are allowed through the entry.
    #[allow(non_snake_case)]
    pub fn Writable() -> (r: Self)
        ensures
            r@ == WRITABLE,
    {
        proof {
            lemma_pte_flags_in_mask();
        }
        PteFlags { bits: WRITABLE }
    }

    /// User-mode accesses are allowed through the entry.
    #[allow(non_snake_case)]
    pub fn User() -> (r: Self)
        ensures
            r@ == USER,
    {
        proof {
            lemma_pte_flags_in_mask();
        }
        PteFlags { bits: USER }
    }

    /// Write-through caching for what the entry refers to.
    #[allow(non_snake_case)]
    pub fn WriteThrough() -> (r: Self)
        ensures
            r@ == WRITE_THROUGH,
    {
        proof {
            lemma_pte_flags_in_mask();
        }
        PteFlags { bits: WRITE_THROUGH }
    }

    /// Caching is disabled for what the entry refers to.
    #[allow(non_snake_case)]
    pub fn CacheDisabled() -> (r: Self)
        ensures
            r@ == CACHE_DISABLED,
    {
        proof {
            lemma_pte_flags_in_mask();
        }
        PteFlags { bits: CACHE_DISABLED }
    }

    /// The entry has been used by a walk.
    #[allow(non_snake_case)]
    pub fn Accessed() -> (r: Self)
        ensures
            r@ == ACCESSED,
    {
        proof {
            lemma_pte_flags_in_mask();
        }
        PteFlags { bits: ACCESSED }
    }

    /// The page has been written to.
    #[allow(non_snake_case)]
    pub fn Dirty() -> (r: Self)
        ensures
            r@ == DIRTY,
    {
        proof {
            lemma_pte_flags_in_mask();
        }
        PteFlags { bits: DIRTY }
    }

    /// Selects the memory type of the page.
    #[allow(non_snake_case)]
    pub fn AttributeTable() -> (r: Self)
        ensures
            r@ == ATTRIBUTE_TABLE,
    {
        proof {
            lemma_pte_flags_in_mask();
        }
        PteFlags { bits: ATTRIBUTE_TABLE }
    }

    /// The translation is global.
    #[allow(non_snake_case)]
    pub fn Global() -> (r: Self)
        ensures
            r@ == GLOBAL,
    {
        proof {
            lemma_pte_flags_in_mask();
        }
        PteFlags { bits: GLOBAL }
    }

    /// Instruction fetches are not allowed through the entry.
    #[allow(non_snake_case)]
    pub fn NX() -> (r: Self)
        ensures
            r@ == NX,
    {
        proof {
            lemma_pte_flags_in_mask();
        }
        PteFlags { bits: NX }
    }

    /// The set without any flag.
    pub fn empty() -> (r: Self)
        ensures
            r@ == 0,
    {
        proof {
            lemma_pte_flags_in_mask();
        }
        PteFlags { bits: 0 }
    }

    /// The set of every flag of this type.
    pub fn all() -> (r: Self)
        ensures
            r@ == PTE_MASK,
    {
        proof {
            lemma_pte_flags_in_mask();
        }
        PteFlags { bits: PTE_MASK }
    }

    /// The bits of the set.
    pub fn bits(&self) -> (r: u64)
        ensures
            r == self@,
            r & PTE_MASK == r,
    {
        proof {
            use_type_invariant(self);
        }
        self.bits
    }

    /// The flags of this type among `bits`; every other bit is dropped.
    pub fn from_bits_truncate(bits: u64) -> (r: Self)
        ensures
            r@ == bits & PTE_MASK,
    {
        proof {
            lemma_truncated(bits, PTE_MASK);
        }
        PteFlags { bits: bits & PTE_MASK }
    }

    /// Whether every flag of `other` is in the set.
    pub fn contains(&self, other: Self) -> (r: bool)
        ensures
            r == (self@ & other@ == other@),
    {
        proof {
            use_type_invariant(self);
            use_type_invariant(&other);
        }
        (self.bits & other.bits) == other.bits
    }

    /// Adds the flags of `other` to the set.
    pub fn insert(&mut self, other: Self)
        ensures
            final(self)@ == old(self)@ | other@,
    {
        proof {
            use_type_invariant(&*self);
            use_type_invariant(&other);
            lemma_within(self.bits, other.bits, PTE_MASK);
        }
        self.bits = self.bits | other.bits;
    }

    /// Takes the flags of `other` out of the set.
    pub fn remove(&mut self, other: Self)
        ensures
            final(self)@ == old(self)@ & !other@,
    {
        proof {
            use_type_invariant(&*self);
            use_type_invariant(&other);
            lemma_within(self.bits, other.bits, PTE_MASK);
        }
        self.bits = self.bits & !other.bits;
    }
}

impl BitOrSpecImpl for PteFlags {
    open spec fn obeys_bitor_spec() -> bool {
        true
    }

    open spec fn bitor_req(self, rhs: PteFlags) -> bool {
        true
    }

    closed spec fn bitor_spec(self, rhs: PteFlags) -> PteFlags {
        PteFlags { bits: self.bits | rhs.bits }
    }
}

impl core::ops::BitOr for PteFlags {
    type Output = PteFlags;

    /// The union of two sets.
    fn bitor(self, rhs: PteFlags) -> (r: PteFlags)
        ensures
            r@ == self@ | rhs@,
    {
        proof {
            use_type_invariant(&self);
            use_type_invariant(&rhs);
            lemma_within(self.bits, rhs.bits, PTE_MASK);
        }
        PteFlags { bits: self.bits | rhs.bits }
    }
}

/// The aggregate flags of an innermost table.
///
/// A set of flag bits; its view is the bits as a `u64`, none of them outside the mask of
/// the type.
#[derive(Clone, Copy, Debug, PartialEq, Eq, Structural)]
pub struct PtFlags {
    bits: u64,
}

impl View for PtFlags {
    type V = u64;

    closed spec fn view(&self) -> u64 {
        self.bits & TABLE_MASK
    }
}

impl PtFlags {
    /// No bit outside the mask is ever set.
    #[verifier::type_invariant]
    spec fn within_mask(self) -> bool {
        self.bits & TABLE_MASK == self.bits
    }

    /// The bits of every set lie within the mask.
    pub proof fn lemma_view_within(&self)
        ensures
            self@ & TABLE_MASK == self@,
    {
        lemma_truncated(self.bits, TABLE_MASK);
    }

    /// The entry is present; a walk stops at an entry without it.
    #[allow(non_snake_case)]
    pub fn Present() -> (r: Self)
        ensures
            r@ == PRESENT,
    {
        proof {
            lemma_table_flags_in_mask();
        }
        PtFlags { bits: PRESENT }
    }

    /// Writes are allowed through the entry.
    #[allow(non_snake_case)]
    pub fn Writable() -> (r: Self)
        ensures
            r@ == WRITABLE,
    {
        proof {
            lemma_table_flags_in_mask();
        }
        PtFlags { bits: WRITABLE }
    }

    /// User-mode accesses are allowed through the entry.
    #[allow(non_snake_case)]
    pub fn User() -> (r: Self)
        ensures
            r@ == USER,
    {
        proof {
            lemma_table_flags_in_mask();
        }
        PtFlags { bits: USER }
    }

    /// Write-through caching for what the entry refers to.
    #[allow(non_snake_case)]
    pub fn WriteThrough() -> (r: Self)
        ensures
            r@ == WRITE_THROUGH,
    {
        proof {
            lemma_table_flags_in_mask();
        }
        PtFlags { bits: WRITE_THROUGH }
    }

    /// Caching is disabled for what the entry refers to.
    #[allow(non_snake_case)]
    pub fn CacheDisabled() -> (r: Self)
        ensures
            r@ == CACHE_DISABLED,
    {
        proof {
            lemma_table_flags_in_mask();
        }
        PtFlags { bits: CACHE_DISABLED }
    }

    /// The entry has been used by a walk.
    #[allow(non_snake_case)]
    pub fn Accessed() -> (r: Self)
        ensures
            r@ == ACCESSED,
    {
        proof {
            lemma_table_flags_in_mask();
        }
        PtFlags { bits: ACCESSED }
    }

    /// Marks a large page; translation does not support large pages.
    #[allow(non_snake_case)]
    pub fn Size() -> (r: Self)
        ensures
            r@ == SIZE,
    {
        proof {
            lemma_table_flags_in_mask();
        }
        PtFlags { bits: SIZE }
    }

    /// Instruction fetches are not allowed through the entry.
    #[allow(non_snake_case)]
    pub fn NX() -> (r: Self)
        ensures
            r@ == NX,
    {
        proof {
            lemma_table_flags_in_mask();
        }
        PtFlags { bits: NX }
    }

    /// The set without any flag.
    pub fn empty() -> (r: Self)
        ensures
            r@ == 0,
    {
        proof {
            lemma_table_flags_in_mask();
        }
        PtFlags { bits: 0 }
    }

    /// The set of every flag of this type.
    pub fn all() -> (r: Self)
        ensures
            r@ == TABLE_MASK,
    {
        proof {
            lemma_table_flags_in_mask();
        }
        PtFlags { bits: TABLE_MASK }
    }

    /// The bits of the set.
    pub fn bits(&self) -> (r: u64)
        ensures
            r == self@,
            r & TABLE_MASK == r,
    {
        proof {
            use_type_invariant(self);
        }
        self.bits
    }

    /// The flags of this type among `bits`; every other bit is dropped.
    pub fn from_bits_truncate(bits: u64) -> (r: Self)
        ensures
            r@ == bits & TABLE_MASK,
    {
        proof {
            lemma_truncated(bits, TABLE_MASK);
        }
        PtFlags { bits: bits & TABLE_MASK }
    }

    /// Whether every flag of `other` is in the set.
    pub fn contains(&self, other: Self) -> (r: bool)
        ensures
            r == (self@ & other@ == other@),
    {
        proof {
            use_type_invariant(self);
            use_type_invariant(&other);
        }
        (self.bits & other.bits) == other.bits
    }

    /// Adds the flags of `other` to the set.
    pub fn insert(&mut self, other: Self)
        ensures
            final(self)@ == old(self)@ | other@,
    {
        proof {
            use_type_invariant(&*self);
            use_type_invariant(&other);
            lemma_within(self.bits, other.bits, TABLE_MASK);
        }
        self.bits = self.bits | other.bits;
    }

    /// Takes the flags of `other` out of the set.
    pub fn remove(&mut self, other: Self)
        ensures
            final(self)@ == old(self)@ & !other@,
    {
        proof {
            use_type_invariant(&*self);
            use_type_invariant(&other);
            lemma_within(self.bits, other.bits, TABLE_MASK);
        }
        self.bits = self.bits & !other.bits;
    }
}

impl BitOrSpecImpl for PtFlags {
    open spec fn obeys_bitor_spec() -> bool {
        true
    }

    open spec fn bitor_req(self, rhs: PtFlags) -> bool {
        true
    }

    closed spec fn bitor_spec(self, rhs: PtFlags) -> PtFlags {
        PtFlags { bits: self.bits | rhs.bits }
    }
}

impl core::ops::BitOr for PtFlags {
    type Output = PtFlags;

    /// The union of two sets.
    fn bitor(self, rhs: PtFlags) -> (r: PtFlags)
        ensures
            r@ == self@ | rhs@,
    {
        proof {
            use_type_invariant(&self);
            use_type_invariant(&rhs);
            lemma_within(self.bits, rhs.bits, TABLE_MASK);
        }
        PtFlags { bits: self.bits | rhs.bits }
    }
}

/// The aggregate flags of a directory.
///
/// A set of flag bits; its view is the bits as a `u64`, none of them outside the mask of
/// the type.
#[derive(Clone, Copy, Debug, PartialEq, Eq, Structural)]
pub struct PdFlags {
    bits: u64,
}

impl View for PdFlags {
    type V = u64;

    closed spec fn view(&self) -> u64 {
        self.bits & TABLE_MASK
    }
}

impl PdFlags {
    /// No bit outside the mask is ever set.
    #[verifier::type_invariant]
    spec fn within_mask(self) -> bool {
        self.bits & TABLE_MASK == self.bits
    }

    /// The bits of every set lie within the mask.
    pub proof fn lemma_view_within(&self)
        ensures
            self@ & TABLE_MASK == self@,
    {
        lemma_truncated(self.bits, TABLE_MASK);
    }

    /// The entry is present; a walk stops at an entry without it.
    #[allow(non_snake_case)]
    pub fn Present() -> (r: Self)
        ensures
            r@ == PRESENT,
    {
        proof {
            lemma_table_flags_in_mask();
        }
        PdFlags { bits: PRESENT }
    }

    /// Writes are allowed through the entry.
    #[allow(non_snake_case)]
    pub fn Writable() -> (r: Self)
        ensures
            r@ == WRITABLE,
    {
        proof {
            lemma_table_flags_in_mask();
        }
        PdFlags { bits: WRITABLE }
    }

    /// User-mode accesses are allowed through the entry.
    #[allow(non_snake_case)]
    pub fn User() -> (r: Self)
        ensures
            r@ == USER,
    {
        proof {
            lemma_table_flags_in_mask();
        }
        PdFlags { bits: USER }
    }

    /// Write-through caching for what the entry refers to.
    #[allow(non_snake_case)]
    pub fn WriteThrough() -> (r: Self)
        ensures
            r@ == WRITE_THROUGH,
    {
        proof {
            lemma_table_flags_in_mask();
        }
        PdFlags { bits: WRITE_THROUGH }
    }

    /// Caching is disabled for what the entry refers to.
    #[allow(non_snake_case)]
    pub fn CacheDisabled() -> (r: Self)
        ensures
            r@ == CACHE_DISABLED,
    {
        proof {
            lemma_table_flags_in_mask();
        }
        PdFlags { bits: CACHE_DISABLED }
    }

    /// The entry has been used by a walk.
    #[allow(non_snake_case)]
    pub fn Accessed() -> (r: Self)
        ensures
            r@ == ACCESSED,
    {
        proof {
            lemma_table_flags_in_mask();
        }
        PdFlags { bits: ACCESSED }
    }

    /// Marks a large page; translation does not support large pages.
    #[allow(non_snake_case)]
    pub fn Size() -> (r: Self)
        ensures
            r@ == SIZE,
    {
        proof {
            lemma_table_flags_in_mask();
        }
        PdFlags { bits: SIZE }
    }

    /// Instruction fetches are not allowed through the entry.
    #[allow(non_snake_case)]
    pub fn NX() -> (r: Self)
        ensures
            r@ == NX,
    {
        proof {
            lemma_table_flags_in_mask();
        }
        PdFlags { bits: NX }
    }

    /// The set without any flag.
    pub fn empty() -> (r: Self)
        ensures
            r@ == 0,
    {
        proof {
            lemma_table_flags_in_mask();
        }
        PdFlags { bits: 0 }
    }

    /// The set of every flag of this type.
    pub fn all() -> (r: Self)
        ensures
            r@ == TABLE_MASK,
    {
        proof {
            lemma_table_flags_in_mask();
        }
        PdFlags { bits: TABLE_MASK }
    }

    /// The bits of the set.
    pub fn bits(&self) -> (r: u64)
        ensures
            r == self@,
            r & TABLE_MASK == r,
    {
        proof {
            use_type_invariant(self);
        }
        self.bits
    }

    /// The flags of this type among `bits`; every other bit is dropped.
    pub fn from_bits_truncate(bits: u64) -> (r: Self)
        ensures
            r@ == bits & TABLE_MASK,
    {
        proof {
            lemma_truncated(bits, TABLE_MASK);
        }
        PdFlags { bits: bits & TABLE_MASK }
    }

    /// Whether every flag of `other` is in the set.
    pub fn contains(&self, other: Self) -> (r: bool)
        ensures
            r == (self@ & other@ == other@),
    {
        proof {
            use_type_invariant(self);
            use_type_invariant(&other);
        }
        (self.bits & other.bits) == other.bits
    }

    /// Adds the flags of `other` to the set.
    pub fn insert(&mut self, other: Self)
        ensures
            final(self)@ == old(self)@ | other@,
    {
        proof {
            use_type_invariant(&*self);
            use_type_invariant(&other);
            lemma_within(self.bits, other.bits, TABLE_MASK);
        }
        self.bits = self.bits | other.bits;
    }

    /// Takes the flags of `other` out of the set.
    pub fn remove(&mut self, other: Self)
        ensures
            final(self)@ == old(self)@ & !other@,
    {
        proof {
            use_type_invariant(&*self);
            use_type_invariant(&other);
            lemma_within(self.bits, other.bits, TABLE_MASK);
        }
        self.bits = self.bits & !other.bits;
    }
}

impl BitOrSpecImpl for PdFlags {
    open spec fn obeys_bitor_spec() -> bool {
        true
    }

    open spec fn bitor_req(self, rhs: PdFlags) -> bool {
        true
    }

    closed spec fn bitor_spec(self, rhs: PdFlags) -> PdFlags {
        PdFlags { bits: self.bits | rhs.bits }
    }
}

impl core::ops::BitOr for PdFlags {
    type Output = PdFlags;

    /// The union of two sets.
    fn bitor(self, rhs: PdFlags) -> (r: PdFlags)
        ensures
            r@ == self@ | rhs@,
    {
        proof {
            use_type_invariant(&self);
            use_type_invariant(&rhs);
            lemma_within(self.bits, rhs.bits, TABLE_MASK);
        }
        PdFlags { bits: self.bits | rhs.bits }
    }
}

/// The aggregate flags of a directory-pointer table.
///
/// A set of flag bits; its view is the bits as a `u64`, none of them outside the mask of
/// the type.
#[derive(Clone, Copy, Debug, PartialEq, Eq, Structural)]
pub struct PdptFlags {
    bits: u64,
}

impl View for PdptFlags {
    type V = u64;

    closed spec fn view(&self) -> u64 {
        self.bits & TABLE_MASK
    }
}

impl PdptFlags {
    /// No bit outside the mask is ever set.
    #[verifier::type_invariant]
    spec fn within_mask(self) -> bool {
        self.bits & TABLE_MASK == self.bits
    }

    /// The bits of every set lie within the mask.
    pub proof fn lemma_view_within(&self)
        ensures
            self@ & TABLE_MASK == self@,
    {
        lemma_truncated(self.bits, TABLE_MASK);
    }

    /// The entry is present; a walk stops at an entry without it.
    #[allow(non_snake_case)]
    pub fn Present() -> (r: Self)
        ensures
            r@ == PRESENT,
    {
        proof {
            lemma_table_flags_in_mask();
        }
        PdptFlags { bits: PRESENT }
    }

    /// Writes are allowed through the entry.
    #[allow(non_snake_case)]
    pub fn Writable() -> (r: Self)
        ensures
            r@ == WRITABLE,
    {
        proof {
            lemma_table_flags_in_mask();
        }
        PdptFlags { bits: WRITABLE }
    }

    /// User-mode accesses are allowed through the entry.
    #[allow(non_snake_case)]
    pub fn User() -> (r: Self)
        ensures
            r@ == USER,
    {
        proof {
            lemma_table_flags_in_mask();
        }
        PdptFlags { bits: USER }
    }

    /// Write-through caching for what the entry refers to.
    #[allow(non_snake_case)]
    pub fn WriteThrough() -> (r: Self)
        ensures
            r@ == WRITE_THROUGH,
    {
        proof {
            lemma_table_flags_in_mask();
        }
        PdptFlags { bits: WRITE_THROUGH }
    }

    /// Caching is disabled for what the entry refers to.
    #[allow(non_snake_case)]
    pub fn CacheDisabled() -> (r: Self)
        ensures
            r@ == CACHE_DISABLED,
    {
        proof {
            lemma_table_flags_in_mask();
        }
        PdptFlags { bits: CACHE_DISABLED }
    }

    /// The entry has been used by a walk.
    #[allow(non_snake_case)]
    pub fn Accessed() -> (r: Self)
        ensures
            r@ == ACCESSED,
    {
        proof {
            lemma_table_flags_in_mask();
        }
        PdptFlags { bits: ACCESSED }
    }

    /// Marks a large page; translation does not support large pages.
    #[allow(non_snake_case)]
    pub fn Size() -> (r: Self)
        ensures
            r@ == SIZE,
    {
        proof {
            lemma_table_flags_in_mask();
        }
        PdptFlags { bits: SIZE }
    }

    /// Instruction fetches are not allowed through the entry.
    #[allow(non_snake_case)]
    pub fn NX() -> (r: Self)
        ensures
            r@ == NX,
    {
        proof {
            lemma_table_flags_in_mask();
        }
        PdptFlags { bits: NX }
    }

    /// The set without any flag.
    pub fn empty() -> (r: Self)
        ensures
            r@ == 0,
    {
        proof {
            lemma_table_flags_in_mask();
        }
        PdptFlags { bits: 0 }
    }

    /// The set of every flag of this type.
    pub fn all() -> (r: Self)
        ensures
            r@ == TABLE_MASK,
    {
        proof {
            lemma_table_flags_in_mask();
        }
        PdptFlags { bits: TABLE_MASK }
    }

    /// The bits of the set.
    pub fn bits(&self) -> (r: u64)
        ensures
            r == self@,
            r & TABLE_MASK == r,
    {
        proof {
            use_type_invariant(self);
        }
        self.bits
    }

    /// The flags of this type among `bits`; every other bit is dropped.
    pub fn from_bits_truncate(bits: u64) -> (r: Self)
        ensures
            r@ == bits & TABLE_MASK,
    {
        proof {
            lemma_truncated(bits, TABLE_MASK);
        }
        PdptFlags { bits: bits & TABLE_MASK }
    }

    /// Whether every flag of `other` is in the set.
    pub fn contains(&self, other: Self) -> (r: bool)
        ensures
            r == (self@ & other@ == other@),
    {
        proof {
            use_type_invariant(self);
            use_type_invariant(&other);
        }
        (self.bits & other.bits) == other.bits
    }

    /// Adds the flags of `other` to the set.
    pub fn insert(&mut self, other: Self)
        ensures
            final(self)@ == old(self)@ | other@,
    {
        proof {
            use_type_invariant(&*self);
            use_type_invariant(&other);
            lemma_within(self.bits, other.bits, TABLE_MASK);
        }
        self.bits = self.bits | other.bits;
    }

    /// Takes the flags of `other` out of the set.
    pub fn remove(&mut self, other: Self)
        ensures
            final(self)@ == old(self)@ & !other@,
    {
        proof {
            use_type_invariant(&*self);
            use_type_invariant(&other);
            lemma_within(self.bits, other.bits, TABLE_MASK);
        }
        self.bits = self.bits & !other.bits;
    }
}

impl BitOrSpecImpl for PdptFlags {
    open spec fn obeys_bitor_spec() -> bool {
        true
    }

    open spec fn bitor_req(self, rhs: PdptFlags) -> bool {
        true
    }

    closed spec fn bitor_spec(self, rhs: PdptFlags) -> PdptFlags {
        PdptFlags { bits: self.bits | rhs.bits }
    }
}

impl core::ops::BitOr for PdptFlags {
    type Output = PdptFlags;

    /// The union of two sets.
    fn bitor(self, rhs: PdptFlags) -> (r: PdptFlags)
        ensures
            r@ == self@ | rhs@,
    {
        proof {
            use_type_invariant(&self);
            use_type_invariant(&rhs);
            lemma_within(self.bits, rhs.bits, TABLE_MASK);
        }
        PdptFlags { bits: self.bits | rhs.bits }
    }
}

} // verus!
