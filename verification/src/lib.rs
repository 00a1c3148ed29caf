//! A four-level x86-64 page table: a radix tree from virtual to physical addresses with
//! per-entry permissions, a permission-checking translation walk, and a serializer that lays
//! the tree out as the hardware reads it.

pub mod addr;
pub mod commit;
pub mod flags;
pub mod laws;
pub mod layout;
pub mod model;
pub mod pd;
pub mod pdpt;
pub mod prot;
pub mod pt;
pub mod pte;
pub mod slots;
pub mod table;
pub mod walk;

pub use addr::{page_offset, pd_index, pdpt_index, pml4_index, pt_index};
pub use commit::commit_next;
pub use flags::{Flags, PdFlags, PdptFlags, PtFlags, PteFlags};
pub use prot::Prot;
pub use pte::Pte;
pub use pt::{IterPt, Pt};
pub use pd::{IterPd, Pd};
pub use pdpt::{IterPdpt, Pdpt};
pub use table::{IterPageTable, PageTable};
