//! Architecture-specific parts of the kernel.

pub mod mmu;
