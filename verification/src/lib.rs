//! Verified core of a small RISC-V operating system: the SV39 virtual-memory
//! engine of the kernel and the block-device path of its boot loader.
//!
//! Hardware is never touched from here. Every routine works on plain values;
//! the code that owns the machine reads registers and memory, hands the values
//! in, and carries out what the routines decide.

pub mod arch;
pub mod boot;
pub mod bytes;
pub mod device_tree;
pub mod memory;
pub mod printing;
pub mod text;
pub mod uart;

