//! The boot loader: the block device that it boots from, the formats that
//! it reads on the way to the kernel image, and its console.

pub mod block_device;
pub mod elf;
pub mod fat32;
pub mod partition_table;
pub mod startup;
pub mod uart;
pub mod virtio;
