//! What the loader says when it starts.

use vstd::prelude::*;
use vstd::string::StringSliceAdditionalSpecFns;
use crate::boot::uart::Uart;
use crate::bytes::be32;
use crate::device_tree::line_end;
use crate::device_tree::prefixed_hex;
use crate::device_tree::validate_dtb;
use crate::text::decimal;
use crate::uart::with_returns;

verus! {

/// The name of the kernel file in the root directory of the boot
/// partition, in eight and three characters: `KERNEL  ELF`.
pub const KERNEL_FILE_NAME: [u8; 11] = [75, 69, 82, 78, 69, 76, 32, 32, 69, 76, 70];

/// The banner: the name of the loader, the hart that it runs on, and the
/// address of the device tree.
pub open spec fn banner_text(hart_id: u64, device_tree_address: u64) -> Seq<u8> {
    with_returns("\n\nXTRA-OS Bootloader Starting...\n".spec_bytes()) + with_returns(
        "Running on hart ID: ".spec_bytes(),
    ) + decimal(hart_id as nat) + line_end() + with_returns(
        "Device Tree Blob (DTB) address: ".spec_bytes(),
    ) + prefixed_hex(device_tree_address as nat) + line_end()
}

/// What is said of the device tree: that it is valid, or that it is not
/// and that the system shuts down.
pub open spec fn verdict_text(valid: bool) -> Seq<u8> {
    if valid {
        with_returns("Device Tree Blob (DTB) is valid!\n".spec_bytes())
    } else {
        with_returns("Invalid Device Tree Blob (DTB) magic number!\n".spec_bytes()) + with_returns(
            "Shutting down system...\n".spec_bytes(),
        )
    }
}

/// Prints the banner.
pub fn write_startup_banner(uart: &mut Uart, hart_id: u64, device_tree_address: u64)
    ensures
        final(uart)@ == old(uart)@ + banner_text(hart_id, device_tree_address),
        final(uart).setup() == old(uart).setup(),
        final(uart).base() == old(uart).base(),
{
    uart.put_str("\n\nXTRA-OS Bootloader Starting...\n");
    uart.put_str("Running on hart ID: ");
    uart.put_int(hart_id);
    uart.put_char(13);
    uart.put_char(10);
    uart.put_str("Device Tree Blob (DTB) address: ");
    uart.put_hex(device_tree_address, true);
    uart.put_char(13);
    uart.put_char(10);
    assert(uart@ =~= old(uart)@ + banner_text(hart_id, device_tree_address));
}

/// Checks that the blob starts with the magic number of a device tree,
/// and says what it found. After a blob that is no device tree the system
/// is to be shut down.
pub fn validate_device_tree(uart: &mut Uart, blob: &[u8]) -> (valid: bool)
    ensures
        valid == (blob@.len() >= 4 && be32(blob@, 0) == 0xd00dfeed),
        final(uart)@ == old(uart)@ + verdict_text(valid),
        final(uart).setup() == old(uart).setup(),
        final(uart).base() == old(uart).base(),
{
    if !validate_dtb(blob) {
        uart.put_str("Invalid Device Tree Blob (DTB) magic number!\n");
        uart.put_str("Shutting down system...\n");
        assert(uart@ =~= old(uart)@ + verdict_text(false));
        return false;
    }
    uart.put_str("Device Tree Blob (DTB) is valid!\n");
    true
}

} // verus!
