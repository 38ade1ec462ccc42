//! Addresses of page frames that stay right when the kernel turns the MMU on.
//!
//! The kernel starts in physical mode, where an address is what the hardware
//! decodes. Once it runs on its own page tables it is in virtual mode, and
//! all of RAM is reached through a linear window at the top of the address
//! space: physical `p` lies at virtual `base + p`. A page address is kept in
//! its virtual form and handed out in the form that the current mode needs.

use vstd::prelude::*;
use vstd::string::StringSliceAdditionalSpecFns;
use crate::arch::mmu::HIGHEST_VIRTUAL_ADDRESS;
use crate::memory::PAGE_SIZE;
use crate::memory::memory_device::SystemMemory;
use crate::memory::mmu::permissions::push_all;
use crate::text::decimal;
use crate::text::push_decimal;

verus! {

/// Why a number is not the address of a page frame.
#[derive(Clone, Copy, PartialEq, Eq, Structural, Debug)]
pub enum AddressError {
    /// The address is zero.
    Null,
    /// The virtual address lies outside the linear window of RAM.
    BadVirtualAddress { address: u64, min: u64, max: u64 },
    /// The physical address lies at or above the end of RAM.
    BadPhysicalAddress { address: u64, max: u64 },
    /// The address is not a multiple of the page size.
    BadPageAlignment { address: u64, alignment: u64 },
}

/// What an address error says, in ASCII, with its numbers in decimal.
pub open spec fn error_text(error: AddressError) -> Seq<u8> {
    match error {
        AddressError::Null => "Address is a null pointer".spec_bytes(),
        AddressError::BadVirtualAddress { address, min, max } => "Virtual address ".spec_bytes()
            + decimal(address as nat) + " is outside of the valid range [".spec_bytes() + decimal(
            min as nat,
        ) + ", ".spec_bytes() + decimal(max as nat) + "]".spec_bytes(),
        AddressError::BadPhysicalAddress { address, max } => "Physical address ".spec_bytes()
            + decimal(address as nat) + " is outside of the valid range [0, ".spec_bytes()
            + decimal(max as nat) + "]".spec_bytes(),
        AddressError::BadPageAlignment { address, alignment } => "Address ".spec_bytes() + decimal(
            address as nat,
        ) + " is not properly aligned to a page boundary of ".spec_bytes() + decimal(
            alignment as nat,
        ),
    }
}

impl AddressError {
    /// The error as text.
    pub fn describe(&self) -> (text: Vec<u8>)
        ensures
            text@ == error_text(*self),
    {
        let mut text: Vec<u8> = Vec::new();
        match *self {
            AddressError::Null => {
                push_all(&mut text, "Address is a null pointer".as_bytes());
                assert(text@ =~= error_text(*self));
            },
            AddressError::BadVirtualAddress { address, min, max } => {
                push_all(&mut text, "Virtual address ".as_bytes());
                push_decimal(&mut text, address);
                push_all(&mut text, " is outside of the valid range [".as_bytes());
                push_decimal(&mut text, min);
                push_all(&mut text, ", ".as_bytes());
                push_decimal(&mut text, max);
                push_all(&mut text, "]".as_bytes());
                assert(text@ =~= error_text(*self));
            },
            AddressError::BadPhysicalAddress { address, max } => {
                push_all(&mut text, "Physical address ".as_bytes());
                push_decimal(&mut text, address);
                push_all(&mut text, " is outside of the valid range [0, ".as_bytes());
                push_decimal(&mut text, max);
                push_all(&mut text, "]".as_bytes());
                assert(text@ =~= error_text(*self));
            },
            AddressError::BadPageAlignment { address, alignment } => {
                push_all(&mut text, "Address ".as_bytes());
                push_decimal(&mut text, address);
                push_all(&mut text, " is not properly aligned to a page boundary of ".as_bytes());
                push_decimal(&mut text, alignment);
                assert(text@ =~= error_text(*self));
            },
        }
        text
    }
}

/// The addressing state of the kernel: the mode it runs in, and where the
/// linear window of RAM lies.
#[derive(Clone, Copy, PartialEq, Eq, Structural, Debug)]
pub struct KernelAddressing {
    /// Whether the kernel runs on its own page tables.
    pub virtual_mode: bool,
    /// The virtual address at which physical address 0 appears.
    pub virtual_base_offset: u64,
    /// The end of the highest RAM device, rounded up to a page.
    pub highest_physical_address: u64,
}

/// `address` rounded up to a multiple of `alignment`.
pub open spec fn align_up_spec(address: int, alignment: int) -> int {
    ((address + alignment - 1) / alignment) * alignment
}

/// `address` rounded down to a multiple of `alignment`.
pub open spec fn align_down_spec(address: int, alignment: int) -> int {
    (address / alignment) * alignment
}

/// Rounding to a page with a mask is rounding to a multiple of 4096.
proof fn lemma_page_mask(address: u64)
    by (bit_vector)
    ensures
        address & !4095u64 == (address / 4096) * 4096,
        (address & !4095u64) % 4096 == 0,
        address & !4095u64 <= address,
        address - (address & !4095u64) < 4096,
{
}

/// `address` rounded up to the next page boundary.
pub fn align_up(address: u64) -> (aligned: u64)
    requires
        address + 4095 <= u64::MAX,
    ensures
        aligned == align_up_spec(address as int, 4096),
        aligned % 4096 == 0,
        address <= aligned < address + 4096,
{
    proof {
        lemma_page_mask((address + 4095) as u64);
    }
    (address + (PAGE_SIZE - 1)) & !(PAGE_SIZE - 1)
}

/// `address` rounded down to a page boundary.
pub fn align_down(address: u64) -> (aligned: u64)
    ensures
        aligned == align_down_spec(address as int, 4096),
        aligned % 4096 == 0,
        aligned <= address < aligned + 4096,
{
    proof {
        lemma_page_mask(address);
    }
    address & !(PAGE_SIZE - 1)
}

impl KernelAddressing {
    /// The state at power-on: physical mode, no window yet.
    pub fn new() -> (addressing: Self)
        ensures
            addressing == (KernelAddressing {
                virtual_mode: false,
                virtual_base_offset: 0,
                highest_physical_address: 0,
            }),
            addressing.wf(),
    {
        KernelAddressing { virtual_mode: false, virtual_base_offset: 0, highest_physical_address: 0 }
    }

    /// What holds of every addressing state: the window is page-aligned and
    /// ends at or below the highest virtual address.
    pub open spec fn wf(&self) -> bool {
        &&& self.virtual_base_offset % 4096 == 0
        &&& self.highest_physical_address % 4096 == 0
        &&& self.virtual_base_offset + self.highest_physical_address <= HIGHEST_VIRTUAL_ADDRESS
    }

    /// The virtual address at which physical address 0 appears.
    pub fn virtual_base_offset(&self) -> (offset: u64)
        ensures
            offset == self.virtual_base_offset,
    {
        self.virtual_base_offset
    }

    /// The end of RAM.
    pub fn highest_physical_address(&self) -> (address: u64)
        ensures
            address == self.highest_physical_address,
    {
        self.highest_physical_address
    }
}

/// Whether the kernel runs on its own page tables.
pub fn is_kernel_in_virtual_mode(addressing: &KernelAddressing) -> (virtual_mode: bool)
    ensures
        virtual_mode == addressing.virtual_mode,
{
    addressing.virtual_mode
}

/// Records that the kernel has switched to its own page tables. There is no
/// way back.
pub fn set_kernel_in_virtual_mode(addressing: &mut KernelAddressing)
    ensures
        *final(addressing) == (KernelAddressing { virtual_mode: true, ..*old(addressing) }),
{
    addressing.virtual_mode = true;
}

/// Every RAM device ends at or below the end of RAM.
pub proof fn lemma_ram_end_bounds(memory_layout: SystemMemory, index: int)
    requires
        0 <= index < 4,
        memory_layout.memory_devices[index].is_some(),
    ensures
        memory_layout.memory_devices[index].unwrap().base_address
            + memory_layout.memory_devices[index].unwrap().range <= memory_layout.ram_end(),
        memory_layout.ram_end() >= 0,
{
    reveal_with_fuel(SystemMemory::ram_end_upto, 5);
}

/// Whether the linear window of RAM can be placed: all of RAM, rounded up
/// to a page, ends at or below the highest virtual address.
pub fn check_ram(memory_layout: &SystemMemory) -> (fits: bool)
    ensures
        fits == (memory_layout.ram_end() + 4095 <= HIGHEST_VIRTUAL_ADDRESS),
{
    let mut index: usize = 0;
    proof {
        reveal_with_fuel(SystemMemory::ram_end_upto, 5);
    }
    while index < 4
        invariant
            index <= 4,
            memory_layout.ram_end_upto(index as int) + 4095 <= HIGHEST_VIRTUAL_ADDRESS,
        decreases 4 - index,
    {
        proof {
            reveal_with_fuel(SystemMemory::ram_end_upto, 5);
        }
        if let Some(device) = memory_layout.memory_devices[index] {
            if device.base_address > HIGHEST_VIRTUAL_ADDRESS - 4095 || device.range
                > HIGHEST_VIRTUAL_ADDRESS - 4095 - device.base_address {
                proof {
                    lemma_ram_end_bounds(*memory_layout, index as int);
                }
                return false;
            }
        }
        index += 1;
    }
    true
}

/// Places the linear window of RAM: finds the end of the highest RAM device,
/// rounds it up to a page, and puts the window as high as it fits below the
/// highest virtual address.
pub fn init_virtual_base_offset(addressing: &mut KernelAddressing, memory_layout: &SystemMemory)
    requires
        old(addressing).virtual_base_offset == 0,
        memory_layout.ram_end() + 4095 <= HIGHEST_VIRTUAL_ADDRESS,
    ensures
        final(addressing).virtual_mode == old(addressing).virtual_mode,
        final(addressing).highest_physical_address == align_up_spec(memory_layout.ram_end(), 4096),
        final(addressing).virtual_base_offset == align_down_spec(
            HIGHEST_VIRTUAL_ADDRESS - final(addressing).highest_physical_address,
            4096,
        ),
        final(addressing).wf(),
{
    let mut highest_address: u64 = 0;
    let mut index: usize = 0;
    proof {
        reveal_with_fuel(SystemMemory::ram_end_upto, 5);
    }
    while index < 4
        invariant
            index <= 4,
            highest_address == memory_layout.ram_end_upto(index as int),
            memory_layout.ram_end_upto(index as int) <= memory_layout.ram_end(),
            memory_layout.ram_end() + 4095 <= HIGHEST_VIRTUAL_ADDRESS,
        decreases 4 - index,
    {
        proof {
            reveal_with_fuel(SystemMemory::ram_end_upto, 5);
        }
        if let Some(device) = memory_layout.memory_devices[index] {
            proof {
                lemma_ram_end_bounds(*memory_layout, index as int);
            }
            let end = device.base_address + device.range;
            if end > highest_address {
                highest_address = end;
            }
        }
        index += 1;
    }
    let highest_address = align_up(highest_address);
    let virtual_base_offset = align_down(HIGHEST_VIRTUAL_ADDRESS - highest_address);
    addressing.highest_physical_address = highest_address;
    addressing.virtual_base_offset = virtual_base_offset;
}

/// The address of a page frame, kept in its virtual form.
#[derive(Clone, Copy, PartialEq, Eq, Structural, Debug)]
pub struct VirtualPageAddress(u64);

impl View for VirtualPageAddress {
    type V = u64;

    /// The virtual form of the address.
    closed spec fn view(&self) -> u64 {
        self.0
    }
}

/// What `from_physical` answers.
pub open spec fn from_physical_spec(addressing: KernelAddressing, address: u64) -> Result<
    u64,
    AddressError,
> {
    if address % 4096 != 0 {
        Err(AddressError::BadPageAlignment { address: address, alignment: 4096 })
    } else if address == 0 {
        Err(AddressError::Null)
    } else if address >= addressing.highest_physical_address {
        Err(
            AddressError::BadPhysicalAddress {
                address: address,
                max: addressing.highest_physical_address,
            },
        )
    } else {
        Ok((address + addressing.virtual_base_offset) as u64)
    }
}

/// What `from_virtual` answers.
pub open spec fn from_virtual_spec(addressing: KernelAddressing, address: u64) -> Result<
    u64,
    AddressError,
> {
    if address % 4096 != 0 {
        Err(AddressError::BadPageAlignment { address: address, alignment: 4096 })
    } else if address == 0 {
        Err(AddressError::Null)
    } else if address < addressing.virtual_base_offset || address
        >= addressing.virtual_base_offset + addressing.highest_physical_address {
        Err(
            AddressError::BadVirtualAddress {
                address: address,
                min: addressing.virtual_base_offset,
                max: HIGHEST_VIRTUAL_ADDRESS,
            },
        )
    } else {
        Ok(address)
    }
}

/// Whether a constructor answered as expected: with the page address of
/// the expected virtual form, or with the expected error.
pub open spec fn matches_spec(result: Result<VirtualPageAddress, AddressError>, expected: Result<
    u64,
    AddressError,
>) -> bool {
    match (result, expected) {
        (Ok(page), Ok(address)) => page@ == address,
        (Err(e), Err(expected_error)) => e == expected_error,
        _ => false,
    }
}

impl VirtualPageAddress {
    /// What holds of every page address made under `addressing`: it is
    /// page-aligned and lies in the linear window of RAM.
    pub open spec fn wf(&self, addressing: KernelAddressing) -> bool {
        &&& self@ % 4096 == 0
        &&& addressing.virtual_base_offset <= self@
        &&& self@ < addressing.virtual_base_offset + addressing.highest_physical_address
    }

    /// The page address for a raw address in the form of the current mode:
    /// virtual in virtual mode, physical before.
    pub fn from_ptr(addressing: &KernelAddressing, address: u64) -> (result: Result<
        Self,
        AddressError,
    >)
        requires
            addressing.wf(),
        ensures
            matches_spec(
                result,
                if addressing.virtual_mode {
                    from_virtual_spec(*addressing, address)
                } else {
                    from_physical_spec(*addressing, address)
                },
            ),
            result matches Ok(page) ==> page.wf(*addressing),
    {
        if address % PAGE_SIZE != 0 {
            return Err(AddressError::BadPageAlignment { address, alignment: PAGE_SIZE });
        }
        if address == 0 {
            return Err(AddressError::Null);
        }
        if is_kernel_in_virtual_mode(addressing) {
            Self::from_virtual(addressing, address)
        } else {
            Self::from_physical(addressing, address)
        }
    }

    /// The page address of the frame at a physical address. The address must
    /// be page-aligned, not zero and below the end of RAM.
    pub fn from_physical(addressing: &KernelAddressing, physical_address: u64) -> (result: Result<
        Self,
        AddressError,
    >)
        requires
            addressing.wf(),
        ensures
            matches_spec(result, from_physical_spec(*addressing, physical_address)),
            result matches Ok(page) ==> page.wf(*addressing),
    {
        let highest = addressing.highest_physical_address();
        if physical_address % PAGE_SIZE != 0 {
            return Err(
                AddressError::BadPageAlignment { address: physical_address, alignment: PAGE_SIZE },
            );
        }
        if physical_address == 0 {
            Err(AddressError::Null)
        } else if physical_address >= highest {
            Err(AddressError::BadPhysicalAddress { address: physical_address, max: highest })
        } else {
            Ok(VirtualPageAddress(physical_address + addressing.virtual_base_offset()))
        }
    }

    /// The page address for a virtual address. The address must be
    /// page-aligned, not zero and inside the linear window of RAM.
    pub fn from_virtual(addressing: &KernelAddressing, virtual_address: u64) -> (result: Result<
        Self,
        AddressError,
    >)
        requires
            addressing.wf(),
        ensures
            matches_spec(result, from_virtual_spec(*addressing, virtual_address)),
            result matches Ok(page) ==> page.wf(*addressing),
    {
        let virtual_base = addressing.virtual_base_offset();
        if virtual_address % PAGE_SIZE != 0 {
            return Err(
                AddressError::BadPageAlignment { address: virtual_address, alignment: PAGE_SIZE },
            );
        }
        if virtual_address == 0 {
            Err(AddressError::Null)
        } else if virtual_address < virtual_base || virtual_address >= virtual_base
            + addressing.highest_physical_address() {
            Err(
                AddressError::BadVirtualAddress {
                    address: virtual_address,
                    min: virtual_base,
                    max: HIGHEST_VIRTUAL_ADDRESS,
                },
            )
        } else {
            Ok(VirtualPageAddress(virtual_address))
        }
    }

    /// The physical address of the frame.
    pub fn to_physical(&self, addressing: &KernelAddressing) -> (address: u64)
        requires
            addressing.wf(),
            self.wf(*addressing),
        ensures
            address == self@ - addressing.virtual_base_offset,
            address % 4096 == 0,
            address < addressing.highest_physical_address,
    {
        self.0 - addressing.virtual_base_offset()
    }

    /// The virtual address of the frame.
    pub fn to_virtual(&self) -> (address: u64)
        ensures
            address == self@,
    {
        self.0
    }

    /// The address in the form that the current mode needs: virtual in
    /// virtual mode, physical before.
    pub fn to_usize(&self, addressing: &KernelAddressing) -> (address: u64)
        requires
            addressing.wf(),
            self.wf(*addressing),
        ensures
            address == if addressing.virtual_mode {
                self@ as int
            } else {
                self@ - addressing.virtual_base_offset
            },
    {
        if is_kernel_in_virtual_mode(addressing) {
            self.to_virtual()
        } else {
            self.to_physical(addressing)
        }
    }
}

/// A page address made from a physical address gives that address back, in
/// either mode, and its virtual form is the physical address moved up by the
/// base of the window.
pub proof fn lemma_physical_round_trip(addressing: KernelAddressing, physical_address: u64)
    requires
        addressing.wf(),
        from_physical_spec(addressing, physical_address) is Ok,
    ensures
        from_physical_spec(addressing, physical_address).unwrap() == addressing.virtual_base_offset
            + physical_address,
        from_physical_spec(addressing, physical_address).unwrap() - addressing.virtual_base_offset
            == physical_address,
        physical_address != 0 && physical_address % 4096 == 0 && physical_address
            < addressing.highest_physical_address,
{
}

} // verus!
