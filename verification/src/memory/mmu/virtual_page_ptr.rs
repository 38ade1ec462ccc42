//! A typed handle to what lies in a page frame. Like a page address it is
//! kept in its virtual form and stays right across the switch to virtual
//! mode; the type says what the frame holds.

use vstd::prelude::*;
use core::marker::PhantomData;
use crate::arch::mmu::HIGHEST_VIRTUAL_ADDRESS;
use crate::memory::PAGE_SIZE;
use crate::memory::mmu::virtual_page_address::AddressError;
use crate::memory::mmu::virtual_page_address::KernelAddressing;
use crate::memory::mmu::virtual_page_address::from_physical_spec;
use crate::memory::mmu::virtual_page_address::from_virtual_spec;
use crate::memory::mmu::virtual_page_address::is_kernel_in_virtual_mode;

verus! {

/// The virtual address at which the physical address appears in the linear
/// window of RAM.
pub fn virtualize_address(addressing: &KernelAddressing, address: u64) -> (virtual_address: u64)
    requires
        addressing.virtual_base_offset + address <= u64::MAX,
    ensures
        virtual_address == addressing.virtual_base_offset + address,
{
    addressing.virtual_base_offset() + address
}

/// A handle to a value of type `T` that lies at the start of a page frame.
pub struct VirtualPagePtr<T> {
    address: u64,
    pointee: PhantomData<T>,
}

impl<T> View for VirtualPagePtr<T> {
    type V = u64;

    /// The virtual address of the frame.
    closed spec fn view(&self) -> u64 {
        self.address
    }
}

/// Whether a constructor answered as expected: with the handle of the
/// expected virtual address, or with the expected error.
pub open spec fn ptr_matches_spec<T>(
    result: Result<VirtualPagePtr<T>, AddressError>,
    expected: Result<u64, AddressError>,
) -> bool {
    match (result, expected) {
        (Ok(page), Ok(address)) => page@ == address,
        (Err(e), Err(expected_error)) => e == expected_error,
        _ => false,
    }
}

impl<T> VirtualPagePtr<T> {
    /// What holds of every handle made under `addressing`: it is
    /// page-aligned and lies in the linear window of RAM.
    pub open spec fn wf(&self, addressing: KernelAddressing) -> bool {
        &&& self@ % 4096 == 0
        &&& addressing.virtual_base_offset <= self@
        &&& self@ < addressing.virtual_base_offset + addressing.highest_physical_address
    }

    /// The handle for the frame at `address`, which is in the form of the
    /// current mode.
    pub fn new(addressing: &KernelAddressing, address: u64) -> (result: Result<Self, AddressError>)
        requires
            addressing.wf(),
        ensures
            ptr_matches_spec(
                result,
                if addressing.virtual_mode {
                    from_virtual_spec(*addressing, address)
                } else {
                    from_physical_spec(*addressing, address)
                },
            ),
            result matches Ok(page) ==> page.wf(*addressing),
    {
        Self::new_from_address(addressing, address)
    }

    /// The handle for the frame at `address`: a virtual address in virtual
    /// mode, a physical address before.
    pub fn new_from_address(addressing: &KernelAddressing, address: u64) -> (result: Result<
        Self,
        AddressError,
    >)
        requires
            addressing.wf(),
        ensures
            ptr_matches_spec(
                result,
                if addressing.virtual_mode {
                    from_virtual_spec(*addressing, address)
                } else {
                    from_physical_spec(*addressing, address)
                },
            ),
            result matches Ok(page) ==> page.wf(*addressing),
    {
        if is_kernel_in_virtual_mode(addressing) {
            Self::from_virtual(addressing, address)
        } else {
            Self::from_physical(addressing, address)
        }
    }

    /// The handle for the frame at a virtual address. The address must be
    /// page-aligned, not zero and inside the linear window of RAM.
    pub fn from_virtual(addressing: &KernelAddressing, address: u64) -> (result: Result<
        Self,
        AddressError,
    >)
        requires
            addressing.wf(),
        ensures
            ptr_matches_spec(result, from_virtual_spec(*addressing, address)),
            result matches Ok(page) ==> page.wf(*addressing),
    {
        if address % PAGE_SIZE != 0 {
            return Err(AddressError::BadPageAlignment { address, alignment: PAGE_SIZE });
        }
        let virtual_base = addressing.virtual_base_offset();
        if address == 0 {
            Err(AddressError::Null)
        } else if !Self::is_in_virtual_address_space(addressing, address) {
            Err(
                AddressError::BadVirtualAddress {
                    address,
                    min: virtual_base,
                    max: HIGHEST_VIRTUAL_ADDRESS,
                },
            )
        } else {
            Ok(VirtualPagePtr { address, pointee: PhantomData })
        }
    }

    /// The handle for the frame at a physical address. The address must be
    /// page-aligned, not zero and below the end of RAM. The virtual form of
    /// the handle is the address moved up by the base of the window.
    pub fn from_physical(addressing: &KernelAddressing, address: u64) -> (result: Result<
        Self,
        AddressError,
    >)
        requires
            addressing.wf(),
        ensures
            ptr_matches_spec(result, from_physical_spec(*addressing, address)),
            result matches Ok(page) ==> page.wf(*addressing) && page@
                == addressing.virtual_base_offset + address,
    {
        if address % PAGE_SIZE != 0 {
            return Err(AddressError::BadPageAlignment { address, alignment: PAGE_SIZE });
        }
        let highest_address = addressing.highest_physical_address();
        if address == 0 {
            Err(AddressError::Null)
        } else if !Self::is_in_physical_address_space(addressing, address) {
            Err(AddressError::BadPhysicalAddress { address, max: highest_address })
        } else {
            let virtual_address = virtualize_address(addressing, address);
            Ok(VirtualPagePtr { address: virtual_address, pointee: PhantomData })
        }
    }

    /// Whether the address lies in the linear window of RAM.
    pub fn is_in_virtual_address_space(addressing: &KernelAddressing, address: u64) -> (inside:
        bool)
        requires
            addressing.wf(),
        ensures
            inside == (addressing.virtual_base_offset <= address && address
                < addressing.virtual_base_offset + addressing.highest_physical_address),
    {
        address >= addressing.virtual_base_offset() && address < addressing.virtual_base_offset()
            + addressing.highest_physical_address()
    }

    /// Whether the address is a physical address of RAM: above zero and
    /// below the end of RAM.
    pub fn is_in_physical_address_space(addressing: &KernelAddressing, address: u64) -> (inside:
        bool)
        ensures
            inside == (0 < address && address < addressing.highest_physical_address),
    {
        address < addressing.highest_physical_address() && address > 0
    }

    /// The physical address of the frame.
    pub fn as_physical_address(&self, addressing: &KernelAddressing) -> (address: u64)
        requires
            addressing.wf(),
            self.wf(*addressing),
        ensures
            address == self@ - addressing.virtual_base_offset,
            address % 4096 == 0,
            address < addressing.highest_physical_address,
    {
        self.address - addressing.virtual_base_offset()
    }

    /// The address in the form that the current mode needs: virtual in
    /// virtual mode, physical before.
    pub fn as_usize(&self, addressing: &KernelAddressing) -> (address: u64)
        requires
            addressing.wf(),
            self.wf(*addressing),
        ensures
            address == if addressing.virtual_mode {
                self@ as int
            } else {
                self@ - addressing.virtual_base_offset
            },
    {
        let raw = self.address;
        if is_kernel_in_virtual_mode(addressing) {
            raw
        } else {
            raw - addressing.virtual_base_offset()
        }
    }
}

impl<T> Clone for VirtualPagePtr<T> {
    fn clone(&self) -> (copy: Self)
        ensures
            copy@ == self@,
    {
        VirtualPagePtr { address: self.address, pointee: PhantomData }
    }
}

impl<T> Copy for VirtualPagePtr<T> {

}

} // verus!
