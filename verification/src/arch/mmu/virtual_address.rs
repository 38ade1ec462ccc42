//! The SV39 virtual address: a 12-bit page offset below three 9-bit virtual
//! page numbers, one for each level of the page table.

use vstd::prelude::*;

verus! {

/// Bits 39..63, which a virtual address leaves clear.
pub const PTA_RESERVED: u64 = 0xFFFF_FF80_0000_0000;

/// Bits 30..38, the index into the root table.
pub const PTA_VPN_2: u64 = 0x0000_007F_C000_0000;

/// Bits 21..29, the index into the second-level table.
pub const PTA_VPN_1: u64 = 0x0000_0000_3FE0_0000;

/// Bits 12..20, the index into the third-level table.
pub const PTA_VPN_0: u64 = 0x0000_0000_001F_F000;

/// Bits 0..11, the offset within the page.
pub const PTA_OFFSET: u64 = 0x0000_0000_0000_0FFF;

/// The virtual page number of `address` for table level `index`, where 2 is
/// the root and 0 the level of the leaves.
pub open spec fn vpn_of(address: u64, index: int) -> int {
    if index == 0 {
        (address as int / 0x1000) % 512
    } else if index == 1 {
        (address as int / 0x20_0000) % 512
    } else {
        (address as int / 0x4000_0000) % 512
    }
}

/// The offset of `address` within its page.
pub open spec fn offset_of(address: u64) -> int {
    address as int % 4096
}

/// The part of `address` above the 39 bits that SV39 translates.
pub open spec fn upper_of(address: u64) -> int {
    address as int / 0x80_0000_0000
}

/// The number of the virtual page that `address` lies in: the three page
/// numbers of the address taken as one 27-bit number.
pub open spec fn page_number(address: u64) -> int {
    (address as int % 0x80_0000_0000) / 4096
}

/// The three page numbers of an address are the digits of its page number
/// to the base 512.
pub proof fn lemma_page_number(address: u64)
    ensures
        0 <= page_number(address) < 0x800_0000,
        vpn_of(address, 0) == page_number(address) % 512,
        vpn_of(address, 1) == (page_number(address) / 512) % 512,
        vpn_of(address, 2) == page_number(address) / 0x4_0000,
        page_number(address) == vpn_of(address, 2) * 0x4_0000 + vpn_of(address, 1) * 512 + vpn_of(
            address,
            0,
        ),
{
    lemma_page_digits(address);
}

/// The digits of a page number, in machine arithmetic.
proof fn lemma_page_digits(bits: u64)
    by (bit_vector)
    ensures
        (bits % 0x80_0000_0000) / 4096 < 0x800_0000,
        (bits / 0x1000) % 512 == ((bits % 0x80_0000_0000) / 4096) % 512,
        (bits / 0x20_0000) % 512 == (((bits % 0x80_0000_0000) / 4096) / 512) % 512,
        (bits / 0x4000_0000) % 512 == ((bits % 0x80_0000_0000) / 4096) / 0x4_0000,
        (bits % 0x80_0000_0000) / 4096 == ((bits / 0x4000_0000) % 512) * 0x4_0000 + ((bits
            / 0x20_0000) % 512) * 512 + (bits / 0x1000) % 512,
{
}

/// A virtual address is made of its parts and of nothing else.
pub proof fn lemma_address_parts(address: u64)
    ensures
        address == upper_of(address) * 0x80_0000_0000 + vpn_of(address, 2) * 0x4000_0000 + vpn_of(
            address,
            1,
        ) * 0x20_0000 + vpn_of(address, 0) * 0x1000 + offset_of(address),
        0 <= vpn_of(address, 0) < 512,
        0 <= vpn_of(address, 1) < 512,
        0 <= vpn_of(address, 2) < 512,
        0 <= offset_of(address) < 4096,
{
    lemma_fields(address);
}

/// Masks and shifts read the parts of an address.
proof fn lemma_fields(bits: u64)
    by (bit_vector)
    ensures
        ((bits & 0x0000_0000_001F_F000) >> 12) == (bits / 0x1000) % 512,
        ((bits & 0x0000_0000_3FE0_0000) >> 21) == (bits / 0x20_0000) % 512,
        ((bits & 0x0000_007F_C000_0000) >> 30) == (bits / 0x4000_0000) % 512,
        (bits & 0x0000_0000_0000_0FFF) == bits % 4096,
        (bits & 0xFFFF_FF80_0000_0000) == 0 <==> bits / 0x80_0000_0000 == 0,
        bits == (bits / 0x80_0000_0000) * 0x80_0000_0000 + ((bits / 0x4000_0000) % 512)
            * 0x4000_0000 + ((bits / 0x20_0000) % 512) * 0x20_0000 + ((bits / 0x1000) % 512)
            * 0x1000 + bits % 4096,
{
}

/// Dropping the bits above the 39th keeps every field below them.
proof fn lemma_truncate(bits: u64)
    by (bit_vector)
    ensures
        ({
            let r = bits & 0x0000_007F_FFFF_FFFFu64;
            &&& r == bits % 0x80_0000_0000
            &&& r / 0x80_0000_0000 == 0
            &&& (r / 0x1000) % 512 == (bits / 0x1000) % 512
            &&& (r / 0x20_0000) % 512 == (bits / 0x20_0000) % 512
            &&& (r / 0x4000_0000) % 512 == (bits / 0x4000_0000) % 512
            &&& r % 4096 == bits % 4096
        }),
{
}

/// The page numbers and the offset of an address are those of its low 39
/// bits.
pub proof fn lemma_low_bits(address: u64)
    ensures
        vpn_of((address % 0x80_0000_0000) as u64, 0) == vpn_of(address, 0),
        vpn_of((address % 0x80_0000_0000) as u64, 1) == vpn_of(address, 1),
        vpn_of((address % 0x80_0000_0000) as u64, 2) == vpn_of(address, 2),
        offset_of((address % 0x80_0000_0000) as u64) == offset_of(address),
        upper_of((address % 0x80_0000_0000) as u64) == 0,
{
    lemma_truncate(address);
    let low = address & 0x0000_007F_FFFF_FFFFu64;
    assert(low == (address % 0x80_0000_0000) as u64);
}

/// Replacing one field of an address leaves the others as they were.
proof fn lemma_field_update(bits: u64, value: u64, index: u64)
    by (bit_vector)
    requires
        index <= 3,
        index == 3 ==> value < 4096,
        index < 3 ==> value < 512,
    ensures
        ({
            let r = if index == 0 {
                (bits & !0x0000_0000_001F_F000u64) | ((value << 12) & 0x0000_0000_001F_F000u64)
            } else if index == 1 {
                (bits & !0x0000_0000_3FE0_0000u64) | ((value << 21) & 0x0000_0000_3FE0_0000u64)
            } else if index == 2 {
                (bits & !0x0000_007F_C000_0000u64) | ((value << 30) & 0x0000_007F_C000_0000u64)
            } else {
                (bits & !0x0000_0000_0000_0FFFu64) | (value & 0x0000_0000_0000_0FFFu64)
            };
            &&& (r / 0x1000) % 512 == if index == 0 {
                value
            } else {
                (bits / 0x1000) % 512
            }
            &&& (r / 0x20_0000) % 512 == if index == 1 {
                value
            } else {
                (bits / 0x20_0000) % 512
            }
            &&& (r / 0x4000_0000) % 512 == if index == 2 {
                value
            } else {
                (bits / 0x4000_0000) % 512
            }
            &&& r % 4096 == if index == 3 {
                value
            } else {
                bits % 4096
            }
            &&& r / 0x80_0000_0000 == bits / 0x80_0000_0000
        }),
{
}

/// A virtual address with its reserved bits clear.
#[derive(Clone, Copy, PartialEq, Eq, Structural, Debug)]
pub struct VirtualAddress(u64);

impl View for VirtualAddress {
    type V = u64;

    closed spec fn view(&self) -> u64 {
        self.0
    }
}

impl VirtualAddress {
    /// What holds of every virtual address: nothing above bit 38 is set.
    pub open spec fn wf(&self) -> bool {
        upper_of(self@) == 0
    }

    /// The virtual address with the given value.
    pub fn new(address: u64) -> (va: Self)
        requires
            upper_of(address) == 0,
        ensures
            va@ == address,
            va.wf(),
    {
        VirtualAddress(address)
    }

    /// The virtual address that the translation hardware sees in `address`:
    /// its low 39 bits.
    pub fn truncate(address: u64) -> (va: Self)
        ensures
            va@ == address % 0x80_0000_0000,
            va.wf(),
            vpn_of(va@, 0) == vpn_of(address, 0),
            vpn_of(va@, 1) == vpn_of(address, 1),
            vpn_of(va@, 2) == vpn_of(address, 2),
            offset_of(va@) == offset_of(address),
    {
        proof {
            lemma_truncate(address);
        }
        VirtualAddress(address & 0x0000_007F_FFFF_FFFF)
    }

    /// The virtual page number for table level `index`: 2 selects the entry
    /// of the root table, 0 that of the table of leaves.
    pub fn get_vpn(&self, index: usize) -> (vpn: usize)
        requires
            index <= 2,
        ensures
            vpn == vpn_of(self@, index as int),
            vpn < 512,
    {
        proof {
            lemma_fields(self.0);
        }
        if index == 0 {
            ((self.0 & PTA_VPN_0) >> 12) as usize
        } else if index == 1 {
            ((self.0 & PTA_VPN_1) >> 21) as usize
        } else {
            ((self.0 & PTA_VPN_2) >> 30) as usize
        }
    }

    /// Replaces the virtual page number for table level `index`.
    pub fn set_vpn(&mut self, index: usize, vpn: usize)
        requires
            index <= 2,
            vpn < 512,
        ensures
            vpn_of(final(self)@, index as int) == vpn,
            forall|other: int|
                0 <= other <= 2 && other != index ==> vpn_of(final(self)@, other) == vpn_of(
                    old(self)@,
                    other,
                ),
            offset_of(final(self)@) == offset_of(old(self)@),
            upper_of(final(self)@) == upper_of(old(self)@),
    {
        let value = vpn as u64;
        proof {
            lemma_field_update(self.0, value, index as u64);
        }
        if index == 0 {
            self.0 = (self.0 & !PTA_VPN_0) | ((value << 12) & PTA_VPN_0);
        } else if index == 1 {
            self.0 = (self.0 & !PTA_VPN_1) | ((value << 21) & PTA_VPN_1);
        } else {
            self.0 = (self.0 & !PTA_VPN_2) | ((value << 30) & PTA_VPN_2);
        }
    }

    /// The offset within the page.
    pub fn get_offset(&self) -> (offset: u64)
        ensures
            offset == offset_of(self@),
            offset < 4096,
    {
        proof {
            lemma_fields(self.0);
        }
        self.0 & PTA_OFFSET
    }

    /// Replaces the offset within the page.
    pub fn set_offset(&mut self, offset: u64)
        requires
            offset < 4096,
        ensures
            offset_of(final(self)@) == offset,
            forall|index: int|
                0 <= index <= 2 ==> vpn_of(final(self)@, index) == vpn_of(old(self)@, index),
            upper_of(final(self)@) == upper_of(old(self)@),
    {
        proof {
            lemma_field_update(self.0, offset, 3);
        }
        self.0 = (self.0 & !PTA_OFFSET) | (offset & PTA_OFFSET);
    }

    /// The address as a number.
    pub fn to_u64(&self) -> (address: u64)
        ensures
            address == self@,
    {
        self.0
    }
}

} // verus!
