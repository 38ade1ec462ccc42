//! The memory inventory: the flash, RAM and device-register regions that
//! the firmware's device tree reports.

use vstd::prelude::*;
use crate::bytes::be32;
use crate::bytes::be64;
use crate::bytes::read_be32;
use crate::bytes::read_be64;
use crate::bytes::same_bytes;
use crate::device_tree::Block;
use crate::device_tree::DeviceTree;
use crate::device_tree::DeviceTreeError;
use crate::device_tree::Property;
use crate::device_tree::device_name_length;
use crate::device_tree::filter_device_name;

verus! {

/// The largest number of flash devices that the inventory holds.
pub const MAX_FLASH_DEVICES: usize = 4;

/// The largest number of RAM devices that the inventory holds.
pub const MAX_RAM_DEVICES: usize = 4;

/// The largest number of device-register regions that the inventory holds.
pub const MAX_MMIO_REGIONS: usize = 32;

/// The base address that stands for "no `reg` property seen".
pub const INVALID_MEM_BASE_ADDRESS: u64 = 0xFFFF_FFFF_FFFF_FFFF;

/// A flash device.
#[derive(Clone, Copy, PartialEq, Eq, Structural, Debug)]
pub struct FlashDevice {
    /// Number of bytes to write at a time.
    pub bank_width: u32,
    /// Physical address of the first byte.
    pub base_address: u64,
    /// Length in bytes.
    pub range: u64,
}

/// A RAM device.
#[derive(Clone, Copy, PartialEq, Eq, Structural, Debug)]
pub struct MemoryDevice {
    /// Physical address of the first byte.
    pub base_address: u64,
    /// Length in bytes.
    pub range: u64,
}

/// A region of device registers.
#[derive(Clone, Copy, PartialEq, Eq, Structural, Debug)]
pub struct MmioRegion {
    /// Physical address of the first byte.
    pub base_address: u64,
    /// Length in bytes.
    pub range: u64,
}

impl MmioRegion {
    /// The region of `range` bytes at `base_address`.
    pub fn from_range(base_address: u64, range: u64) -> (region: Self)
        ensures
            region == (MmioRegion { base_address: base_address, range: range }),
    {
        MmioRegion { base_address, range }
    }

    /// Whether `address` lies in the region.
    pub open spec fn contains(&self, address: u64) -> bool {
        self.base_address <= address && address < self.base_address + self.range
    }
}

/// The memory found in the system at boot.
#[derive(Clone, Copy, Debug)]
pub struct SystemMemory {
    /// The flash devices, filled from the front.
    pub flash_devices: [Option<FlashDevice>; 4],
    /// The RAM devices, filled from the front.
    pub memory_devices: [Option<MemoryDevice>; 4],
    /// The device-register regions, filled from the front.
    pub mmio_regions: [Option<MmioRegion>; 32],
}

impl SystemMemory {
    /// An inventory with nothing in it.
    pub fn empty() -> (memory: Self)
        ensures
            forall|i: int| 0 <= i < 4 ==> (#[trigger] memory.flash_devices[i]).is_none(),
            forall|i: int| 0 <= i < 4 ==> (#[trigger] memory.memory_devices[i]).is_none(),
            forall|i: int| 0 <= i < 32 ==> (#[trigger] memory.mmio_regions[i]).is_none(),
    {
        SystemMemory {
            flash_devices: [None, None, None, None],
            memory_devices: [None, None, None, None],
            mmio_regions: [
                None, None, None, None, None, None, None, None,
                None, None, None, None, None, None, None, None,
                None, None, None, None, None, None, None, None,
                None, None, None, None, None, None, None, None,
            ],
        }
    }

    /// The end of the highest RAM device among the first `count`, or 0 where
    /// there is none.
    pub open spec fn ram_end_upto(&self, count: int) -> int
        decreases count,
    {
        if count <= 0 {
            0
        } else {
            let rest = self.ram_end_upto(count - 1);
            match self.memory_devices[count - 1] {
                Some(device) => {
                    let end = device.base_address + device.range;
                    if end > rest {
                        end
                    } else {
                        rest
                    }
                },
                None => rest,
            }
        }
    }

    /// The end of the highest RAM device, or 0 where there is none.
    pub open spec fn ram_end(&self) -> int {
        self.ram_end_upto(4)
    }

    /// Whether `address` lies in one of the device-register regions.
    pub open spec fn is_mmio(&self, address: u64) -> bool {
        exists|i: int|
            0 <= i < 32 && (#[trigger] self.mmio_regions[i]).is_some()
                && self.mmio_regions[i].unwrap().contains(address)
    }
}

/// The name `device_type`.
pub const NAME_DEVICE_TYPE: [u8; 11] = [100, 101, 118, 105, 99, 101, 95, 116, 121, 112, 101];

/// The name `reg`.
pub const NAME_REG: [u8; 3] = [114, 101, 103];

/// The name `bank-width`.
pub const NAME_BANK_WIDTH: [u8; 10] = [98, 97, 110, 107, 45, 119, 105, 100, 116, 104];

/// The name `memory`.
pub const NAME_MEMORY: [u8; 6] = [109, 101, 109, 111, 114, 121];

/// The name `flash`.
pub const NAME_FLASH: [u8; 5] = [102, 108, 97, 115, 104];

/// Why the memory inventory could not be taken.
#[derive(Clone, Copy, PartialEq, Eq, Structural, Debug)]
pub enum InventoryError {
    /// The device tree could not be walked.
    Tree(DeviceTreeError),
    /// A property has a value of the wrong length.
    InvalidProperty,
    /// A memory node is not of the device type `memory`.
    NotMemory,
    /// A device lacks a property that it needs.
    Incomplete,
    /// The device tree lists more devices of a kind than the inventory
    /// holds.
    TooManyDevices,
    /// The device tree lists no RAM.
    NoMemory,
}

/// The length of a value without the zero bytes and blanks at its end.
pub open spec fn trimmed_length(value: Seq<u8>) -> int
    decreases value.len(),
{
    if value.len() == 0 {
        0
    } else if value.last() == 0 || value.last() == 32 {
        trimmed_length(value.drop_last())
    } else {
        value.len() as int
    }
}

/// The name of a property.
pub open spec fn name_of(tree: Seq<u8>, property: Property) -> Seq<u8> {
    tree.subrange(property.name.start as int, property.name.start + property.name.length)
}

/// The value of a property.
pub open spec fn value_of(tree: Seq<u8>, property: Property) -> Seq<u8> {
    tree.subrange(property.value.start as int, property.value.start + property.value.length)
}

/// Whether every property lies within the blob.
pub open spec fn properties_fit(tree: Seq<u8>, properties: Seq<Property>) -> bool {
    forall|i: int|
        0 <= i < properties.len() ==> {
            &&& (#[trigger] properties[i]).name.start + properties[i].name.length <= tree.len()
            &&& properties[i].value.start + properties[i].value.length <= tree.len()
        }
}

/// The base address and the range that the first `count` properties of a
/// memory node give; the later of two `reg` properties counts. The device
/// type must be `memory`, and a `reg` property must hold 16 bytes at
/// least: the base address and the range, as big-endian numbers.
pub open spec fn memory_scan(tree: Seq<u8>, properties: Seq<Property>, count: int) -> Result<
    (u64, u64),
    InventoryError,
>
    decreases count,
{
    if count <= 0 {
        Ok((INVALID_MEM_BASE_ADDRESS, 0u64))
    } else {
        match memory_scan(tree, properties, count - 1) {
            Err(e) => Err(e),
            Ok(found) => {
                let name = name_of(tree, properties[count - 1]);
                let value = value_of(tree, properties[count - 1]);
                if name == NAME_DEVICE_TYPE@ {
                    if value.subrange(0, trimmed_length(value)) == NAME_MEMORY@ {
                        Ok(found)
                    } else {
                        Err(InventoryError::NotMemory)
                    }
                } else if name == NAME_REG@ {
                    if value.len() < 16 {
                        Err(InventoryError::InvalidProperty)
                    } else {
                        Ok((be64(value, 0) as u64, be64(value, 8) as u64))
                    }
                } else {
                    Ok(found)
                }
            },
        }
    }
}

/// The bank width, the base address and the range that the first `count`
/// properties of a flash node give.
pub open spec fn flash_scan(tree: Seq<u8>, properties: Seq<Property>, count: int) -> Result<
    (u32, u64, u64),
    InventoryError,
>
    decreases count,
{
    if count <= 0 {
        Ok((0u32, INVALID_MEM_BASE_ADDRESS, 0u64))
    } else {
        match flash_scan(tree, properties, count - 1) {
            Err(e) => Err(e),
            Ok(found) => {
                let name = name_of(tree, properties[count - 1]);
                let value = value_of(tree, properties[count - 1]);
                if name == NAME_BANK_WIDTH@ {
                    if value.len() != 4 {
                        Err(InventoryError::InvalidProperty)
                    } else {
                        Ok((be32(value, 0) as u32, found.1, found.2))
                    }
                } else if name == NAME_REG@ {
                    if value.len() < 16 {
                        Err(InventoryError::InvalidProperty)
                    } else {
                        Ok((found.0, be64(value, 0) as u64, be64(value, 8) as u64))
                    }
                } else {
                    Ok(found)
                }
            },
        }
    }
}

/// The registers of a device, from the first `reg` property among the
/// properties from place `from` on: its base address and range, where it
/// holds exactly 16 bytes.
pub open spec fn mmio_scan(tree: Seq<u8>, properties: Seq<Property>, from: int) -> Option<
    (u64, u64),
>
    decreases properties.len() - from,
{
    if from < 0 || from >= properties.len() {
        None
    } else if name_of(tree, properties[from]) == NAME_REG@ {
        let value = value_of(tree, properties[from]);
        if value.len() == 16 && be64(value, 0) != INVALID_MEM_BASE_ADDRESS && be64(value, 8) != 0 {
            Some((be64(value, 0) as u64, be64(value, 8) as u64))
        } else {
            None
        }
    } else {
        mmio_scan(tree, properties, from + 1)
    }
}

/// The RAM device that a node of the tree describes.
pub open spec fn memory_device_spec(tree: DeviceTree, offset: int) -> Result<
    MemoryDevice,
    InventoryError,
> {
    match tree.properties_from(offset) {
        Err(e) => Err(InventoryError::Tree(e)),
        Ok(properties) => match memory_scan(tree@, properties, properties.len() as int) {
            Err(e) => Err(e),
            Ok(found) => if found.0 == INVALID_MEM_BASE_ADDRESS || found.1 == 0 {
                Err(InventoryError::Incomplete)
            } else {
                Ok(MemoryDevice { base_address: found.0, range: found.1 })
            },
        },
    }
}

/// The flash device that a node of the tree describes.
pub open spec fn flash_device_spec(tree: DeviceTree, offset: int) -> Result<
    FlashDevice,
    InventoryError,
> {
    match tree.properties_from(offset) {
        Err(e) => Err(InventoryError::Tree(e)),
        Ok(properties) => match flash_scan(tree@, properties, properties.len() as int) {
            Err(e) => Err(e),
            Ok(found) => if found.0 == 0 || found.1 == INVALID_MEM_BASE_ADDRESS || found.2 == 0 {
                Err(InventoryError::Incomplete)
            } else {
                Ok(FlashDevice { bank_width: found.0, base_address: found.1, range: found.2 })
            },
        },
    }
}

/// The registers of the device that a node of the tree describes, if it
/// has registers.
pub open spec fn mmio_range_spec(tree: DeviceTree, offset: int) -> Result<
    Option<(u64, u64)>,
    InventoryError,
> {
    match tree.properties_from(offset) {
        Err(e) => Err(InventoryError::Tree(e)),
        Ok(properties) => Ok(mmio_scan(tree@, properties, 0)),
    }
}

/// What has been found of the memory of the system.
pub struct Found {
    pub flash: Seq<FlashDevice>,
    pub memory: Seq<MemoryDevice>,
    pub mmio: Seq<MmioRegion>,
}

/// The kind of device that a node stands for: its name up to the `@`.
pub open spec fn kind_of(tree: Seq<u8>, block: Block) -> Seq<u8> {
    let name = tree.subrange(block.name.start as int, block.name.start + block.name.length);
    name.subrange(0, device_name_length(name, 0))
}

/// What the first `count` nodes of the tree hold of memory: a node of the
/// kind `memory` is a RAM device, a node of the kind `flash` a flash
/// device, and every other node that has registers a region of device
/// registers. More devices of a kind than the inventory holds are an
/// error.
pub open spec fn found_upto(tree: DeviceTree, blocks: Seq<Block>, count: int) -> Result<
    Found,
    InventoryError,
>
    decreases count,
{
    if count <= 0 {
        Ok(Found { flash: Seq::empty(), memory: Seq::empty(), mmio: Seq::empty() })
    } else {
        match found_upto(tree, blocks, count - 1) {
            Err(e) => Err(e),
            Ok(found) => {
                let block = blocks[count - 1];
                let kind = kind_of(tree@, block);
                if kind == NAME_MEMORY@ {
                    if found.memory.len() >= 4 {
                        Err(InventoryError::TooManyDevices)
                    } else {
                        match memory_device_spec(tree, block.offset as int) {
                            Err(e) => Err(e),
                            Ok(device) => Ok(Found { memory: found.memory.push(device), ..found }),
                        }
                    }
                } else if kind == NAME_FLASH@ {
                    if found.flash.len() >= 4 {
                        Err(InventoryError::TooManyDevices)
                    } else {
                        match flash_device_spec(tree, block.offset as int) {
                            Err(e) => Err(e),
                            Ok(device) => Ok(Found { flash: found.flash.push(device), ..found }),
                        }
                    }
                } else {
                    match mmio_range_spec(tree, block.offset as int) {
                        Err(e) => Err(e),
                        Ok(None) => Ok(found),
                        Ok(Some(range)) => if found.mmio.len() >= 32 {
                            Err(InventoryError::TooManyDevices)
                        } else {
                            Ok(
                                Found {
                                    mmio: found.mmio.push(
                                        MmioRegion { base_address: range.0, range: range.1 },
                                    ),
                                    ..found
                                },
                            )
                        },
                    }
                }
            },
        }
    }
}

/// What the tree holds of memory.
pub open spec fn inventory_spec(tree: DeviceTree) -> Result<Found, InventoryError> {
    match tree.blocks_from(0) {
        Err(e) => Err(InventoryError::Tree(e)),
        Ok(blocks) => match found_upto(tree, blocks, blocks.len() as int) {
            Err(e) => Err(e),
            Ok(found) => if found.memory.len() == 0 {
                Err(InventoryError::NoMemory)
            } else {
                Ok(found)
            },
        },
    }
}

/// An error at one node is the error of the whole walk.
pub proof fn lemma_found_error(tree: DeviceTree, blocks: Seq<Block>, count: int)
    requires
        0 < count <= blocks.len(),
        found_upto(tree, blocks, count) is Err,
    ensures
        found_upto(tree, blocks, blocks.len() as int) == found_upto(tree, blocks, count),
    decreases blocks.len() - count,
{
    if count < blocks.len() {
        lemma_found_error(tree, blocks, count + 1);
    }
}

/// An error in one property of a memory node is the error of the node.
pub proof fn lemma_memory_error(tree: Seq<u8>, properties: Seq<Property>, count: int)
    requires
        0 < count <= properties.len(),
        memory_scan(tree, properties, count) is Err,
    ensures
        memory_scan(tree, properties, properties.len() as int) == memory_scan(
            tree,
            properties,
            count,
        ),
    decreases properties.len() - count,
{
    if count < properties.len() {
        lemma_memory_error(tree, properties, count + 1);
    }
}

/// An error in one property of a flash node is the error of the node.
pub proof fn lemma_flash_error(tree: Seq<u8>, properties: Seq<Property>, count: int)
    requires
        0 < count <= properties.len(),
        flash_scan(tree, properties, count) is Err,
    ensures
        flash_scan(tree, properties, properties.len() as int) == flash_scan(
            tree,
            properties,
            count,
        ),
    decreases properties.len() - count,
{
    if count < properties.len() {
        lemma_flash_error(tree, properties, count + 1);
    }
}

/// The length of a value without the zero bytes and blanks at its end.
pub fn trim_end(value: &[u8]) -> (length: usize)
    ensures
        length == trimmed_length(value@),
        length <= value@.len(),
{
    let mut length = value.len();
    assert(value@.subrange(0, length as int) =~= value@);
    while length > 0 && (value[length - 1] == 0 || value[length - 1] == 32)
        invariant
            length <= value@.len(),
            trimmed_length(value@) == trimmed_length(value@.subrange(0, length as int)),
        decreases length,
    {
        proof {
            let current = value@.subrange(0, length as int);
            assert(current.drop_last() =~= value@.subrange(0, length - 1));
        }
        length -= 1;
    }
    proof {
        assert(value@.subrange(0, value@.len() as int) =~= value@);
        let current = value@.subrange(0, length as int);
        if length > 0 {
            assert(current.last() == value@[length - 1]);
        }
    }
    length
}

impl FlashDevice {
    /// The flash device that the node with its properties at
    /// `block_offset` describes: its bank width from the property
    /// `bank-width`, and its base address and range from the property
    /// `reg`.
    pub fn new(device_tree: &DeviceTree, block_offset: usize) -> (result: Result<
        Self,
        InventoryError,
    >)
        requires
            device_tree.wf(),
        ensures
            result == flash_device_spec(*device_tree, block_offset as int),
    {
        let properties = match device_tree.iterate_properties(block_offset) {
            Ok(properties) => properties,
            Err(e) => {
                return Err(InventoryError::Tree(e));
            },
        };
        let mut bank_width: u32 = 0;
        let mut base_address: u64 = INVALID_MEM_BASE_ADDRESS;
        let mut range: u64 = 0;
        let mut i: usize = 0;
        while i < properties.len()
            invariant
                i <= properties@.len(),
                device_tree.wf(),
                properties_fit(device_tree@, properties@),
                device_tree.properties_from(block_offset as int) == Ok::<
                    Seq<Property>,
                    DeviceTreeError,
                >(properties@),
                flash_scan(device_tree@, properties@, i as int) == Ok::<
                    (u32, u64, u64),
                    InventoryError,
                >((bank_width, base_address, range)),
            decreases properties@.len() - i,
        {
            let property = properties[i];
            let name = device_tree.bytes(property.name);
            let value = device_tree.bytes(property.value);
            if same_bytes(name, &NAME_BANK_WIDTH) {
                if value.len() != 4 {
                    proof {
                        lemma_flash_error(device_tree@, properties@, i as int + 1);
                    }
                    return Err(InventoryError::InvalidProperty);
                }
                bank_width = read_be32(value, 0);
            } else if same_bytes(name, &NAME_REG) {
                if value.len() < 16 {
                    proof {
                        lemma_flash_error(device_tree@, properties@, i as int + 1);
                    }
                    return Err(InventoryError::InvalidProperty);
                }
                base_address = read_be64(value, 0);
                range = read_be64(value, 8);
            }
            i += 1;
        }
        if bank_width == 0 || base_address == INVALID_MEM_BASE_ADDRESS || range == 0 {
            return Err(InventoryError::Incomplete);
        }
        Ok(FlashDevice { bank_width, base_address, range })
    }
}

impl MemoryDevice {
    /// The RAM device that the node with its properties at `block_offset`
    /// describes: its base address and range from the property `reg`. The
    /// device type of the node, if it has one, must be `memory`.
    pub fn new(device_tree: &DeviceTree, block_offset: usize) -> (result: Result<
        Self,
        InventoryError,
    >)
        requires
            device_tree.wf(),
        ensures
            result == memory_device_spec(*device_tree, block_offset as int),
    {
        let properties = match device_tree.iterate_properties(block_offset) {
            Ok(properties) => properties,
            Err(e) => {
                return Err(InventoryError::Tree(e));
            },
        };
        let mut base_address: u64 = INVALID_MEM_BASE_ADDRESS;
        let mut range: u64 = 0;
        let mut i: usize = 0;
        while i < properties.len()
            invariant
                i <= properties@.len(),
                device_tree.wf(),
                properties_fit(device_tree@, properties@),
                device_tree.properties_from(block_offset as int) == Ok::<
                    Seq<Property>,
                    DeviceTreeError,
                >(properties@),
                memory_scan(device_tree@, properties@, i as int) == Ok::<
                    (u64, u64),
                    InventoryError,
                >((base_address, range)),
            decreases properties@.len() - i,
        {
            let property = properties[i];
            let name = device_tree.bytes(property.name);
            let value = device_tree.bytes(property.value);
            if same_bytes(name, &NAME_DEVICE_TYPE) {
                let length = trim_end(value);
                let trimmed = vstd::slice::slice_subrange(value, 0, length);
                if !same_bytes(trimmed, &NAME_MEMORY) {
                    proof {
                        lemma_memory_error(device_tree@, properties@, i as int + 1);
                    }
                    return Err(InventoryError::NotMemory);
                }
            } else if same_bytes(name, &NAME_REG) {
                if value.len() < 16 {
                    proof {
                        lemma_memory_error(device_tree@, properties@, i as int + 1);
                    }
                    return Err(InventoryError::InvalidProperty);
                }
                base_address = read_be64(value, 0);
                range = read_be64(value, 8);
            }
            i += 1;
        }
        if base_address == INVALID_MEM_BASE_ADDRESS || range == 0 {
            return Err(InventoryError::Incomplete);
        }
        Ok(MemoryDevice { base_address, range })
    }
}

impl SystemMemory {
    /// Whether the inventory holds what was found, each kind of device in
    /// the order in which it was found, from the front of its list.
    pub open spec fn holds(&self, found: Found) -> bool {
        &&& found.flash.len() <= 4
        &&& found.memory.len() <= 4
        &&& found.mmio.len() <= 32
        &&& forall|i: int|
            0 <= i < 4 ==> #[trigger] self.flash_devices[i] == if i < found.flash.len() {
                Some(found.flash[i])
            } else {
                None
            }
        &&& forall|i: int|
            0 <= i < 4 ==> #[trigger] self.memory_devices[i] == if i < found.memory.len() {
                Some(found.memory[i])
            } else {
                None
            }
        &&& forall|i: int|
            0 <= i < 32 ==> #[trigger] self.mmio_regions[i] == if i < found.mmio.len() {
                Some(found.mmio[i])
            } else {
                None
            }
    }

    /// The memory inventory of the system, taken from the device tree.
    /// There must be one RAM device at least.
    pub fn new(device_tree: &DeviceTree) -> (result: Result<Self, InventoryError>)
        requires
            device_tree.wf(),
        ensures
            match (result, inventory_spec(*device_tree)) {
                (Ok(memory), Ok(found)) => memory.holds(found),
                (Err(e), Err(expected)) => e == expected,
                _ => false,
            },
    {
        let blocks = match device_tree.iterate_blocks() {
            Ok(blocks) => blocks,
            Err(e) => {
                return Err(InventoryError::Tree(e));
            },
        };
        let mut memory = SystemMemory::empty();
        let mut memory_devices_found: usize = 0;
        let mut flash_devices_found: usize = 0;
        let mut mmio_regions_found: usize = 0;
        let ghost mut found = Found {
            flash: Seq::empty(),
            memory: Seq::empty(),
            mmio: Seq::empty(),
        };
        let mut index: usize = 0;
        while index < blocks.len()
            invariant
                index <= blocks@.len(),
                device_tree.wf(),
                device_tree.blocks_from(0) == Ok::<Seq<Block>, DeviceTreeError>(blocks@),
                forall|i: int|
                    0 <= i < blocks@.len() ==> (#[trigger] blocks@[i]).name.start
                        + blocks@[i].name.length <= device_tree@.len(),
                found_upto(*device_tree, blocks@, index as int) == Ok::<Found, InventoryError>(
                    found,
                ),
                memory.holds(found),
                memory_devices_found == found.memory.len(),
                flash_devices_found == found.flash.len(),
                mmio_regions_found == found.mmio.len(),
            decreases blocks@.len() - index,
        {
            let block = blocks[index];
            let name = device_tree.bytes(block.name);
            let device_name = filter_device_name(name);
            if same_bytes(device_name, &NAME_MEMORY) {
                if memory_devices_found >= MAX_RAM_DEVICES {
                    proof {
                        lemma_found_error(*device_tree, blocks@, index as int + 1);
                    }
                    return Err(InventoryError::TooManyDevices);
                }
                let device = match MemoryDevice::new(device_tree, block.offset) {
                    Ok(device) => device,
                    Err(e) => {
                        proof {
                            lemma_found_error(*device_tree, blocks@, index as int + 1);
                        }
                        return Err(e);
                    },
                };
                memory.memory_devices[memory_devices_found] = Some(device);
                memory_devices_found += 1;
                proof {
                    found = Found { memory: found.memory.push(device), ..found };
                }
            } else if same_bytes(device_name, &NAME_FLASH) {
                if flash_devices_found >= MAX_FLASH_DEVICES {
                    proof {
                        lemma_found_error(*device_tree, blocks@, index as int + 1);
                    }
                    return Err(InventoryError::TooManyDevices);
                }
                let device = match FlashDevice::new(device_tree, block.offset) {
                    Ok(device) => device,
                    Err(e) => {
                        proof {
                            lemma_found_error(*device_tree, blocks@, index as int + 1);
                        }
                        return Err(e);
                    },
                };
                memory.flash_devices[flash_devices_found] = Some(device);
                flash_devices_found += 1;
                proof {
                    found = Found { flash: found.flash.push(device), ..found };
                }
            } else {
                let range = match Self::get_mmio_device_range(device_tree, block.offset) {
                    Ok(range) => range,
                    Err(e) => {
                        proof {
                            lemma_found_error(*device_tree, blocks@, index as int + 1);
                        }
                        return Err(e);
                    },
                };
                if let Some((start, range)) = range {
                    if mmio_regions_found >= MAX_MMIO_REGIONS {
                        proof {
                            lemma_found_error(*device_tree, blocks@, index as int + 1);
                        }
                        return Err(InventoryError::TooManyDevices);
                    }
                    let region = MmioRegion::from_range(start, range);
                    memory.mmio_regions[mmio_regions_found] = Some(region);
                    mmio_regions_found += 1;
                    proof {
                        found = Found { mmio: found.mmio.push(region), ..found };
                    }
                }
            }
            index += 1;
        }
        if memory_devices_found == 0 {
            return Err(InventoryError::NoMemory);
        }
        Ok(memory)
    }

    /// The registers of the device that the node with its properties at
    /// `block_offset` describes: the base address and the range in its
    /// first `reg` property, where that holds exactly 16 bytes.
    pub fn get_mmio_device_range(device_tree: &DeviceTree, block_offset: usize) -> (result: Result<
        Option<(u64, u64)>,
        InventoryError,
    >)
        requires
            device_tree.wf(),
        ensures
            result == mmio_range_spec(*device_tree, block_offset as int),
    {
        let properties = match device_tree.iterate_properties(block_offset) {
            Ok(properties) => properties,
            Err(e) => {
                return Err(InventoryError::Tree(e));
            },
        };
        let mut i: usize = 0;
        while i < properties.len()
            invariant
                i <= properties@.len(),
                device_tree.wf(),
                properties_fit(device_tree@, properties@),
                device_tree.properties_from(block_offset as int) == Ok::<
                    Seq<Property>,
                    DeviceTreeError,
                >(properties@),
                mmio_scan(device_tree@, properties@, 0) == mmio_scan(
                    device_tree@,
                    properties@,
                    i as int,
                ),
            decreases properties@.len() - i,
        {
            let property = properties[i];
            let name = device_tree.bytes(property.name);
            if same_bytes(name, &NAME_REG) {
                let value = device_tree.bytes(property.value);
                if value.len() == 16 {
                    let base_address = read_be64(value, 0);
                    let range = read_be64(value, 8);
                    if base_address != INVALID_MEM_BASE_ADDRESS && range != 0 {
                        return Ok(Some((base_address, range)));
                    }
                }
                return Ok(None);
            }
            i += 1;
        }
        Ok(None)
    }
}

} // verus!
