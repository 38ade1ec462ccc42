//! The disk that the loader boots from: a VirtIO block device that the
//! device tree lists, and the partition on it that holds the kernel.

use vstd::prelude::*;
use crate::boot::partition_table::LegacyPartition;
use crate::boot::partition_table::MasterBootRecord;
use crate::boot::partition_table::first_bootable;
use crate::boot::partition_table::records_of;
use crate::boot::virtio::BlockRequest;
use crate::boot::virtio::Descriptor;
use crate::boot::virtio::DeviceOp;
use crate::boot::virtio::InitStage;
use crate::boot::virtio::QueueAddresses;
use crate::boot::virtio::Step;
use crate::boot::virtio::VirtIoError;
use crate::boot::virtio::VirtIoBlockDevice;
use crate::boot::virtio::VirtQueue;
use crate::boot::virtio::expects;
use crate::bytes::be32;
use crate::bytes::be64;
use crate::bytes::le16;
use crate::bytes::read_be32;
use crate::bytes::read_be64;
use crate::bytes::same_bytes;
use crate::device_tree::Block;
use crate::device_tree::DeviceTree;
use crate::device_tree::DeviceTreeError;
use crate::device_tree::Property;
use crate::device_tree::device_name_length;
use crate::device_tree::filter_device_name;

verus! {

/// The size of a sector in bytes.
pub const SECTOR_SIZE: usize = 512;

/// The kind of node that stands for a VirtIO device: `virtio_mmio`.
pub const NAME_VIRTIO_MMIO: [u8; 11] = [118, 105, 114, 116, 105, 111, 95, 109, 109, 105, 111];

/// The property `interrupts`.
pub const NAME_INTERRUPTS: [u8; 10] = [105, 110, 116, 101, 114, 114, 117, 112, 116, 115];

/// The property `interrupt-parent`.
pub const NAME_INTERRUPT_PARENT: [u8; 16] = [
    105,
    110,
    116,
    101,
    114,
    114,
    117,
    112,
    116,
    45,
    112,
    97,
    114,
    101,
    110,
    116,
];

/// The property `reg`.
pub const NAME_REG: [u8; 3] = [114, 101, 103];

/// The property `compatible`.
pub const NAME_COMPATIBLE: [u8; 10] = [99, 111, 109, 112, 97, 116, 105, 98, 108, 101];

/// The driver that a VirtIO device is compatible with: `virtio,mmio`.
pub const COMPATIBLE_VIRTIO_MMIO: [u8; 11] = [118, 105, 114, 116, 105, 111, 44, 109, 109, 105, 111];

/// The registers of a device: where they start and how many bytes they
/// take up.
#[derive(Clone, Copy, PartialEq, Eq, Structural, Debug)]
pub struct Registers {
    pub base: u64,
    pub size: u64,
}

impl Registers {
    /// The registers of `size` bytes at `base`.
    pub fn new(base: u64, size: u64) -> (registers: Self)
        ensures
            registers == (Registers { base: base, size: size }),
    {
        Registers { base, size }
    }
}

/// What the device tree says of a VirtIO device.
#[derive(Clone, Copy, PartialEq, Eq, Structural, Debug)]
pub struct DriveNode {
    pub registers: Registers,
    pub interrupts: u32,
    pub interrupt_parent: u32,
    pub compatible: bool,
}

/// Why no drive could be found.
#[derive(Clone, Copy, PartialEq, Eq, Structural, Debug)]
pub enum DriveError {
    /// The device tree could not be walked.
    Tree(DeviceTreeError),
    /// A property of a VirtIO device has a value of the wrong length.
    InvalidProperty,
}

/// A disk.
#[derive(Clone, Debug)]
pub struct BlockDevice {
    registers: Registers,
    interrupts: u32,
    interrupt_parent: u32,
    virt_device: VirtIoBlockDevice,
    mbr: Option<MasterBootRecord>,
}

/// Whether the bytes from `i` to `j` of a `compatible` property are one of
/// its strings: not empty, without a zero byte, and set off by zero bytes
/// or the ends of the value.
pub open spec fn is_piece(value: Seq<u8>, i: int, j: int) -> bool {
    &&& 0 <= i < j <= value.len()
    &&& i == 0 || value[i - 1] == 0
    &&& j == value.len() || value[j] == 0
    &&& forall|k: int| i <= k < j ==> value[k] != 0
}

/// Whether one of the strings of a `compatible` property is `target`.
pub open spec fn is_compatible_spec(value: Seq<u8>, target: Seq<u8>) -> bool {
    exists|i: int, j: int| #[trigger] is_piece(value, i, j) && value.subrange(i, j) == target
}

/// What the first `count` properties say of a VirtIO device: the later of
/// two properties with one name counts. A `reg` property that is not 16
/// bytes long, or an interrupt property that is not 4 bytes long, is an
/// error.
pub open spec fn drive_node_upto(tree: Seq<u8>, properties: Seq<Property>, count: int) -> Result<
    DriveNode,
    DriveError,
>
    decreases count,
{
    if count <= 0 {
        Ok(
            DriveNode {
                registers: Registers { base: 0, size: 0 },
                interrupts: 0,
                interrupt_parent: 0,
                compatible: false,
            },
        )
    } else {
        match drive_node_upto(tree, properties, count - 1) {
            Err(e) => Err(e),
            Ok(node) => {
                let property = properties[count - 1];
                let name = tree.subrange(
                    property.name.start as int,
                    property.name.start + property.name.length,
                );
                let value = tree.subrange(
                    property.value.start as int,
                    property.value.start + property.value.length,
                );
                if name == NAME_INTERRUPTS@ {
                    if value.len() == 4 {
                        Ok(DriveNode { interrupts: be32(value, 0) as u32, ..node })
                    } else {
                        Err(DriveError::InvalidProperty)
                    }
                } else if name == NAME_INTERRUPT_PARENT@ {
                    if value.len() == 4 {
                        Ok(DriveNode { interrupt_parent: be32(value, 0) as u32, ..node })
                    } else {
                        Err(DriveError::InvalidProperty)
                    }
                } else if name == NAME_REG@ {
                    if value.len() == 16 {
                        Ok(
                            DriveNode {
                                registers: Registers {
                                    base: be64(value, 0) as u64,
                                    size: be64(value, 8) as u64,
                                },
                                ..node
                            },
                        )
                    } else {
                        Err(DriveError::InvalidProperty)
                    }
                } else if name == NAME_COMPATIBLE@ {
                    Ok(
                        DriveNode {
                            compatible: is_compatible_spec(value, COMPATIBLE_VIRTIO_MMIO@),
                            ..node
                        },
                    )
                } else {
                    Ok(node)
                }
            },
        }
    }
}

/// Whether the node is of the kind `virtio_mmio`.
pub open spec fn is_virtio_node(tree: Seq<u8>, block: Block) -> bool {
    let name = tree.subrange(block.name.start as int, block.name.start + block.name.length);
    name.subrange(0, device_name_length(name, 0)) == NAME_VIRTIO_MMIO@
}

impl BlockDevice {
    /// The registers of the disk.
    pub closed spec fn registers(&self) -> Registers {
        self.registers
    }

    /// The interrupt of the disk.
    pub closed spec fn interrupts(&self) -> u32 {
        self.interrupts
    }

    /// The interrupt controller of the disk.
    pub closed spec fn interrupt_parent(&self) -> u32 {
        self.interrupt_parent
    }

    /// The driver of the disk.
    pub closed spec fn virt_device(&self) -> VirtIoBlockDevice {
        self.virt_device
    }

    /// The disk with the given registers and interrupts.
    pub fn new(registers: Registers, interrupts: u32, interrupt_parent: u32) -> (device: Self)
        requires
            registers.base + 0x200 <= u64::MAX,
        ensures
            device.registers() == registers,
            device.interrupts() == interrupts,
            device.interrupt_parent() == interrupt_parent,
            device.virt_device().wf(),
            device.virt_device().mmio().base() == registers.base,
            device.virt_device().stage() == InitStage::Start,
    {
        BlockDevice {
            registers,
            interrupts,
            interrupt_parent,
            virt_device: VirtIoBlockDevice::new(registers.base),
            mbr: None,
        }
    }

    /// What the properties of a node say of a VirtIO device.
    pub fn read_drive_node(device_tree: &DeviceTree, properties: &Vec<Property>) -> (result: Result<
        DriveNode,
        DriveError,
    >)
        requires
            device_tree.wf(),
            forall|i: int|
                0 <= i < properties@.len() ==> {
                    &&& (#[trigger] properties@[i]).name.start + properties@[i].name.length
                        <= device_tree@.len()
                    &&& properties@[i].value.start + properties@[i].value.length
                        <= device_tree@.len()
                },
        ensures
            result == drive_node_upto(device_tree@, properties@, properties@.len() as int),
    {
        let mut node = DriveNode {
            registers: Registers::new(0, 0),
            interrupts: 0,
            interrupt_parent: 0,
            compatible: false,
        };
        let mut i: usize = 0;
        while i < properties.len()
            invariant
                i <= properties@.len(),
                device_tree.wf(),
                forall|k: int|
                    0 <= k < properties@.len() ==> {
                        &&& (#[trigger] properties@[k]).name.start + properties@[k].name.length
                            <= device_tree@.len()
                        &&& properties@[k].value.start + properties@[k].value.length
                            <= device_tree@.len()
                    },
                drive_node_upto(device_tree@, properties@, i as int) == Ok::<DriveNode, DriveError>(
                    node,
                ),
            decreases properties@.len() - i,
        {
            let property = properties[i];
            let name = device_tree.bytes(property.name);
            let value = device_tree.bytes(property.value);
            proof {
                assert(drive_node_upto(device_tree@, properties@, i + 1) == drive_node_upto(
                    device_tree@,
                    properties@,
                    i as int + 1,
                ));
            }
            if same_bytes(name, &NAME_INTERRUPTS) {
                if value.len() != 4 {
                    proof {
                        lemma_drive_error(device_tree@, properties@, i as int + 1);
                    }
                    return Err(DriveError::InvalidProperty);
                }
                node.interrupts = Self::property_to_u32(value);
            } else if same_bytes(name, &NAME_INTERRUPT_PARENT) {
                if value.len() != 4 {
                    proof {
                        lemma_drive_error(device_tree@, properties@, i as int + 1);
                    }
                    return Err(DriveError::InvalidProperty);
                }
                node.interrupt_parent = Self::property_to_u32(value);
            } else if same_bytes(name, &NAME_REG) {
                if value.len() != 16 {
                    proof {
                        lemma_drive_error(device_tree@, properties@, i as int + 1);
                    }
                    return Err(DriveError::InvalidProperty);
                }
                let base = read_be64(value, 0);
                let size = read_be64(value, 8);
                node.registers = Registers::new(base, size);
            } else if same_bytes(name, &NAME_COMPATIBLE) {
                node.compatible = Self::is_compatible(value, &COMPATIBLE_VIRTIO_MMIO);
            }
            i += 1;
        }
        Ok(node)
    }

    /// What a node says of a VirtIO device, where it stands for one.
    pub fn candidate(device_tree: &DeviceTree, block: Block) -> (result: Result<
        Option<DriveNode>,
        DriveError,
    >)
        requires
            device_tree.wf(),
            block.name.start + block.name.length <= device_tree@.len(),
        ensures
            result == candidate_spec(*device_tree, block),
    {
        let name = device_tree.bytes(block.name);
        let device_name = filter_device_name(name);
        if !same_bytes(device_name, &NAME_VIRTIO_MMIO) {
            return Ok(None);
        }
        let properties = match device_tree.iterate_properties(block.offset) {
            Ok(properties) => properties,
            Err(e) => {
                return Err(DriveError::Tree(e));
            },
        };
        let node = match Self::read_drive_node(device_tree, &properties) {
            Ok(node) => node,
            Err(e) => {
                return Err(e);
            },
        };
        if node.compatible && node.registers.base <= u64::MAX - 0x200 {
            Ok(Some(node))
        } else {
            Ok(None)
        }
    }

    /// The first node of the device tree, from place `skip` in the list of
    /// nodes on, that stands for a VirtIO device with registers: a node of
    /// the kind `virtio_mmio` that is compatible with `virtio,mmio`. What
    /// comes back is its place in the list and the disk that it describes.
    /// Whether the device is a disk is for the caller to find out, with the
    /// probe of the driver; where it is another device the search goes on
    /// behind it.
    pub fn find_first_drive(device_tree: &DeviceTree, skip: usize) -> (result: Result<
        Option<(usize, BlockDevice)>,
        DriveError,
    >)
        requires
            device_tree.wf(),
        ensures
            match (result, first_drive_spec(*device_tree, skip as int)) {
                (Ok(Some(found)), Ok(Some(expected))) => {
                    &&& found.0 == expected.0
                    &&& found.1.registers() == expected.1.registers
                    &&& found.1.interrupts() == expected.1.interrupts
                    &&& found.1.interrupt_parent() == expected.1.interrupt_parent
                    &&& found.1.virt_device().wf()
                    &&& found.1.virt_device().mmio().base() == expected.1.registers.base
                    &&& found.1.virt_device().stage() == InitStage::Start
                },
                (Ok(None), Ok(None)) => true,
                (Err(e), Err(expected)) => e == expected,
                _ => false,
            },
    {
        let blocks = match device_tree.iterate_blocks() {
            Ok(blocks) => blocks,
            Err(e) => {
                return Err(DriveError::Tree(e));
            },
        };
        let mut index: usize = skip;
        while index < blocks.len()
            invariant
                device_tree.wf(),
                device_tree.blocks_from(0) == Ok::<Seq<Block>, DeviceTreeError>(blocks@),
                forall|i: int|
                    0 <= i < blocks@.len() ==> (#[trigger] blocks@[i]).name.start
                        + blocks@[i].name.length <= device_tree@.len(),
                skip <= index,
                drives_from(*device_tree, blocks@, index as int) == drives_from(
                    *device_tree,
                    blocks@,
                    skip as int,
                ),
            decreases blocks@.len() - index,
        {
            let block = blocks[index];
            match Self::candidate(device_tree, block) {
                Err(e) => {
                    return Err(e);
                },
                Ok(Some(node)) => {
                    let device = BlockDevice::new(
                        node.registers,
                        node.interrupts,
                        node.interrupt_parent,
                    );
                    return Ok(Some((index, device)));
                },
                Ok(None) => {},
            }
            index += 1;
        }
        Ok(None)
    }

    /// The number of values that the next stage of the set-up waits for.
    pub fn expected_reads(&self) -> (count: usize)
        ensures
            count == expects(self.virt_device().stage()),
    {
        self.virt_device.expected_reads()
    }

    /// One stage of the set-up of the disk.
    pub fn initialize(&mut self, queue: &mut VirtQueue, addresses: &QueueAddresses, reads: &[u32])
        -> (step: Step)
        requires
            old(self).virt_device().wf(),
            reads@.len() == expects(old(self).virt_device().stage()),
        ensures
            final(self).virt_device().wf(),
            final(self).registers() == old(self).registers(),
            final(self).virt_device().mmio() == old(self).virt_device().mmio(),
            final(self).virt_device().stage() == crate::boot::virtio::init_step(
                old(self).virt_device().mmio().base(),
                *addresses,
                old(self).virt_device().stage(),
                reads@,
            ).0,
            crate::boot::virtio::step_matches(
                step,
                crate::boot::virtio::init_step(
                    old(self).virt_device().mmio().base(),
                    *addresses,
                    old(self).virt_device().stage(),
                    reads@,
                ).1,
            ),
            step matches Step::Continue(ops) ==> crate::boot::virtio::count_reads(ops@) == expects(
                final(self).virt_device().stage(),
            ),
            final(self).interrupts() == old(self).interrupts(),
            final(self).interrupt_parent() == old(self).interrupt_parent(),
            final(queue).descriptors == old(queue).descriptors,
            final(queue).available.0.index == old(queue).available.0.index,
            final(queue).available.0.ring == old(queue).available.0.ring,
            final(queue).used.0.index == old(queue).used.0.index,
            final(queue).used.0.ring == old(queue).used.0.ring,
            final(queue).read_status == old(queue).read_status,
            final(queue).available.0.flags == if old(self).virt_device().stage()
                == InitStage::QueueSized && final(self).virt_device().stage()
                == InitStage::QueueInstalled {
                1u16
            } else {
                old(queue).available.0.flags
            },
            final(queue).used.0.flags == if old(self).virt_device().stage()
                == InitStage::QueueSized && final(self).virt_device().stage()
                == InitStage::QueueInstalled {
                1u16
            } else {
                old(queue).used.0.flags
            },
    {
        self.virt_device.initialize(queue, addresses, reads)
    }

    /// The first part of a request to read a sector: the chain of the
    /// request is built in the queue. What comes back is the request
    /// header, which the caller puts at `request_address`, and what has to
    /// be done before the request is offered.
    pub fn read_sector(
        &mut self,
        queue: &mut VirtQueue,
        sector: u64,
        request_address: u64,
        buffer_address: u64,
        status_address: u64,
    ) -> (request: (BlockRequest, Vec<DeviceOp>))
        requires
            old(self).virt_device().wf(),
        ensures
            final(self).virt_device().wf(),
            final(self).registers() == old(self).registers(),
            final(self).interrupts() == old(self).interrupts(),
            final(self).interrupt_parent() == old(self).interrupt_parent(),
            final(self).virt_device().mmio() == old(self).virt_device().mmio(),
            final(self).virt_device().stage() == old(self).virt_device().stage(),
            final(self).virt_device().starting_used_index() == old(queue).used.0.index,
            final(self).virt_device().timeout() == crate::boot::virtio::POLL_LIMIT,
            request.0 == (BlockRequest { request_type: 0, reserved: 0, sector: sector }),
            request.1@ == seq![
                DeviceOp::Publish,
                DeviceOp::Fence(crate::boot::virtio::Fence::SeqCst),
            ],
            final(queue).read_status == crate::boot::virtio::STATUS_PENDING,
            final(queue).descriptors.0[0] == (Descriptor {
                address: request_address,
                length: 16,
                flags: 1,
                next: 1,
            }),
            final(queue).descriptors.0[1] == (Descriptor {
                address: buffer_address,
                length: 512,
                flags: 3,
                next: 2,
            }),
            final(queue).descriptors.0[2] == (Descriptor {
                address: status_address,
                length: 1,
                flags: 2,
                next: 0,
            }),
            forall|i: int|
                3 <= i < 8 ==> final(queue).descriptors.0[i] == old(queue).descriptors.0[i],
            final(queue).available.0.ring@ == old(queue).available.0.ring@.update(
                old(queue).available.0.index as int % 8,
                0u16,
            ),
            final(queue).available.0.index == old(queue).available.0.index,
            final(queue).available.0.flags == old(queue).available.0.flags,
            final(queue).used == old(queue).used,
    {
        self.virt_device.read_sector(queue, sector, request_address, buffer_address, status_address)
    }

    /// The second part of a request: the chain is offered to the disk.
    /// What comes back is what has to be done then.
    pub fn submit(&self, queue: &mut VirtQueue) -> (ops: Vec<DeviceOp>)
        requires
            self.virt_device().wf(),
        ensures
            final(queue).available.0.index as int == (old(queue).available.0.index + 1) % 0x1_0000,
            final(queue).available.0.ring == old(queue).available.0.ring,
            final(queue).available.0.flags == old(queue).available.0.flags,
            final(queue).descriptors == old(queue).descriptors,
            final(queue).used == old(queue).used,
            final(queue).read_status == old(queue).read_status,
            ops@ == seq![
                DeviceOp::Publish,
                DeviceOp::Fence(crate::boot::virtio::Fence::SeqCst),
                DeviceOp::Fence(crate::boot::virtio::Fence::Release),
                DeviceOp::Write((self.virt_device().mmio().base() + 0x50) as u64, 0),
                DeviceOp::Refresh,
                DeviceOp::Fence(crate::boot::virtio::Fence::Acquire),
            ],
    {
        self.virt_device.submit(queue)
    }

    /// Looks whether the disk is done with the request: the answer is to
    /// wait and look again, or how the request ended.
    pub fn poll(&mut self, queue: &VirtQueue) -> (step: Step)
        requires
            old(self).virt_device().wf(),
        ensures
            final(self).virt_device().wf(),
            final(self).registers() == old(self).registers(),
            final(self).interrupts() == old(self).interrupts(),
            final(self).interrupt_parent() == old(self).interrupt_parent(),
            final(self).virt_device().mmio() == old(self).virt_device().mmio(),
            final(self).virt_device().stage() == old(self).virt_device().stage(),
            final(self).virt_device().starting_used_index() == old(self).virt_device().starting_used_index(),
            queue.used.0.index == old(self).virt_device().starting_used_index() && old(self).virt_device().timeout() > 0 ==> {
                &&& final(self).virt_device().timeout() == old(self).virt_device().timeout() - 1
                &&& step matches Step::Continue(ops) && ops@ == seq![
                    DeviceOp::Pause,
                    DeviceOp::Refresh,
                    DeviceOp::Fence(crate::boot::virtio::Fence::Acquire),
                ]
            },
            !(queue.used.0.index == old(self).virt_device().starting_used_index() && old(self).virt_device().timeout() > 0) ==> {
                &&& final(self).virt_device().timeout() == old(self).virt_device().timeout()
                &&& step matches Step::Finished(result) && result == if old(self).virt_device().timeout() == 0 {
                    Err(VirtIoError::Timeout)
                } else {
                    crate::boot::virtio::status_result(queue.read_status)
                }
            },
    {
        self.virt_device.poll(queue)
    }

    /// The registers of the disk.
    pub fn get_registers(&self) -> (registers: Registers)
        ensures
            registers == self.registers(),
    {
        self.registers
    }

    /// The interrupt of the disk.
    pub fn get_interrupts(&self) -> (interrupts: u32)
        ensures
            interrupts == self.interrupts(),
    {
        self.interrupts
    }

    /// The interrupt controller of the disk.
    pub fn get_interrupt_parent(&self) -> (interrupt_parent: u32)
        ensures
            interrupt_parent == self.interrupt_parent(),
    {
        self.interrupt_parent
    }

    /// The partition that the loader boots from, found in sector 0 of the
    /// disk: the first partition of a valid master boot record that is
    /// marked bootable and holds a FAT32 file system.
    pub fn find_bootable_partition(&mut self, sector: &[u8; 512]) -> (partition: Option<
        LegacyPartition,
    >)
        ensures
            final(self).registers() == old(self).registers(),
            final(self).interrupts() == old(self).interrupts(),
            final(self).interrupt_parent() == old(self).interrupt_parent(),
            final(self).virt_device() == old(self).virt_device(),
            partition == if le16(sector@, 510) == 0xAA55 {
                first_bootable(records_of(sector@), 0)
            } else {
                None
            },
    {
        let mbr = MasterBootRecord::new(sector);
        if !mbr.is_valid() {
            return None;
        }
        let partition = mbr.bootable_partition();
        self.mbr = Some(mbr);
        partition
    }

    /// The number in a property of four bytes.
    pub fn property_to_u32(prop_value: &[u8]) -> (value: u32)
        requires
            prop_value@.len() == 4,
        ensures
            value == be32(prop_value@, 0),
    {
        read_be32(prop_value, 0)
    }

    /// The number in a property of eight bytes.
    pub fn property_to_u64(prop_value: &[u8]) -> (value: u64)
        requires
            prop_value@.len() == 8,
        ensures
            value == be64(prop_value@, 0),
    {
        read_be64(prop_value, 0)
    }

    /// Whether one of the strings of a `compatible` property is `target`.
    /// The strings are set off by zero bytes.
    pub fn is_compatible(prop_value: &[u8], target: &[u8]) -> (compatible: bool)
        ensures
            compatible == is_compatible_spec(prop_value@, target@),
    {
        let length = prop_value.len();
        let mut start: usize = 0;
        while start < length
            invariant
                start <= length,
                length == prop_value@.len(),
                start == 0 || start == length || prop_value@[start - 1] == 0,
                forall|i: int, j: int|
                    #[trigger] is_piece(prop_value@, i, j) && j <= start ==> prop_value@.subrange(
                        i,
                        j,
                    ) != target@,
                forall|i: int, j: int|
                    #[trigger] is_piece(prop_value@, i, j) ==> j <= start || i >= start,
            decreases length - start,
        {
            let mut end: usize = start;
            while end < length && prop_value[end] != 0
                invariant
                    start <= end <= length,
                    length == prop_value@.len(),
                    forall|k: int| start <= k < end ==> prop_value@[k] != 0,
                decreases length - end,
            {
                end += 1;
            }
            if end > start {
                assert(is_piece(prop_value@, start as int, end as int));
                let piece = vstd::slice::slice_subrange(prop_value, start, end);
                if same_bytes(piece, target) {
                    return true;
                }
            }
            proof {
                assert forall|i: int, j: int| #[trigger]
                    is_piece(prop_value@, i, j) implies (j <= end || i > end) && (j <= end
                    ==> prop_value@.subrange(i, j) != target@) by {
                    if !(j <= start) {
                        assert(i >= start);
                        if i == start {
                            if j < end {
                                assert(prop_value@[j] == 0);
                            } else if j > end {
                                assert(prop_value@[end as int] != 0);
                            }
                        } else {
                            assert(prop_value@[i - 1] == 0);
                            assert(i - 1 >= end);
                        }
                    }
                }
            }
            if end == length {
                start = length;
            } else {
                start = end + 1;
            }
        }
        proof {
            assert forall|i: int, j: int| #[trigger] is_piece(prop_value@, i, j) implies j
                <= start by {}
        }
        false
    }
}

/// What a node says of a VirtIO device, where it stands for one: a node of
/// the kind `virtio_mmio` whose properties can be read, that is compatible
/// with `virtio,mmio`, and whose registers have addresses.
pub open spec fn candidate_spec(tree: DeviceTree, block: Block) -> Result<
    Option<DriveNode>,
    DriveError,
> {
    if !is_virtio_node(tree@, block) {
        Ok(None)
    } else {
        match tree.properties_from(block.offset as int) {
            Err(e) => Err(DriveError::Tree(e)),
            Ok(properties) => match drive_node_upto(tree@, properties, properties.len() as int) {
                Err(e) => Err(e),
                Ok(node) => if node.compatible && node.registers.base + 0x200 <= u64::MAX {
                    Ok(Some(node))
                } else {
                    Ok(None)
                },
            },
        }
    }
}

/// The first of the nodes from place `from` on that stands for a VirtIO
/// device, with its place.
pub open spec fn drives_from(tree: DeviceTree, blocks: Seq<Block>, from: int) -> Result<
    Option<(usize, DriveNode)>,
    DriveError,
>
    decreases blocks.len() - from,
{
    if from < 0 || from >= blocks.len() {
        Ok(None)
    } else {
        match candidate_spec(tree, blocks[from]) {
            Err(e) => Err(e),
            Ok(Some(node)) => Ok(Some((from as usize, node))),
            Ok(None) => drives_from(tree, blocks, from + 1),
        }
    }
}

/// The first node of the tree from place `skip` on that stands for a
/// VirtIO device.
pub open spec fn first_drive_spec(tree: DeviceTree, skip: int) -> Result<
    Option<(usize, DriveNode)>,
    DriveError,
> {
    match tree.blocks_from(0) {
        Err(e) => Err(DriveError::Tree(e)),
        Ok(blocks) => drives_from(tree, blocks, skip),
    }
}

/// An error in one property is the error of the whole node.
pub proof fn lemma_drive_error(tree: Seq<u8>, properties: Seq<Property>, count: int)
    requires
        0 < count <= properties.len(),
        drive_node_upto(tree, properties, count) is Err,
    ensures
        drive_node_upto(tree, properties, properties.len() as int) == drive_node_upto(
            tree,
            properties,
            count,
        ),
    decreases properties.len() - count,
{
    if count < properties.len() {
        lemma_drive_error(tree, properties, count + 1);
    }
}

} // verus!
