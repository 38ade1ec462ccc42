//! The VirtIO block device over memory-mapped registers: the register map,
//! the split virtqueue, and the driver that sets the device up and reads
//! sectors from it by polling.
//!
//! The device is not touched here. The driver says which register accesses
//! and fences are to be made, in which order, and is handed what the reads
//! gave; the code that owns the device makes them.

use vstd::prelude::*;

verus! {

/// Offset of the magic value, `virt` in ASCII.
pub const MAGIC_VALUE: u64 = 0x000;

/// Offset of the device version, 1 or 2.
pub const VERSION: u64 = 0x004;

/// Offset of the device type; 2 is a block device.
pub const DEVICE_ID: u64 = 0x008;

/// Offset of the vendor identifier.
pub const VENDOR_ID: u64 = 0x00C;

/// Offset of the selected half of the device's feature bits.
pub const DEVICE_FEATURES: u64 = 0x010;

/// Offset of the selector for the device's feature bits.
pub const DEVICE_FEATURES_SEL: u64 = 0x014;

/// Offset of the selected half of the driver's feature bits.
pub const DRIVER_FEATURES: u64 = 0x020;

/// Offset of the selector for the driver's feature bits.
pub const DRIVER_FEATURES_SEL: u64 = 0x024;

/// Offset of the queue selector.
pub const QUEUE_SEL: u64 = 0x030;

/// Offset of the largest size of the selected queue.
pub const QUEUE_NUM_MAX: u64 = 0x034;

/// Offset of the size of the selected queue.
pub const QUEUE_NUM: u64 = 0x038;

/// Offset of the register that switches the selected queue on.
pub const QUEUE_READY: u64 = 0x044;

/// Offset of the register that tells the device of new requests.
pub const QUEUE_NOTIFY: u64 = 0x050;

/// Offset of the pending interrupts.
pub const INTERRUPT_STATUS: u64 = 0x060;

/// Offset of the register that acknowledges interrupts.
pub const INTERRUPT_ACK: u64 = 0x064;

/// Offset of the device status.
pub const STATUS: u64 = 0x070;

/// Offset of the low half of the address of the descriptor table.
pub const QUEUE_DESC_LOW: u64 = 0x080;

/// Offset of the high half of the address of the descriptor table.
pub const QUEUE_DESC_HIGH: u64 = 0x084;

/// Offset of the low half of the address of the available ring.
pub const QUEUE_AVAIL_LOW: u64 = 0x090;

/// Offset of the high half of the address of the available ring.
pub const QUEUE_AVAIL_HIGH: u64 = 0x094;

/// Offset of the low half of the address of the used ring.
pub const QUEUE_USED_LOW: u64 = 0x0A0;

/// Offset of the high half of the address of the used ring.
pub const QUEUE_USED_HIGH: u64 = 0x0A4;

/// Offset of the generation count of the configuration.
pub const CONFIG_GENERATION: u64 = 0x0FC;

/// Offset of the configuration of the device type.
pub const DEVICE_CONFIG: u64 = 0x100;

/// Offset of the low half of the number of sectors.
pub const TOTAL_SECTOR_COUNT_LOW: u64 = 0x100;

/// Offset of the high half of the number of sectors.
pub const TOTAL_SECTOR_COUNT_HIGH: u64 = 0x104;

/// Offset of the largest segment size.
pub const MAX_SEGMENT_SIZE: u64 = 0x108;

/// Offset of the largest number of segments.
pub const MAX_SEGMENT_COUNT: u64 = 0x10c;

/// Offset of the number of cylinders.
pub const CYLINDER_COUNT: u64 = 0x110;

/// Offset of the number of heads.
pub const HEAD_COUNT: u64 = 0x112;

/// Offset of the number of sectors of a track.
pub const SECTOR_COUNT: u64 = 0x113;

/// Offset of the block length.
pub const BLOCK_LENGTH: u64 = 0x114;

/// The size of a sector in bytes.
pub const SECTOR_SIZE: usize = 512;

/// The magic value of a VirtIO device.
pub const VIRTIO_MMIO_MAGIC: u32 = 0x74726976;

/// The device type of a block device.
pub const VIRTIO_BLOCK_DEVICE_ID: u32 = 2;

/// Status bit: the driver has seen the device.
pub const VIRTIO_CONFIG_S_ACKNOWLEDGE: u32 = 0x01;

/// Status bit: the driver can drive the device.
pub const VIRTIO_CONFIG_S_DRIVER: u32 = 0x02;

/// Status bit: the driver is set up.
pub const VIRTIO_CONFIG_S_DRIVER_OK: u32 = 0x04;

/// Status bit: the features are agreed.
pub const VIRTIO_CONFIG_S_FEATURES_OK: u32 = 0x08;

/// Status bit: the driver has given up.
pub const VIRTIO_CONFIG_S_FAILED: u32 = 0x80;

/// Request type: read.
pub const VIRTIO_BLK_T_IN: u32 = 0;

/// Request type: write.
pub const VIRTIO_BLK_T_OUT: u32 = 1;

/// Feature bit: the device is read-only.
pub const VIRTIO_BLK_F_RO: u32 = 5;

/// Feature bit: SCSI commands.
pub const VIRTIO_BLK_F_SCSI: u32 = 7;

/// Feature bit: the cache mode can be set.
pub const VIRTIO_BLK_F_CONFIG_WCE: u32 = 11;

/// Feature bit: more than one queue.
pub const VIRTIO_BLK_F_MQ: u32 = 12;

/// Feature bit: any descriptor layout.
pub const VIRTIO_F_ANY_LAYOUT: u32 = 27;

/// Feature bit: indirect descriptors.
pub const VIRTIO_RING_F_INDIRECT_DESC: u32 = 28;

/// Feature bit: event indices.
pub const VIRTIO_RING_F_EVENT_IDX: u32 = 29;

/// The feature bits that the driver never takes: read-only, SCSI, cache
/// mode, several queues, any layout, indirect descriptors, event indices.
pub const REJECTED_FEATURES: u64 = 0x3800_18A0;

/// Flag of the available ring: the driver wants no interrupts.
pub const VIRTQ_AVAIL_F_NO_INTERRUPT: u16 = 1;

/// Flag of the used ring: the device wants no notifications.
pub const VIRTQ_USED_F_NO_NOTIFY: u16 = 1;

/// Descriptor flag: the chain goes on with the descriptor `next`.
pub const VIRTQ_DESC_F_NEXT: u16 = 1;

/// Descriptor flag: the device writes to the buffer.
pub const VIRTQ_DESC_F_WRITE: u16 = 2;

/// The number of descriptors of the queue.
pub const QUEUE_SIZE: usize = 8;

/// The size of a page, to which the parts of the queue are aligned.
pub const PAGE_SIZE: usize = 4096;

/// The number of times that the driver looks for the completion of a
/// request before it gives up.
pub const POLL_LIMIT: u32 = 10_000_000;

/// The status that the driver puts in place before a request, and that no
/// device answers with.
pub const STATUS_PENDING: u8 = 0xff;

/// A memory fence.
#[derive(Clone, Copy, PartialEq, Eq, Structural, Debug)]
pub enum Fence {
    /// No access moves across the fence.
    SeqCst,
    /// No access before the fence moves behind it.
    Release,
    /// No access behind the fence moves before it.
    Acquire,
}

/// One thing that the owner of the device does for the driver.
#[derive(Clone, Copy, PartialEq, Eq, Structural, Debug)]
pub enum DeviceOp {
    /// Read the 32-bit register at this address and hand its value on.
    Read(u64),
    /// Write the value to the 32-bit register at this address.
    Write(u64, u32),
    /// Make a memory fence.
    Fence(Fence),
    /// Make what the driver wrote to the queue visible to the device.
    Publish,
    /// Take over what the device wrote to the queue.
    Refresh,
    /// Let a moment pass.
    Pause,
}

/// Why the driver failed.
#[derive(Clone, Copy, PartialEq, Eq, Structural, Debug)]
pub enum VirtIoError {
    /// The registers are not those of a VirtIO block device.
    NotBlockDevice,
    /// The device did not accept the features that the driver chose.
    FeatureNegotiationFailed,
    /// Queue 0 is switched on already.
    QueueInUse,
    /// The device has no queue 0.
    QueueUnavailable,
    /// Queue 0 is too small for the driver.
    QueueTooSmall,
    /// The queue did not come on.
    QueueNotReady,
    /// The device did not complete the request in time.
    Timeout,
    /// The device answered the request with this status: 1 for a request
    /// that it does not support, 2 for a device that is not ready, 3 for
    /// an input or output error.
    DeviceError(u8),
}

/// What a step of the driver asks for.
pub enum Step {
    /// Do these things, in order, and come back with what the reads gave.
    Continue(Vec<DeviceOp>),
    /// The work is over.
    Finished(Result<(), VirtIoError>),
}

/// The number of reads among the operations.
pub open spec fn count_reads(ops: Seq<DeviceOp>) -> nat {
    count_reads_upto(ops, ops.len() as int)
}

/// The number of reads among the first `count` operations.
pub open spec fn count_reads_upto(ops: Seq<DeviceOp>, count: int) -> nat
    decreases count,
{
    if count <= 0 {
        0
    } else {
        count_reads_upto(ops, count - 1) + if ops[count - 1] is Read {
            1nat
        } else {
            0nat
        }
    }
}

/// A 32-bit register of a device.
#[derive(Clone, Copy, Debug)]
pub struct MmioRegister<const OFFSET: usize> {
    address: u64,
}

impl<const OFFSET: usize> MmioRegister<OFFSET> {
    /// Address of the register.
    pub closed spec fn address(&self) -> u64 {
        self.address
    }

    /// The register at its offset from the base address of the device.
    pub fn new(address: u64) -> (register: Self)
        requires
            address + OFFSET <= u64::MAX,
        ensures
            register.address() == address + OFFSET,
    {
        MmioRegister { address: address + OFFSET as u64 }
    }

    /// The read of the register.
    pub fn read(&self) -> (op: DeviceOp)
        ensures
            op == DeviceOp::Read(self.address()),
    {
        DeviceOp::Read(self.address)
    }

    /// The write of `value` to the register.
    pub fn write(&self, value: u32) -> (op: DeviceOp)
        ensures
            op == DeviceOp::Write(self.address(), value),
    {
        DeviceOp::Write(self.address, value)
    }
}

/// The low half of a 64-bit number.
pub open spec fn low_half(value: u64) -> u32 {
    (value % 0x1_0000_0000) as u32
}

/// The high half of a 64-bit number.
pub open spec fn high_half(value: u64) -> u32 {
    (value / 0x1_0000_0000) as u32
}

/// The 64-bit number with the given halves.
pub open spec fn join_halves(low: u32, high: u32) -> u64 {
    (high * 0x1_0000_0000 + low) as u64
}

/// The writes that put a 64-bit value into a pair of registers: the low
/// half, a fence, the high half.
pub open spec fn write_pair(low_address: u64, high_address: u64, value: u64) -> Seq<DeviceOp> {
    seq![
        DeviceOp::Write(low_address, low_half(value)),
        DeviceOp::Fence(Fence::SeqCst),
        DeviceOp::Write(high_address, high_half(value)),
    ]
}

/// The operations that select one half of a feature word and read or write
/// it: the selector, a fence, the access.
pub open spec fn select_then(selector: u64, select: u32, access: DeviceOp) -> Seq<DeviceOp> {
    seq![DeviceOp::Write(selector, select), DeviceOp::Fence(Fence::SeqCst), access]
}

/// The registers of a VirtIO device.
#[derive(Clone, Copy, Debug)]
pub struct MmioDevice {
    base: u64,
}

impl MmioDevice {
    /// Address of the first register.
    pub closed spec fn base(&self) -> u64 {
        self.base
    }

    /// What holds of every device: its registers have addresses.
    pub open spec fn wf(&self) -> bool {
        self.base() + 0x200 <= u64::MAX
    }

    /// The device whose registers start at `base_address`.
    pub fn new(base_address: u64) -> (device: Self)
        requires
            base_address + 0x200 <= u64::MAX,
        ensures
            device.base() == base_address,
            device.wf(),
    {
        MmioDevice { base: base_address }
    }

    /// The read of the register at `offset`.
    pub fn read_at(&self, offset: u64) -> (op: DeviceOp)
        requires
            self.wf(),
            offset < 0x200,
        ensures
            op == DeviceOp::Read((self.base() + offset) as u64),
    {
        DeviceOp::Read(self.base + offset)
    }

    /// The write of `value` to the register at `offset`.
    pub fn write_at(&self, offset: u64, value: u32) -> (op: DeviceOp)
        requires
            self.wf(),
            offset < 0x200,
        ensures
            op == DeviceOp::Write((self.base() + offset) as u64, value),
    {
        DeviceOp::Write(self.base + offset, value)
    }

    /// The read of the magic value.
    pub fn magic(&self) -> (op: DeviceOp)
        requires
            self.wf(),
        ensures
            op == DeviceOp::Read((self.base() + MAGIC_VALUE) as u64),
    {
        self.read_at(MAGIC_VALUE)
    }

    /// The read of the device version.
    pub fn version(&self) -> (op: DeviceOp)
        requires
            self.wf(),
        ensures
            op == DeviceOp::Read((self.base() + VERSION) as u64),
    {
        self.read_at(VERSION)
    }

    /// The read of the device type.
    pub fn device_id(&self) -> (op: DeviceOp)
        requires
            self.wf(),
        ensures
            op == DeviceOp::Read((self.base() + DEVICE_ID) as u64),
    {
        self.read_at(DEVICE_ID)
    }

    /// The read of the vendor identifier.
    pub fn vendor_id(&self) -> (op: DeviceOp)
        requires
            self.wf(),
        ensures
            op == DeviceOp::Read((self.base() + VENDOR_ID) as u64),
    {
        self.read_at(VENDOR_ID)
    }

    /// The read of one half of the device's feature bits: the selector, a
    /// fence, the read.
    pub fn device_features_partial(&self, select: u32) -> (ops: Vec<DeviceOp>)
        requires
            self.wf(),
        ensures
            ops@ == select_then(
                (self.base() + DEVICE_FEATURES_SEL) as u64,
                select,
                DeviceOp::Read((self.base() + DEVICE_FEATURES) as u64),
            ),
    {
        let mut ops: Vec<DeviceOp> = Vec::new();
        ops.push(self.write_at(DEVICE_FEATURES_SEL, select));
        ops.push(DeviceOp::Fence(Fence::SeqCst));
        ops.push(self.read_at(DEVICE_FEATURES));
        assert(ops@ =~= select_then(
            (self.base() + DEVICE_FEATURES_SEL) as u64,
            select,
            DeviceOp::Read((self.base() + DEVICE_FEATURES) as u64),
        ));
        ops
    }

    /// The device's feature bits, from their two halves.
    pub fn device_features(low: u32, high: u32) -> (features: u64)
        ensures
            features == join_halves(low, high),
    {
        (high as u64) * 0x1_0000_0000 + (low as u64)
    }

    /// The write of one half of the driver's feature bits: the selector, a
    /// fence, the write.
    pub fn set_driver_features_partial(&self, select: u32, features: u32) -> (ops: Vec<DeviceOp>)
        requires
            self.wf(),
        ensures
            ops@ == select_then(
                (self.base() + DRIVER_FEATURES_SEL) as u64,
                select,
                DeviceOp::Write((self.base() + DRIVER_FEATURES) as u64, features),
            ),
    {
        let mut ops: Vec<DeviceOp> = Vec::new();
        ops.push(self.write_at(DRIVER_FEATURES_SEL, select));
        ops.push(DeviceOp::Fence(Fence::SeqCst));
        ops.push(self.write_at(DRIVER_FEATURES, features));
        assert(ops@ =~= select_then(
            (self.base() + DRIVER_FEATURES_SEL) as u64,
            select,
            DeviceOp::Write((self.base() + DRIVER_FEATURES) as u64, features),
        ));
        ops
    }

    /// The writes of the driver's feature bits: the low half, then the
    /// high half.
    pub fn set_driver_features(&self, features: u64) -> (ops: Vec<DeviceOp>)
        requires
            self.wf(),
        ensures
            ops@ == select_then(
                (self.base() + DRIVER_FEATURES_SEL) as u64,
                0,
                DeviceOp::Write((self.base() + DRIVER_FEATURES) as u64, low_half(features)),
            ) + select_then(
                (self.base() + DRIVER_FEATURES_SEL) as u64,
                1,
                DeviceOp::Write((self.base() + DRIVER_FEATURES) as u64, high_half(features)),
            ),
    {
        let low = (features % 0x1_0000_0000) as u32;
        let high = (features / 0x1_0000_0000) as u32;
        let mut ops = self.set_driver_features_partial(0, low);
        let mut second = self.set_driver_features_partial(1, high);
        ops.append(&mut second);
        ops
    }

    /// The write that selects a queue.
    pub fn set_queue_select(&self, select: u32) -> (op: DeviceOp)
        requires
            self.wf(),
        ensures
            op == DeviceOp::Write((self.base() + QUEUE_SEL) as u64, select),
    {
        self.write_at(QUEUE_SEL, select)
    }

    /// The read of the largest size of the selected queue.
    pub fn queue_num_max(&self) -> (op: DeviceOp)
        requires
            self.wf(),
        ensures
            op == DeviceOp::Read((self.base() + QUEUE_NUM_MAX) as u64),
    {
        self.read_at(QUEUE_NUM_MAX)
    }

    /// The write of the size of the selected queue.
    pub fn set_queue_num(&self, num: u32) -> (op: DeviceOp)
        requires
            self.wf(),
        ensures
            op == DeviceOp::Write((self.base() + QUEUE_NUM) as u64, num),
    {
        self.write_at(QUEUE_NUM, num)
    }

    /// The read that tells whether the selected queue is on: it is unless
    /// the value is zero.
    pub fn queue_ready(&self) -> (op: DeviceOp)
        requires
            self.wf(),
        ensures
            op == DeviceOp::Read((self.base() + QUEUE_READY) as u64),
    {
        self.read_at(QUEUE_READY)
    }

    /// The write that switches the selected queue on or off.
    pub fn set_queue_ready(&self, ready: bool) -> (op: DeviceOp)
        requires
            self.wf(),
        ensures
            op == DeviceOp::Write(
                (self.base() + QUEUE_READY) as u64,
                if ready {
                    1u32
                } else {
                    0u32
                },
            ),
    {
        self.write_at(
            QUEUE_READY,
            if ready {
                1
            } else {
                0
            },
        )
    }

    /// What tells the device of new requests in a queue: a release fence,
    /// then the write of the queue's number.
    pub fn notify_queue(&self, queue: u32) -> (ops: Vec<DeviceOp>)
        requires
            self.wf(),
        ensures
            ops@ == seq![
                DeviceOp::Fence(Fence::Release),
                DeviceOp::Write((self.base() + QUEUE_NOTIFY) as u64, queue),
            ],
    {
        let mut ops: Vec<DeviceOp> = Vec::new();
        ops.push(DeviceOp::Fence(Fence::Release));
        ops.push(self.write_at(QUEUE_NOTIFY, queue));
        assert(ops@ =~= seq![
            DeviceOp::Fence(Fence::Release),
            DeviceOp::Write((self.base() + QUEUE_NOTIFY) as u64, queue),
        ]);
        ops
    }

    /// The read of the pending interrupts.
    pub fn interrupt_status(&self) -> (op: DeviceOp)
        requires
            self.wf(),
        ensures
            op == DeviceOp::Read((self.base() + INTERRUPT_STATUS) as u64),
    {
        self.read_at(INTERRUPT_STATUS)
    }

    /// The write that acknowledges interrupts.
    pub fn interrupt_ack(&self, status: u32) -> (op: DeviceOp)
        requires
            self.wf(),
        ensures
            op == DeviceOp::Write((self.base() + INTERRUPT_ACK) as u64, status),
    {
        self.write_at(INTERRUPT_ACK, status)
    }

    /// The read of the device status.
    pub fn status(&self) -> (op: DeviceOp)
        requires
            self.wf(),
        ensures
            op == DeviceOp::Read((self.base() + STATUS) as u64),
    {
        self.read_at(STATUS)
    }

    /// The write of the device status.
    pub fn set_status(&self, value: u32) -> (op: DeviceOp)
        requires
            self.wf(),
        ensures
            op == DeviceOp::Write((self.base() + STATUS) as u64, value),
    {
        self.write_at(STATUS, value)
    }

    /// The write that adds bits to the device status, which was read as
    /// `current`.
    pub fn add_status(&self, current: u32, value: u32) -> (op: DeviceOp)
        requires
            self.wf(),
        ensures
            op == DeviceOp::Write((self.base() + STATUS) as u64, current | value),
    {
        self.write_at(STATUS, current | value)
    }

    /// The writes of the address of the descriptor table.
    pub fn set_queue_descriptors(&self, address: u64) -> (ops: Vec<DeviceOp>)
        requires
            self.wf(),
        ensures
            ops@ == write_pair(
                (self.base() + QUEUE_DESC_LOW) as u64,
                (self.base() + QUEUE_DESC_HIGH) as u64,
                address,
            ),
    {
        self.write_halves(QUEUE_DESC_LOW, QUEUE_DESC_HIGH, address)
    }

    /// The writes of the address of the available ring.
    pub fn set_queue_available(&self, address: u64) -> (ops: Vec<DeviceOp>)
        requires
            self.wf(),
        ensures
            ops@ == write_pair(
                (self.base() + QUEUE_AVAIL_LOW) as u64,
                (self.base() + QUEUE_AVAIL_HIGH) as u64,
                address,
            ),
    {
        self.write_halves(QUEUE_AVAIL_LOW, QUEUE_AVAIL_HIGH, address)
    }

    /// The writes of the address of the used ring.
    pub fn set_queue_used(&self, address: u64) -> (ops: Vec<DeviceOp>)
        requires
            self.wf(),
        ensures
            ops@ == write_pair(
                (self.base() + QUEUE_USED_LOW) as u64,
                (self.base() + QUEUE_USED_HIGH) as u64,
                address,
            ),
    {
        self.write_halves(QUEUE_USED_LOW, QUEUE_USED_HIGH, address)
    }

    /// The writes of a 64-bit value to a pair of registers: the low half,
    /// a fence, the high half.
    pub fn write_halves(&self, low_offset: u64, high_offset: u64, value: u64) -> (ops: Vec<
        DeviceOp,
    >)
        requires
            self.wf(),
            low_offset < 0x200,
            high_offset < 0x200,
        ensures
            ops@ == write_pair(
                (self.base() + low_offset) as u64,
                (self.base() + high_offset) as u64,
                value,
            ),
    {
        let mut ops: Vec<DeviceOp> = Vec::new();
        ops.push(self.write_at(low_offset, (value % 0x1_0000_0000) as u32));
        ops.push(DeviceOp::Fence(Fence::SeqCst));
        ops.push(self.write_at(high_offset, (value / 0x1_0000_0000) as u32));
        assert(ops@ =~= write_pair(
            (self.base() + low_offset) as u64,
            (self.base() + high_offset) as u64,
            value,
        ));
        ops
    }

    /// The reads of the number of sectors: the low half, then the high
    /// half.
    pub fn total_sector_count_reads(&self) -> (ops: Vec<DeviceOp>)
        requires
            self.wf(),
        ensures
            ops@ == seq![
                DeviceOp::Read((self.base() + TOTAL_SECTOR_COUNT_LOW) as u64),
                DeviceOp::Read((self.base() + TOTAL_SECTOR_COUNT_HIGH) as u64),
            ],
    {
        let mut ops: Vec<DeviceOp> = Vec::new();
        ops.push(self.read_at(TOTAL_SECTOR_COUNT_LOW));
        ops.push(self.read_at(TOTAL_SECTOR_COUNT_HIGH));
        assert(ops@ =~= seq![
            DeviceOp::Read((self.base() + TOTAL_SECTOR_COUNT_LOW) as u64),
            DeviceOp::Read((self.base() + TOTAL_SECTOR_COUNT_HIGH) as u64),
        ]);
        ops
    }

    /// The number of sectors, from its two halves.
    pub fn total_sector_count(low: u32, high: u32) -> (sectors: u64)
        ensures
            sectors == join_halves(low, high),
    {
        (high as u64) * 0x1_0000_0000 + (low as u64)
    }

    /// The read of the largest segment size.
    pub fn max_segment_size(&self) -> (op: DeviceOp)
        requires
            self.wf(),
        ensures
            op == DeviceOp::Read((self.base() + MAX_SEGMENT_SIZE) as u64),
    {
        self.read_at(MAX_SEGMENT_SIZE)
    }

    /// The read of the largest number of segments.
    pub fn max_segment_count(&self) -> (op: DeviceOp)
        requires
            self.wf(),
        ensures
            op == DeviceOp::Read((self.base() + MAX_SEGMENT_COUNT) as u64),
    {
        self.read_at(MAX_SEGMENT_COUNT)
    }

    /// The read of the word that holds the number of cylinders in its low
    /// 16 bits.
    pub fn cylinder_count(&self) -> (op: DeviceOp)
        requires
            self.wf(),
        ensures
            op == DeviceOp::Read((self.base() + CYLINDER_COUNT) as u64),
    {
        self.read_at(CYLINDER_COUNT)
    }

    /// The read of the word that holds the number of heads in its low 8
    /// bits.
    pub fn head_count(&self) -> (op: DeviceOp)
        requires
            self.wf(),
        ensures
            op == DeviceOp::Read((self.base() + HEAD_COUNT) as u64),
    {
        self.read_at(HEAD_COUNT)
    }

    /// The read of the word that holds the number of sectors of a track in
    /// its low 8 bits.
    pub fn sector_count(&self) -> (op: DeviceOp)
        requires
            self.wf(),
        ensures
            op == DeviceOp::Read((self.base() + SECTOR_COUNT) as u64),
    {
        self.read_at(SECTOR_COUNT)
    }

    /// The read of the block length.
    pub fn block_length(&self) -> (op: DeviceOp)
        requires
            self.wf(),
        ensures
            op == DeviceOp::Read((self.base() + BLOCK_LENGTH) as u64),
    {
        self.read_at(BLOCK_LENGTH)
    }
}

/// One descriptor of the queue: a buffer, and where the chain goes on.
#[derive(Clone, Copy, PartialEq, Eq, Structural, Debug)]
pub struct Descriptor {
    /// Physical address of the buffer.
    pub address: u64,
    /// Length of the buffer in bytes.
    pub length: u32,
    /// `VIRTQ_DESC_F_NEXT`, `VIRTQ_DESC_F_WRITE`, both or neither.
    pub flags: u16,
    /// Index of the next descriptor of the chain.
    pub next: u16,
}

impl Descriptor {
    /// The all-zero descriptor.
    pub fn zeroed() -> (descriptor: Self)
        ensures
            descriptor == (Descriptor { address: 0, length: 0, flags: 0, next: 0 }),
    {
        Descriptor { address: 0, length: 0, flags: 0, next: 0 }
    }
}

/// The ring in which the driver offers chains to the device.
#[derive(Clone, Copy, Debug)]
pub struct AvailableRing {
    pub flags: u16,
    /// Counts the chains offered so far, modulo 2^16.
    pub index: u16,
    /// The heads of the chains offered.
    pub ring: [u16; 8],
    pub unused: u16,
}

impl AvailableRing {
    /// The all-zero ring.
    pub fn zeroed() -> (ring: Self)
        ensures
            ring.flags == 0,
            ring.index == 0,
            ring.unused == 0,
            forall|i: int| 0 <= i < 8 ==> ring.ring[i] == 0,
    {
        AvailableRing { flags: 0, index: 0, ring: [0u16; 8], unused: 0 }
    }
}

/// One entry of the used ring: a chain that the device is done with.
#[derive(Clone, Copy, PartialEq, Eq, Structural, Debug)]
pub struct UsedItem {
    /// Index of the head of the chain.
    pub id: u32,
    /// Number of bytes that the device wrote.
    pub length: u32,
}

impl UsedItem {
    /// The all-zero entry.
    pub fn zeroed() -> (item: Self)
        ensures
            item == (UsedItem { id: 0, length: 0 }),
    {
        UsedItem { id: 0, length: 0 }
    }
}

/// The ring in which the device hands chains back.
#[derive(Clone, Copy, Debug)]
pub struct UsedRing {
    pub flags: u16,
    /// Counts the chains handed back so far, modulo 2^16.
    pub index: u16,
    /// The chains handed back.
    pub ring: [UsedItem; 8],
    pub unused: u16,
}

impl UsedRing {
    /// The all-zero ring.
    pub fn zeroed() -> (ring: Self)
        ensures
            ring.flags == 0,
            ring.index == 0,
            ring.unused == 0,
            forall|i: int| 0 <= i < 8 ==> ring.ring[i] == (UsedItem { id: 0, length: 0 }),
    {
        UsedRing { flags: 0, index: 0, ring: [UsedItem { id: 0, length: 0 }; 8], unused: 0 }
    }
}

/// The header of a request to a block device. On the wire it is followed
/// by the data and by one byte of status.
#[derive(Clone, Copy, PartialEq, Eq, Structural, Debug)]
pub struct BlockRequest {
    /// `VIRTIO_BLK_T_IN` to read, `VIRTIO_BLK_T_OUT` to write.
    pub request_type: u32,
    /// Zero.
    pub reserved: u32,
    /// Number of the sector.
    pub sector: u64,
}

impl BlockRequest {
    /// The request of the given type for the given sector.
    pub fn new(request_type: u32, sector: u64) -> (request: Self)
        ensures
            request == (BlockRequest { request_type: request_type, reserved: 0, sector: sector }),
    {
        BlockRequest { request_type, reserved: 0, sector }
    }

    /// The all-zero request.
    pub fn zeroed() -> (request: Self)
        ensures
            request == (BlockRequest { request_type: 0, reserved: 0, sector: 0 }),
    {
        BlockRequest { request_type: 0, reserved: 0, sector: 0 }
    }
}

/// The descriptor table, which lies on a page boundary.
#[derive(Clone, Copy, Debug)]
pub struct AlignedDescriptors(pub [Descriptor; 8]);

impl AlignedDescriptors {
    /// The all-zero table.
    pub fn zeroed() -> (table: Self)
        ensures
            forall|i: int|
                0 <= i < 8 ==> table.0[i] == (Descriptor { address: 0, length: 0, flags: 0, next: 0 }),
    {
        AlignedDescriptors([Descriptor { address: 0, length: 0, flags: 0, next: 0 }; 8])
    }
}

/// The available ring, which lies on a page boundary.
#[derive(Clone, Copy, Debug)]
pub struct AlignedAvailableRing(pub AvailableRing);

impl AlignedAvailableRing {
    /// The all-zero ring.
    pub fn zeroed() -> (ring: Self)
        ensures
            ring.0.flags == 0,
            ring.0.index == 0,
            ring.0.unused == 0,
            forall|i: int| 0 <= i < 8 ==> ring.0.ring[i] == 0,
    {
        AlignedAvailableRing(AvailableRing::zeroed())
    }
}

/// The used ring, which lies on a page boundary.
#[derive(Clone, Copy, Debug)]
pub struct AlignedUsedRing(pub UsedRing);

impl AlignedUsedRing {
    /// The all-zero ring.
    pub fn zeroed() -> (ring: Self)
        ensures
            ring.0.flags == 0,
            ring.0.index == 0,
            ring.0.unused == 0,
            forall|i: int| 0 <= i < 8 ==> ring.0.ring[i] == (UsedItem { id: 0, length: 0 }),
    {
        AlignedUsedRing(UsedRing::zeroed())
    }
}

/// The memory that the driver shares with the device: the descriptor
/// table, the two rings, and the byte in which the device leaves the
/// status of a request.
#[derive(Clone, Copy, Debug)]
pub struct VirtQueue {
    pub descriptors: AlignedDescriptors,
    pub available: AlignedAvailableRing,
    pub used: AlignedUsedRing,
    pub read_status: u8,
}

impl VirtQueue {
    /// The queue before its first use: all zero, with no status.
    pub fn new() -> (queue: Self)
        ensures
            queue.available.0.index == 0,
            queue.available.0.flags == 0,
            queue.used.0.index == 0,
            queue.used.0.flags == 0,
            queue.read_status == STATUS_PENDING,
            forall|i: int|
                0 <= i < 8 ==> queue.descriptors.0[i] == (Descriptor {
                    address: 0,
                    length: 0,
                    flags: 0,
                    next: 0,
                }),
    {
        VirtQueue {
            descriptors: AlignedDescriptors::zeroed(),
            available: AlignedAvailableRing::zeroed(),
            used: AlignedUsedRing::zeroed(),
            read_status: STATUS_PENDING,
        }
    }
}

/// Where the parts of the queue lie in physical memory.
#[derive(Clone, Copy, PartialEq, Eq, Structural, Debug)]
pub struct QueueAddresses {
    pub descriptors: u64,
    pub available: u64,
    pub used: u64,
}

/// How far the driver has come in setting the device up. Where a stage
/// waits for values, they are what the reads of the stage before gave.
#[derive(Clone, Copy, PartialEq, Eq, Structural, Debug)]
pub enum InitStage {
    /// No set-up is under way: none was begun, or the last one is over,
    /// well or badly.
    Start,
    /// The magic value, the version and the device type are being read.
    Probing,
    /// The device is reset and acknowledged; its status is being read.
    Acknowledged,
    /// The driver has announced itself; the features are being read.
    FeaturesRead,
    /// The driver's features are written; the status is being read.
    FeaturesWritten,
    /// The features are declared agreed; the status is being read back.
    FeaturesChecked,
    /// The device turned the features down; the status is being read.
    Failing,
    /// The failure is recorded in the status.
    Failed,
    /// Queue 0 is selected; whether it is on is being read.
    QueueSelected,
    /// The largest size of the queue is being read.
    QueueSized,
    /// The queue is installed; the pending interrupts are being read.
    QueueInstalled,
    /// The queue is switched on; the status is being read.
    Enabling,
    /// The driver is declared set up; whether the queue is on is being
    /// read back.
    Enabled,
}

/// The number of values that a stage waits for.
pub open spec fn expects(stage: InitStage) -> nat {
    match stage {
        InitStage::Start => 0,
        InitStage::Probing => 3,
        InitStage::Acknowledged => 1,
        InitStage::FeaturesRead => 2,
        InitStage::FeaturesWritten => 1,
        InitStage::FeaturesChecked => 1,
        InitStage::Failing => 1,
        InitStage::Failed => 0,
        InitStage::QueueSelected => 1,
        InitStage::QueueSized => 1,
        InitStage::QueueInstalled => 1,
        InitStage::Enabling => 1,
        InitStage::Enabled => 1,
    }
}

/// Whether the three values are those of a VirtIO block device: the magic
/// value, version 1 or 2, and the device type of a block device.
pub open spec fn is_block_device_spec(magic: u32, version: u32, device_id: u32) -> bool {
    magic == 0x74726976 && (version == 1 || version == 2) && device_id == 2
}

/// The features that the driver takes of those that the device offers:
/// all but the ones it never takes.
pub open spec fn negotiated(features: u64) -> u64 {
    features & !REJECTED_FEATURES
}

/// The driver takes none of the features that it rejects, and none that
/// the device does not offer.
pub proof fn lemma_negotiated(features: u64)
    by (bit_vector)
    ensures
        (features & !0x3800_18A0u64) & 0x3800_18A0u64 == 0,
        (features & !0x3800_18A0u64) | features == features,
        0x3800_18A0u64 == (1u64 << 5) | (1u64 << 7) | (1u64 << 11) | (1u64 << 12) | (1u64 << 27) | (
        1u64 << 28) | (1u64 << 29),
{
}

/// What a stage of the set-up does with the values that the reads of the
/// stage before gave: the next stage, and what it asks for.
pub open spec fn init_step(
    base: u64,
    addresses: QueueAddresses,
    stage: InitStage,
    reads: Seq<u32>,
) -> (InitStage, Result<Seq<DeviceOp>, Result<(), VirtIoError>>) {
    let at = |offset: u64| (base + offset) as u64;
    match stage {
        InitStage::Start => (
            InitStage::Probing,
            Ok(
                seq![
                    DeviceOp::Read(at(MAGIC_VALUE)),
                    DeviceOp::Read(at(VERSION)),
                    DeviceOp::Read(at(DEVICE_ID)),
                ],
            ),
        ),
        InitStage::Probing => if !is_block_device_spec(reads[0], reads[1], reads[2]) {
            (InitStage::Start, Err(Err(VirtIoError::NotBlockDevice)))
        } else {
            (
                InitStage::Acknowledged,
                Ok(
                    seq![
                        DeviceOp::Write(at(STATUS), 0),
                        DeviceOp::Write(at(STATUS), VIRTIO_CONFIG_S_ACKNOWLEDGE),
                        DeviceOp::Read(at(STATUS)),
                    ],
                ),
            )
        },
        InitStage::Acknowledged => (
            InitStage::FeaturesRead,
            Ok(
                seq![DeviceOp::Write(at(STATUS), reads[0] | VIRTIO_CONFIG_S_DRIVER)] + select_then(
                    at(DEVICE_FEATURES_SEL),
                    0,
                    DeviceOp::Read(at(DEVICE_FEATURES)),
                ) + select_then(at(DEVICE_FEATURES_SEL), 1, DeviceOp::Read(at(DEVICE_FEATURES))),
            ),
        ),
        InitStage::FeaturesRead => {
            let features = negotiated(join_halves(reads[0], reads[1]));
            (
                InitStage::FeaturesWritten,
                Ok(
                    select_then(
                        at(DRIVER_FEATURES_SEL),
                        0,
                        DeviceOp::Write(at(DRIVER_FEATURES), low_half(features)),
                    ) + select_then(
                        at(DRIVER_FEATURES_SEL),
                        1,
                        DeviceOp::Write(at(DRIVER_FEATURES), high_half(features)),
                    ) + seq![DeviceOp::Read(at(STATUS))],
                ),
            )
        },
        InitStage::FeaturesWritten => (
            InitStage::FeaturesChecked,
            Ok(
                seq![
                    DeviceOp::Write(at(STATUS), reads[0] | VIRTIO_CONFIG_S_FEATURES_OK),
                    DeviceOp::Read(at(STATUS)),
                ],
            ),
        ),
        InitStage::FeaturesChecked => if reads[0] & VIRTIO_CONFIG_S_FEATURES_OK == 0 {
            (InitStage::Failing, Ok(seq![DeviceOp::Read(at(STATUS))]))
        } else {
            (
                InitStage::QueueSelected,
                Ok(seq![DeviceOp::Write(at(QUEUE_SEL), 0), DeviceOp::Read(at(QUEUE_READY))]),
            )
        },
        InitStage::Failing => (
            InitStage::Failed,
            Ok(seq![DeviceOp::Write(at(STATUS), reads[0] | VIRTIO_CONFIG_S_FAILED)]),
        ),
        InitStage::Failed => (
            InitStage::Start,
            Err(Err(VirtIoError::FeatureNegotiationFailed)),
        ),
        InitStage::QueueSelected => if reads[0] != 0 {
            (InitStage::Start, Err(Err(VirtIoError::QueueInUse)))
        } else {
            (InitStage::QueueSized, Ok(seq![DeviceOp::Read(at(QUEUE_NUM_MAX))]))
        },
        InitStage::QueueSized => if reads[0] == 0 {
            (InitStage::Start, Err(Err(VirtIoError::QueueUnavailable)))
        } else if reads[0] < 8 {
            (InitStage::Start, Err(Err(VirtIoError::QueueTooSmall)))
        } else {
            (
                InitStage::QueueInstalled,
                Ok(
                    seq![DeviceOp::Write(at(QUEUE_NUM), 8)] + write_pair(
                        at(QUEUE_DESC_LOW),
                        at(QUEUE_DESC_HIGH),
                        addresses.descriptors,
                    ) + write_pair(at(QUEUE_AVAIL_LOW), at(QUEUE_AVAIL_HIGH), addresses.available)
                        + write_pair(at(QUEUE_USED_LOW), at(QUEUE_USED_HIGH), addresses.used)
                        + seq![DeviceOp::Publish, DeviceOp::Read(at(INTERRUPT_STATUS))],
                ),
            )
        },
        InitStage::QueueInstalled => (
            InitStage::Enabling,
            Ok(
                (if reads[0] != 0 {
                    seq![DeviceOp::Write(at(INTERRUPT_ACK), reads[0])]
                } else {
                    Seq::empty()
                }) + seq![
                    DeviceOp::Fence(Fence::Release),
                    DeviceOp::Write(at(QUEUE_READY), 1),
                    DeviceOp::Read(at(STATUS)),
                ],
            ),
        ),
        InitStage::Enabling => (
            InitStage::Enabled,
            Ok(
                seq![
                    DeviceOp::Write(at(STATUS), reads[0] | VIRTIO_CONFIG_S_DRIVER_OK),
                    DeviceOp::Read(at(QUEUE_READY)),
                ],
            ),
        ),
        InitStage::Enabled => if reads[0] == 0 {
            (InitStage::Start, Err(Err(VirtIoError::QueueNotReady)))
        } else {
            (InitStage::Start, Err(Ok(())))
        },
    }
}

/// Whether a step is what the stage asks for: the same operations, or
/// the same end.
pub open spec fn step_matches(step: Step, expected: Result<Seq<DeviceOp>, Result<(), VirtIoError>>) -> bool {
    match (step, expected) {
        (Step::Continue(ops), Ok(wanted)) => ops@ == wanted,
        (Step::Finished(result), Err(wanted)) => result == wanted,
        _ => false,
    }
}

/// The status that a request ended with, as a result: 0 is success.
pub open spec fn status_result(status: u8) -> Result<(), VirtIoError> {
    if status == 0 {
        Ok(())
    } else {
        Err(VirtIoError::DeviceError(status))
    }
}

/// The driver of a VirtIO block device.
#[derive(Clone, Copy, Debug)]
pub struct VirtIoBlockDevice {
    mmio: MmioDevice,
    stage: InitStage,
    starting_used_index: u16,
    timeout: u32,
}

impl VirtIoBlockDevice {
    /// The registers of the device.
    pub closed spec fn mmio(&self) -> MmioDevice {
        self.mmio
    }

    /// How far the set-up has come.
    pub closed spec fn stage(&self) -> InitStage {
        self.stage
    }

    /// The index of the used ring before the request that is under way.
    pub closed spec fn starting_used_index(&self) -> u16 {
        self.starting_used_index
    }

    /// The number of times that the driver still looks for the completion
    /// of the request that is under way.
    pub closed spec fn timeout(&self) -> u32 {
        self.timeout
    }

    /// What holds of every driver.
    pub open spec fn wf(&self) -> bool {
        self.mmio().wf()
    }

    /// The driver of the device whose registers start at `base_address`.
    pub fn new(base_address: u64) -> (device: Self)
        requires
            base_address + 0x200 <= u64::MAX,
        ensures
            device.wf(),
            device.mmio().base() == base_address,
            device.stage() == InitStage::Start,
    {
        VirtIoBlockDevice {
            mmio: MmioDevice::new(base_address),
            stage: InitStage::Start,
            starting_used_index: 0,
            timeout: 0,
        }
    }

    /// The reads that tell whether the registers are those of a VirtIO
    /// block device: the magic value, the version and the device type.
    pub fn probe(&self) -> (ops: Vec<DeviceOp>)
        requires
            self.wf(),
        ensures
            ops@ == seq![
                DeviceOp::Read((self.mmio().base() + MAGIC_VALUE) as u64),
                DeviceOp::Read((self.mmio().base() + VERSION) as u64),
                DeviceOp::Read((self.mmio().base() + DEVICE_ID) as u64),
            ],
    {
        let mut ops: Vec<DeviceOp> = Vec::new();
        ops.push(self.mmio.magic());
        ops.push(self.mmio.version());
        ops.push(self.mmio.device_id());
        assert(ops@ =~= seq![
            DeviceOp::Read((self.mmio().base() + MAGIC_VALUE) as u64),
            DeviceOp::Read((self.mmio().base() + VERSION) as u64),
            DeviceOp::Read((self.mmio().base() + DEVICE_ID) as u64),
        ]);
        ops
    }

    /// Whether the three values are those of a VirtIO block device.
    pub fn is_block_device(magic: u32, version: u32, device_id: u32) -> (block: bool)
        ensures
            block == is_block_device_spec(magic, version, device_id),
    {
        magic == VIRTIO_MMIO_MAGIC && (version == 1 || version == 2) && device_id
            == VIRTIO_BLOCK_DEVICE_ID
    }

    /// The number of values that the next stage of the set-up waits for.
    pub fn expected_reads(&self) -> (count: usize)
        ensures
            count == expects(self.stage()),
    {
        match self.stage {
            InitStage::Start => 0,
            InitStage::Probing => 3,
            InitStage::Acknowledged => 1,
            InitStage::FeaturesRead => 2,
            InitStage::FeaturesWritten => 1,
            InitStage::FeaturesChecked => 1,
            InitStage::Failing => 1,
            InitStage::Failed => 0,
            InitStage::QueueSelected => 1,
            InitStage::QueueSized => 1,
            InitStage::QueueInstalled => 1,
            InitStage::Enabling => 1,
            InitStage::Enabled => 1,
        }
    }

    /// One stage of the set-up of the device. `reads` holds what the reads
    /// of the stage before gave, in their order. The first call asks for
    /// the probe of the device; each later call goes on from the answers,
    /// until the set-up is finished, well or badly.
    ///
    /// In order, the stages reset the device and acknowledge it, announce
    /// the driver, read the features and write back those that the driver
    /// takes, have the device confirm them, check that queue 0 is off and
    /// large enough, install the queue with its interrupts and
    /// notifications switched off, acknowledge pending interrupts, switch
    /// the queue on, and declare the driver set up.
    pub fn initialize(&mut self, queue: &mut VirtQueue, addresses: &QueueAddresses, reads: &[u32])
        -> (step: Step)
        requires
            old(self).wf(),
            reads@.len() == expects(old(self).stage()),
        ensures
            final(self).wf(),
            final(self).mmio() == old(self).mmio(),
            final(self).stage() == init_step(
                old(self).mmio().base(),
                *addresses,
                old(self).stage(),
                reads@,
            ).0,
            step_matches(
                step,
                init_step(old(self).mmio().base(), *addresses, old(self).stage(), reads@).1,
            ),
            step matches Step::Continue(ops) ==> count_reads(ops@) == expects(final(self).stage()),
            old(self).stage() == InitStage::QueueSized && final(self).stage()
                == InitStage::QueueInstalled ==> final(queue).available.0.flags
                == VIRTQ_AVAIL_F_NO_INTERRUPT && final(queue).used.0.flags
                == VIRTQ_USED_F_NO_NOTIFY,
            final(queue).descriptors == old(queue).descriptors,
            final(queue).available.0.index == old(queue).available.0.index,
            final(queue).available.0.ring == old(queue).available.0.ring,
            final(queue).used.0.index == old(queue).used.0.index,
            final(queue).used.0.ring == old(queue).used.0.ring,
            final(queue).read_status == old(queue).read_status,
            !(old(self).stage() == InitStage::QueueSized && final(self).stage()
                == InitStage::QueueInstalled) ==> final(queue).available.0.flags == old(queue).available.0.flags && final(queue).used.0.flags == old(queue).used.0.flags,
    {
        let mmio = self.mmio;
        let mut ops: Vec<DeviceOp> = Vec::new();
        proof {
            reveal_with_fuel(count_reads_upto, 16);
        }
        match self.stage {
            InitStage::Start => {
                self.stage = InitStage::Probing;
                ops.push(mmio.magic());
                ops.push(mmio.version());
                ops.push(mmio.device_id());
            },
            InitStage::Probing => {
                if !Self::is_block_device(reads[0], reads[1], reads[2]) {
                    self.stage = InitStage::Start;
                    return Step::Finished(Err(VirtIoError::NotBlockDevice));
                }
                self.stage = InitStage::Acknowledged;
                ops.push(mmio.set_status(0));
                ops.push(mmio.set_status(VIRTIO_CONFIG_S_ACKNOWLEDGE));
                ops.push(mmio.status());
            },
            InitStage::Acknowledged => {
                self.stage = InitStage::FeaturesRead;
                ops.push(mmio.add_status(reads[0], VIRTIO_CONFIG_S_DRIVER));
                let mut low = mmio.device_features_partial(0);
                let mut high = mmio.device_features_partial(1);
                ops.append(&mut low);
                ops.append(&mut high);
            },
            InitStage::FeaturesRead => {
                self.stage = InitStage::FeaturesWritten;
                let features = MmioDevice::device_features(reads[0], reads[1]) & !REJECTED_FEATURES;
                let mut writes = mmio.set_driver_features(features);
                ops.append(&mut writes);
                ops.push(mmio.status());
            },
            InitStage::FeaturesWritten => {
                self.stage = InitStage::FeaturesChecked;
                ops.push(mmio.add_status(reads[0], VIRTIO_CONFIG_S_FEATURES_OK));
                ops.push(mmio.status());
            },
            InitStage::FeaturesChecked => {
                if reads[0] & VIRTIO_CONFIG_S_FEATURES_OK == 0 {
                    self.stage = InitStage::Failing;
                    ops.push(mmio.status());
                } else {
                    self.stage = InitStage::QueueSelected;
                    ops.push(mmio.set_queue_select(0));
                    ops.push(mmio.queue_ready());
                }
            },
            InitStage::Failing => {
                self.stage = InitStage::Failed;
                ops.push(mmio.add_status(reads[0], VIRTIO_CONFIG_S_FAILED));
            },
            InitStage::Failed => {
                self.stage = InitStage::Start;
                return Step::Finished(Err(VirtIoError::FeatureNegotiationFailed));
            },
            InitStage::QueueSelected => {
                if reads[0] != 0 {
                    self.stage = InitStage::Start;
                    return Step::Finished(Err(VirtIoError::QueueInUse));
                }
                self.stage = InitStage::QueueSized;
                ops.push(mmio.queue_num_max());
            },
            InitStage::QueueSized => {
                let max = reads[0];
                if max == 0 {
                    self.stage = InitStage::Start;
                    return Step::Finished(Err(VirtIoError::QueueUnavailable));
                }
                if max < QUEUE_SIZE as u32 {
                    self.stage = InitStage::Start;
                    return Step::Finished(Err(VirtIoError::QueueTooSmall));
                }
                self.stage = InitStage::QueueInstalled;
                ops.push(mmio.set_queue_num(QUEUE_SIZE as u32));
                let mut descriptors = mmio.set_queue_descriptors(addresses.descriptors);
                let mut available = mmio.set_queue_available(addresses.available);
                let mut used = mmio.set_queue_used(addresses.used);
                ops.append(&mut descriptors);
                ops.append(&mut available);
                ops.append(&mut used);
                queue.available.0.flags = VIRTQ_AVAIL_F_NO_INTERRUPT;
                queue.used.0.flags = VIRTQ_USED_F_NO_NOTIFY;
                ops.push(DeviceOp::Publish);
                ops.push(mmio.interrupt_status());
            },
            InitStage::QueueInstalled => {
                self.stage = InitStage::Enabling;
                let interrupts = reads[0];
                if interrupts != 0 {
                    ops.push(mmio.interrupt_ack(interrupts));
                }
                ops.push(DeviceOp::Fence(Fence::Release));
                ops.push(mmio.set_queue_ready(true));
                ops.push(mmio.status());
            },
            InitStage::Enabling => {
                self.stage = InitStage::Enabled;
                ops.push(mmio.add_status(reads[0], VIRTIO_CONFIG_S_DRIVER_OK));
                ops.push(mmio.queue_ready());
            },
            InitStage::Enabled => {
                self.stage = InitStage::Start;
                if reads[0] == 0 {
                    return Step::Finished(Err(VirtIoError::QueueNotReady));
                }
                return Step::Finished(Ok(()));
            },
        }
        proof {
            let expected = init_step(
                old(self).mmio().base(),
                *addresses,
                old(self).stage(),
                reads@,
            ).1;
            assert(expected is Ok);
            assert(ops@ =~= expected->Ok_0);
        }
        Step::Continue(ops)
    }

    /// The first part of a request to read a sector: the status byte is
    /// set to pending, the chain of three descriptors is built in the
    /// first three places of the table, and its head is put in the next
    /// place of the available ring. The chain names the request header,
    /// which the device reads; the buffer of 512 bytes, which it writes;
    /// and the status byte, which it writes. What comes back is the
    /// request header, which the caller puts at `request_address`, and
    /// what has to be done before the request is offered.
    pub fn read_sector(
        &mut self,
        queue: &mut VirtQueue,
        sector: u64,
        request_address: u64,
        buffer_address: u64,
        status_address: u64,
    ) -> (request: (BlockRequest, Vec<DeviceOp>))
        requires
            old(self).wf(),
        ensures
            final(self).wf(),
            final(self).mmio() == old(self).mmio(),
            final(self).stage() == old(self).stage(),
            final(self).starting_used_index() == old(queue).used.0.index,
            final(self).timeout() == POLL_LIMIT,
            request.0 == (BlockRequest { request_type: VIRTIO_BLK_T_IN, reserved: 0, sector: sector }),
            request.1@ == seq![DeviceOp::Publish, DeviceOp::Fence(Fence::SeqCst)],
            final(queue).read_status == STATUS_PENDING,
            final(queue).descriptors.0[0] == (Descriptor {
                address: request_address,
                length: 16,
                flags: VIRTQ_DESC_F_NEXT,
                next: 1,
            }),
            final(queue).descriptors.0[1] == (Descriptor {
                address: buffer_address,
                length: 512,
                flags: 3,
                next: 2,
            }),
            final(queue).descriptors.0[2] == (Descriptor {
                address: status_address,
                length: 1,
                flags: VIRTQ_DESC_F_WRITE,
                next: 0,
            }),
            forall|i: int|
                3 <= i < 8 ==> final(queue).descriptors.0[i] == old(queue).descriptors.0[i],
            final(queue).available.0.ring@ == old(queue).available.0.ring@.update(
                old(queue).available.0.index as int % 8,
                0u16,
            ),
            final(queue).available.0.index == old(queue).available.0.index,
            final(queue).available.0.flags == old(queue).available.0.flags,
            final(queue).used == old(queue).used,
    {
        let request = BlockRequest::new(VIRTIO_BLK_T_IN, sector);
        queue.read_status = STATUS_PENDING;
        queue.descriptors.0[0] = Descriptor {
            address: request_address,
            length: 16,
            flags: VIRTQ_DESC_F_NEXT,
            next: 1,
        };
        queue.descriptors.0[1] = Descriptor {
            address: buffer_address,
            length: SECTOR_SIZE as u32,
            flags: 3,
            next: 2,
        };
        queue.descriptors.0[2] = Descriptor {
            address: status_address,
            length: 1,
            flags: VIRTQ_DESC_F_WRITE,
            next: 0,
        };
        let available_index = queue.available.0.index as usize % QUEUE_SIZE;
        queue.available.0.ring[available_index] = 0;
        self.starting_used_index = queue.used.0.index;
        self.timeout = POLL_LIMIT;
        let mut ops: Vec<DeviceOp> = Vec::new();
        ops.push(DeviceOp::Publish);
        ops.push(DeviceOp::Fence(Fence::SeqCst));
        assert(ops@ =~= seq![DeviceOp::Publish, DeviceOp::Fence(Fence::SeqCst)]);
        (request, ops)
    }

    /// The second part of a request: the index of the available ring moves
    /// on by one, modulo 2^16, which offers the chain to the device. What
    /// comes back is what has to be done then: the index is made visible
    /// between two fences, the device is told of the request, and what it
    /// wrote is taken over.
    pub fn submit(&self, queue: &mut VirtQueue) -> (ops: Vec<DeviceOp>)
        requires
            self.wf(),
        ensures
            final(queue).available.0.index as int == (old(queue).available.0.index + 1) % 0x1_0000,
            final(queue).available.0.ring == old(queue).available.0.ring,
            final(queue).available.0.flags == old(queue).available.0.flags,
            final(queue).descriptors == old(queue).descriptors,
            final(queue).used == old(queue).used,
            final(queue).read_status == old(queue).read_status,
            ops@ == seq![
                DeviceOp::Publish,
                DeviceOp::Fence(Fence::SeqCst),
                DeviceOp::Fence(Fence::Release),
                DeviceOp::Write((self.mmio().base() + QUEUE_NOTIFY) as u64, 0),
                DeviceOp::Refresh,
                DeviceOp::Fence(Fence::Acquire),
            ],
    {
        queue.available.0.index = queue.available.0.index.wrapping_add(1);
        let mut ops: Vec<DeviceOp> = Vec::new();
        ops.push(DeviceOp::Publish);
        ops.push(DeviceOp::Fence(Fence::SeqCst));
        let mut notify = self.mmio.notify_queue(0);
        ops.append(&mut notify);
        ops.push(DeviceOp::Refresh);
        ops.push(DeviceOp::Fence(Fence::Acquire));
        assert(ops@ =~= seq![
            DeviceOp::Publish,
            DeviceOp::Fence(Fence::SeqCst),
            DeviceOp::Fence(Fence::Release),
            DeviceOp::Write((self.mmio().base() + QUEUE_NOTIFY) as u64, 0),
            DeviceOp::Refresh,
            DeviceOp::Fence(Fence::Acquire),
        ]);
        ops
    }

    /// Looks whether the device is done with the request. While the index
    /// of the used ring stands where it stood before the request, and the
    /// driver has not looked too often, the answer is to wait a moment, to
    /// take over what the device wrote, and to look again. Else the
    /// request is over: with a timeout where the driver has looked for the
    /// last time, and else with what the status byte says.
    pub fn poll(&mut self, queue: &VirtQueue) -> (step: Step)
        requires
            old(self).wf(),
        ensures
            final(self).wf(),
            final(self).mmio() == old(self).mmio(),
            final(self).stage() == old(self).stage(),
            final(self).starting_used_index() == old(self).starting_used_index(),
            queue.used.0.index == old(self).starting_used_index() && old(self).timeout() > 0 ==> {
                &&& final(self).timeout() == old(self).timeout() - 1
                &&& step matches Step::Continue(ops) && ops@ == seq![
                    DeviceOp::Pause,
                    DeviceOp::Refresh,
                    DeviceOp::Fence(Fence::Acquire),
                ]
            },
            !(queue.used.0.index == old(self).starting_used_index() && old(self).timeout() > 0) ==> {
                &&& final(self).timeout() == old(self).timeout()
                &&& step matches Step::Finished(result) && result == if old(self).timeout() == 0 {
                    Err(VirtIoError::Timeout)
                } else {
                    status_result(queue.read_status)
                }
            },
    {
        if queue.used.0.index == self.starting_used_index && self.timeout > 0 {
            self.timeout = self.timeout - 1;
            let mut ops: Vec<DeviceOp> = Vec::new();
            ops.push(DeviceOp::Pause);
            ops.push(DeviceOp::Refresh);
            ops.push(DeviceOp::Fence(Fence::Acquire));
            assert(ops@ =~= seq![
                DeviceOp::Pause,
                DeviceOp::Refresh,
                DeviceOp::Fence(Fence::Acquire),
            ]);
            return Step::Continue(ops);
        }
        if self.timeout == 0 {
            return Step::Finished(Err(VirtIoError::Timeout));
        }
        Step::Finished(Self::complete(queue.read_status))
    }

    /// What the status byte of a request says: 0 is success, anything else
    /// the error of the device.
    pub fn complete(status: u8) -> (result: Result<(), VirtIoError>)
        ensures
            result == status_result(status),
    {
        if status == 0 {
            Ok(())
        } else {
            Err(VirtIoError::DeviceError(status))
        }
    }
}

} // verus!
