use std::collections::HashMap;
use xtra::boot::block_device::{BlockDevice, Registers};
use xtra::boot::virtio::{
    BlockRequest, DeviceOp, Fence, MmioDevice, MmioRegister, QueueAddresses, Step, UsedItem,
    VirtIoBlockDevice, VirtIoError, VirtQueue, POLL_LIMIT, REJECTED_FEATURES, STATUS_PENDING,
};

const BASE: u64 = 0x1000_1000;
const REQUEST_AT: u64 = 0x8040_0000;
const BUFFER_AT: u64 = 0x8040_1000;
const STATUS_AT: u64 = 0x8040_2000;

fn queue_addresses() -> QueueAddresses {
    QueueAddresses {
        descriptors: 0x1_8050_0000,
        available: 0x1_8050_1000,
        used: 0x2_8050_2000,
    }
}

/// A device that answers every read request with the sector it was seeded
/// with, and keeps its own view of the memory it shares with the driver.
struct Loopback {
    magic: u32,
    version: u32,
    device_id: u32,
    status: u32,
    features: u64,
    feature_select: u32,
    driver_select: u32,
    driver_features: u64,
    accepts_features: bool,
    queue_select: u32,
    queue_ready: u32,
    queue_switch_works: bool,
    queue_max: u32,
    queue_num: u32,
    interrupt_status: u32,
    acknowledged: u32,
    addresses: [u32; 6],
    answers: bool,
    answer_status: u8,
    seen: u16,
    view: VirtQueue,
    used_index: u16,
    used_ring: [UsedItem; 8],
    sectors: HashMap<u64, [u8; 512]>,
    requests: HashMap<u64, BlockRequest>,
    buffers: HashMap<u64, [u8; 512]>,
    status_bytes: HashMap<u64, u8>,
    log: Vec<DeviceOp>,
}

impl Loopback {
    fn new() -> Self {
        Loopback {
            magic: 0x7472_6976,
            version: 2,
            device_id: 2,
            status: 0x55,
            features: 0x0000_0001_3900_1AE4,
            feature_select: 0,
            driver_select: 0,
            driver_features: 0,
            accepts_features: true,
            queue_select: 7,
            queue_ready: 0,
            queue_switch_works: true,
            queue_max: 256,
            queue_num: 0,
            interrupt_status: 0,
            acknowledged: 0,
            addresses: [0; 6],
            answers: true,
            answer_status: 0,
            seen: 0,
            view: VirtQueue::new(),
            used_index: 0,
            used_ring: [UsedItem { id: 0, length: 0 }; 8],
            sectors: HashMap::new(),
            requests: HashMap::new(),
            buffers: HashMap::new(),
            status_bytes: HashMap::new(),
            log: Vec::new(),
        }
    }

    fn read(&self, offset: u64) -> u32 {
        match offset {
            0x000 => self.magic,
            0x004 => self.version,
            0x008 => self.device_id,
            0x010 => {
                if self.feature_select == 0 {
                    self.features as u32
                } else {
                    (self.features >> 32) as u32
                }
            }
            0x034 => self.queue_max,
            0x044 => self.queue_ready,
            0x060 => self.interrupt_status,
            0x070 => self.status,
            _ => panic!("read of register {offset:#x}"),
        }
    }

    fn write(&mut self, offset: u64, value: u32) {
        match offset {
            0x014 => self.feature_select = value,
            0x020 => {
                if self.driver_select == 0 {
                    self.driver_features = (self.driver_features & !0xffff_ffff) | value as u64;
                } else {
                    self.driver_features =
                        (self.driver_features & 0xffff_ffff) | ((value as u64) << 32);
                }
            }
            0x024 => self.driver_select = value,
            0x030 => self.queue_select = value,
            0x038 => self.queue_num = value,
            0x044 => {
                if self.queue_switch_works {
                    self.queue_ready = value;
                }
            }
            0x050 => self.notified(value),
            0x064 => {
                self.acknowledged = value;
                self.interrupt_status &= !value;
            }
            0x070 => {
                self.status = if self.accepts_features { value } else { value & !0x08 };
            }
            0x080 => self.addresses[0] = value,
            0x084 => self.addresses[1] = value,
            0x090 => self.addresses[2] = value,
            0x094 => self.addresses[3] = value,
            0x0a0 => self.addresses[4] = value,
            0x0a4 => self.addresses[5] = value,
            _ => panic!("write of register {offset:#x}"),
        }
    }

    fn notified(&mut self, queue: u32) {
        assert_eq!(queue, 0);
        if !self.answers {
            return;
        }
        while self.seen != self.view.available.0.index {
            let head = self.view.available.0.ring[self.seen as usize % 8];
            let first = self.view.descriptors.0[head as usize];
            assert_eq!((first.length, first.flags), (16, 1));
            let request = self.requests[&first.address];
            assert_eq!((request.request_type, request.reserved), (0, 0));
            let second = self.view.descriptors.0[first.next as usize];
            assert_eq!((second.length, second.flags), (512, 3));
            let sector = self.sectors.get(&request.sector).copied().unwrap_or([0; 512]);
            self.buffers.insert(second.address, sector);
            let third = self.view.descriptors.0[second.next as usize];
            assert_eq!((third.length, third.flags), (1, 2));
            self.status_bytes.insert(third.address, self.answer_status);
            self.used_ring[self.used_index as usize % 8] = UsedItem { id: head as u32, length: 513 };
            self.used_index = self.used_index.wrapping_add(1);
            self.seen = self.seen.wrapping_add(1);
        }
    }

    fn run(&mut self, ops: &[DeviceOp], queue: &mut VirtQueue) -> Vec<u32> {
        let mut reads = Vec::new();
        for op in ops {
            self.log.push(*op);
            match *op {
                DeviceOp::Read(address) => reads.push(self.read(address - BASE)),
                DeviceOp::Write(address, value) => self.write(address - BASE, value),
                DeviceOp::Fence(_) | DeviceOp::Pause => {}
                DeviceOp::Publish => {
                    self.view.descriptors = queue.descriptors;
                    self.view.available = queue.available;
                }
                DeviceOp::Refresh => {
                    queue.used.0.index = self.used_index;
                    queue.used.0.ring = self.used_ring;
                    if let Some(status) = self.status_bytes.get(&STATUS_AT) {
                        queue.read_status = *status;
                    }
                }
            }
        }
        reads
    }
}

fn set_up(
    device: &mut VirtIoBlockDevice,
    loopback: &mut Loopback,
    queue: &mut VirtQueue,
) -> Result<(), VirtIoError> {
    let mut reads: Vec<u32> = Vec::new();
    loop {
        match device.initialize(queue, &queue_addresses(), &reads) {
            Step::Continue(ops) => reads = loopback.run(&ops, queue),
            Step::Finished(result) => return result,
        }
    }
}

fn read(
    device: &mut VirtIoBlockDevice,
    loopback: &mut Loopback,
    queue: &mut VirtQueue,
    sector: u64,
) -> (Result<(), VirtIoError>, [u8; 512]) {
    loopback.buffers.insert(BUFFER_AT, [0xEE; 512]);
    loopback.status_bytes.insert(STATUS_AT, STATUS_PENDING);
    let (request, ops) = device.read_sector(queue, sector, REQUEST_AT, BUFFER_AT, STATUS_AT);
    loopback.requests.insert(REQUEST_AT, request);
    loopback.run(&ops, queue);
    let ops = device.submit(queue);
    loopback.run(&ops, queue);
    let result = loop {
        match device.poll(queue) {
            Step::Continue(ops) => {
                loopback.run(&ops, queue);
            }
            Step::Finished(result) => break result,
        }
    };
    (result, loopback.buffers[&BUFFER_AT])
}

#[test]
fn set_up_leaves_the_device_running() {
    let mut loopback = Loopback::new();
    let mut queue = VirtQueue::new();
    let mut device = VirtIoBlockDevice::new(BASE);
    assert_eq!(set_up(&mut device, &mut loopback, &mut queue), Ok(()));
    assert_eq!(loopback.status, 0x01 | 0x02 | 0x04 | 0x08);
    assert_eq!(loopback.queue_ready, 1);
    assert_eq!(loopback.queue_select, 0);
    assert_eq!(loopback.queue_num, 8);
    assert_eq!(
        loopback.addresses,
        [0x8050_0000, 0x1, 0x8050_1000, 0x1, 0x8050_2000, 0x2]
    );
    assert_eq!(loopback.driver_features, 0x0000_0001_3900_1AE4 & !REJECTED_FEATURES);
    assert_eq!(loopback.driver_features, 0x0000_0001_0100_0244);
    assert_eq!(queue.available.0.flags, 1);
    assert_eq!(queue.used.0.flags, 1);
    assert_eq!(loopback.view.available.0.flags, 1);
    assert_eq!(queue.available.0.index, 0);
}

#[test]
fn set_up_works_with_the_legacy_version() {
    let mut loopback = Loopback::new();
    loopback.version = 1;
    let mut queue = VirtQueue::new();
    let mut device = VirtIoBlockDevice::new(BASE);
    assert_eq!(set_up(&mut device, &mut loopback, &mut queue), Ok(()));
    assert_eq!(loopback.status & 0x0f, 0x0f);
    assert_eq!(loopback.queue_ready, 1);
}

#[test]
fn set_up_starts_with_a_reset_and_follows_the_order() {
    let mut loopback = Loopback::new();
    loopback.features = 0;
    let mut queue = VirtQueue::new();
    let mut device = VirtIoBlockDevice::new(BASE);
    set_up(&mut device, &mut loopback, &mut queue).unwrap();
    let at = |offset: u64| BASE + offset;
    let expected = vec![
        DeviceOp::Read(at(0x000)),
        DeviceOp::Read(at(0x004)),
        DeviceOp::Read(at(0x008)),
        DeviceOp::Write(at(0x070), 0),
        DeviceOp::Write(at(0x070), 1),
        DeviceOp::Read(at(0x070)),
        DeviceOp::Write(at(0x070), 3),
        DeviceOp::Write(at(0x014), 0),
        DeviceOp::Fence(Fence::SeqCst),
        DeviceOp::Read(at(0x010)),
        DeviceOp::Write(at(0x014), 1),
        DeviceOp::Fence(Fence::SeqCst),
        DeviceOp::Read(at(0x010)),
        DeviceOp::Write(at(0x024), 0),
        DeviceOp::Fence(Fence::SeqCst),
        DeviceOp::Write(at(0x020), 0),
        DeviceOp::Write(at(0x024), 1),
        DeviceOp::Fence(Fence::SeqCst),
        DeviceOp::Write(at(0x020), 0),
        DeviceOp::Read(at(0x070)),
        DeviceOp::Write(at(0x070), 11),
        DeviceOp::Read(at(0x070)),
        DeviceOp::Write(at(0x030), 0),
        DeviceOp::Read(at(0x044)),
        DeviceOp::Read(at(0x034)),
        DeviceOp::Write(at(0x038), 8),
        DeviceOp::Write(at(0x080), 0x8050_0000),
        DeviceOp::Fence(Fence::SeqCst),
        DeviceOp::Write(at(0x084), 1),
        DeviceOp::Write(at(0x090), 0x8050_1000),
        DeviceOp::Fence(Fence::SeqCst),
        DeviceOp::Write(at(0x094), 1),
        DeviceOp::Write(at(0x0a0), 0x8050_2000),
        DeviceOp::Fence(Fence::SeqCst),
        DeviceOp::Write(at(0x0a4), 2),
        DeviceOp::Publish,
        DeviceOp::Read(at(0x060)),
        DeviceOp::Fence(Fence::Release),
        DeviceOp::Write(at(0x044), 1),
        DeviceOp::Read(at(0x070)),
        DeviceOp::Write(at(0x070), 15),
        DeviceOp::Read(at(0x044)),
    ];
    assert_eq!(loopback.log, expected);
}

#[test]
fn pending_interrupts_are_acknowledged() {
    let mut loopback = Loopback::new();
    loopback.interrupt_status = 3;
    let mut queue = VirtQueue::new();
    let mut device = VirtIoBlockDevice::new(BASE);
    assert_eq!(set_up(&mut device, &mut loopback, &mut queue), Ok(()));
    assert_eq!(loopback.acknowledged, 3);
    assert_eq!(loopback.interrupt_status, 0);
}

#[test]
fn other_devices_are_not_set_up() {
    for (magic, version, device_id) in
        [(0x7472_6977u32, 2u32, 2u32), (0x7472_6976, 3, 2), (0x7472_6976, 0, 2), (0x7472_6976, 2, 1)]
    {
        let mut loopback = Loopback::new();
        loopback.magic = magic;
        loopback.version = version;
        loopback.device_id = device_id;
        let mut queue = VirtQueue::new();
        let mut device = VirtIoBlockDevice::new(BASE);
        assert_eq!(
            set_up(&mut device, &mut loopback, &mut queue),
            Err(VirtIoError::NotBlockDevice)
        );
        assert_eq!(loopback.status, 0x55);
        assert_eq!(loopback.log.len(), 3);
        assert!(!VirtIoBlockDevice::is_block_device(magic, version, device_id));
    }
    assert!(VirtIoBlockDevice::is_block_device(0x7472_6976, 1, 2));
    assert!(VirtIoBlockDevice::is_block_device(0x7472_6976, 2, 2));
}

#[test]
fn refused_features_mark_the_device_failed() {
    let mut loopback = Loopback::new();
    loopback.accepts_features = false;
    let mut queue = VirtQueue::new();
    let mut device = VirtIoBlockDevice::new(BASE);
    assert_eq!(
        set_up(&mut device, &mut loopback, &mut queue),
        Err(VirtIoError::FeatureNegotiationFailed)
    );
    assert_eq!(loopback.status, 0x80 | 0x03);
    assert_eq!(loopback.queue_ready, 0);
}

#[test]
fn queue_that_is_on_already_is_left_alone() {
    let mut loopback = Loopback::new();
    loopback.queue_ready = 1;
    let mut queue = VirtQueue::new();
    let mut device = VirtIoBlockDevice::new(BASE);
    assert_eq!(set_up(&mut device, &mut loopback, &mut queue), Err(VirtIoError::QueueInUse));
    assert_eq!(loopback.queue_num, 0);
}

#[test]
fn missing_queue_ends_the_set_up() {
    let mut loopback = Loopback::new();
    loopback.queue_max = 0;
    let mut queue = VirtQueue::new();
    let mut device = VirtIoBlockDevice::new(BASE);
    assert_eq!(
        set_up(&mut device, &mut loopback, &mut queue),
        Err(VirtIoError::QueueUnavailable)
    );
}

#[test]
fn small_queue_ends_the_set_up() {
    let mut loopback = Loopback::new();
    loopback.queue_max = 7;
    let mut queue = VirtQueue::new();
    let mut device = VirtIoBlockDevice::new(BASE);
    assert_eq!(set_up(&mut device, &mut loopback, &mut queue), Err(VirtIoError::QueueTooSmall));
    loopback = Loopback::new();
    loopback.queue_max = 8;
    device = VirtIoBlockDevice::new(BASE);
    assert_eq!(set_up(&mut device, &mut loopback, &mut queue), Ok(()));
}

#[test]
fn queue_that_does_not_come_on_is_an_error() {
    let mut loopback = Loopback::new();
    loopback.queue_switch_works = false;
    let mut queue = VirtQueue::new();
    let mut device = VirtIoBlockDevice::new(BASE);
    assert_eq!(set_up(&mut device, &mut loopback, &mut queue), Err(VirtIoError::QueueNotReady));
}

#[test]
fn sector_17_is_read_back() {
    let mut loopback = Loopback::new();
    let mut sector = [0u8; 512];
    sector[0] = 0xAA;
    sector[1] = 0xBB;
    loopback.sectors.insert(17, sector);
    let mut queue = VirtQueue::new();
    let mut device = VirtIoBlockDevice::new(BASE);
    set_up(&mut device, &mut loopback, &mut queue).unwrap();
    let (result, buffer) = read(&mut device, &mut loopback, &mut queue, 17);
    assert_eq!(result, Ok(()));
    assert_eq!(buffer[0..2], [0xAA, 0xBB]);
    assert!(buffer[2..].iter().all(|byte| *byte == 0));
    assert_eq!(queue.read_status, 0);
    assert_eq!(queue.available.0.index, 1);
    assert_eq!(queue.used.0.index, 1);
    assert_eq!(queue.used.0.ring[0], UsedItem { id: 0, length: 513 });
}

#[test]
fn counting_sector_makes_the_round_trip() {
    let mut loopback = Loopback::new();
    let mut sector = [0u8; 512];
    for (index, byte) in sector.iter_mut().enumerate() {
        *byte = index as u8;
    }
    loopback.sectors.insert(5, sector);
    let mut queue = VirtQueue::new();
    let mut device = VirtIoBlockDevice::new(BASE);
    set_up(&mut device, &mut loopback, &mut queue).unwrap();
    let available = queue.available.0.index;
    let used = queue.used.0.index;
    let (result, buffer) = read(&mut device, &mut loopback, &mut queue, 5);
    assert_eq!(result, Ok(()));
    assert_eq!(buffer, sector);
    assert_eq!(queue.read_status, 0);
    assert_eq!(queue.available.0.index, available + 1);
    assert_eq!(queue.used.0.index, used + 1);
}

#[test]
fn requests_follow_one_another_round_the_ring() {
    let mut loopback = Loopback::new();
    for number in 0..20u64 {
        loopback.sectors.insert(number, [number as u8 + 1; 512]);
    }
    let mut queue = VirtQueue::new();
    let mut device = VirtIoBlockDevice::new(BASE);
    set_up(&mut device, &mut loopback, &mut queue).unwrap();
    for number in 0..20u64 {
        let (result, buffer) = read(&mut device, &mut loopback, &mut queue, number);
        assert_eq!(result, Ok(()));
        assert_eq!(buffer, [number as u8 + 1; 512]);
        assert_eq!(queue.available.0.index, number as u16 + 1);
        assert_eq!(queue.used.0.index, number as u16 + 1);
    }
}

#[test]
fn request_is_built_as_a_chain_of_three() {
    let mut queue = VirtQueue::new();
    queue.available.0.index = 0xfffd;
    queue.available.0.ring = [9; 8];
    let mut device = VirtIoBlockDevice::new(BASE);
    let (request, ops) = device.read_sector(&mut queue, 17, REQUEST_AT, BUFFER_AT, STATUS_AT);
    assert_eq!(request, BlockRequest { request_type: 0, reserved: 0, sector: 17 });
    assert_eq!(ops, vec![DeviceOp::Publish, DeviceOp::Fence(Fence::SeqCst)]);
    let first = queue.descriptors.0[0];
    assert_eq!((first.address, first.length, first.flags, first.next), (REQUEST_AT, 16, 1, 1));
    let second = queue.descriptors.0[1];
    assert_eq!((second.address, second.length, second.flags, second.next), (BUFFER_AT, 512, 3, 2));
    let third = queue.descriptors.0[2];
    assert_eq!((third.address, third.length, third.flags, third.next), (STATUS_AT, 1, 2, 0));
    assert_eq!(queue.available.0.ring, [9, 9, 9, 9, 9, 0, 9, 9]);
    assert_eq!(queue.available.0.index, 0xfffd);
    assert_eq!(queue.read_status, STATUS_PENDING);
    let ops = device.submit(&mut queue);
    assert_eq!(queue.available.0.index, 0xfffe);
    assert_eq!(
        ops,
        vec![
            DeviceOp::Publish,
            DeviceOp::Fence(Fence::SeqCst),
            DeviceOp::Fence(Fence::Release),
            DeviceOp::Write(BASE + 0x50, 0),
            DeviceOp::Refresh,
            DeviceOp::Fence(Fence::Acquire),
        ]
    );
    queue.available.0.index = 0xffff;
    device.submit(&mut queue);
    assert_eq!(queue.available.0.index, 0);
}

#[test]
fn errors_of_the_device_are_passed_on() {
    for status in [1u8, 2, 3] {
        let mut loopback = Loopback::new();
        loopback.answer_status = status;
        let mut queue = VirtQueue::new();
        let mut device = VirtIoBlockDevice::new(BASE);
        set_up(&mut device, &mut loopback, &mut queue).unwrap();
        let (result, _) = read(&mut device, &mut loopback, &mut queue, 3);
        assert_eq!(result, Err(VirtIoError::DeviceError(status)));
        assert_eq!(queue.used.0.index, 1);
    }
    assert_eq!(VirtIoBlockDevice::complete(0), Ok(()));
    assert_eq!(VirtIoBlockDevice::complete(2), Err(VirtIoError::DeviceError(2)));
    assert_eq!(VirtIoBlockDevice::complete(0xff), Err(VirtIoError::DeviceError(0xff)));
}

#[test]
fn silent_device_times_out() {
    let mut loopback = Loopback::new();
    loopback.answers = false;
    let mut queue = VirtQueue::new();
    let mut device = VirtIoBlockDevice::new(BASE);
    set_up(&mut device, &mut loopback, &mut queue).unwrap();
    let (_, ops) = device.read_sector(&mut queue, 3, REQUEST_AT, BUFFER_AT, STATUS_AT);
    assert_eq!(ops.len(), 2);
    device.submit(&mut queue);
    let mut waits: u32 = 0;
    let result = loop {
        match device.poll(&queue) {
            Step::Continue(ops) => {
                if waits == 0 {
                    assert_eq!(
                        ops,
                        vec![DeviceOp::Pause, DeviceOp::Refresh, DeviceOp::Fence(Fence::Acquire)]
                    );
                }
                waits += 1;
            }
            Step::Finished(result) => break result,
        }
    };
    assert_eq!(result, Err(VirtIoError::Timeout));
    assert_eq!(waits, POLL_LIMIT);
    assert_eq!(queue.available.0.index, 1);
    assert_eq!(queue.used.0.index, 0);
}

#[test]
fn poll_without_a_request_is_a_timeout() {
    let queue = VirtQueue::new();
    let mut device = VirtIoBlockDevice::new(BASE);
    match device.poll(&queue) {
        Step::Finished(result) => assert_eq!(result, Err(VirtIoError::Timeout)),
        Step::Continue(_) => panic!("nothing to wait for"),
    }
}

#[test]
fn probe_reads_magic_version_and_type() {
    let device = VirtIoBlockDevice::new(BASE);
    assert_eq!(
        device.probe(),
        vec![DeviceOp::Read(BASE), DeviceOp::Read(BASE + 4), DeviceOp::Read(BASE + 8)]
    );
}

#[test]
fn registers_sit_at_their_offsets() {
    let mmio = MmioDevice::new(BASE);
    assert_eq!(mmio.magic(), DeviceOp::Read(BASE));
    assert_eq!(mmio.version(), DeviceOp::Read(BASE + 0x004));
    assert_eq!(mmio.device_id(), DeviceOp::Read(BASE + 0x008));
    assert_eq!(mmio.vendor_id(), DeviceOp::Read(BASE + 0x00c));
    assert_eq!(mmio.set_queue_select(2), DeviceOp::Write(BASE + 0x030, 2));
    assert_eq!(mmio.queue_num_max(), DeviceOp::Read(BASE + 0x034));
    assert_eq!(mmio.set_queue_num(8), DeviceOp::Write(BASE + 0x038, 8));
    assert_eq!(mmio.queue_ready(), DeviceOp::Read(BASE + 0x044));
    assert_eq!(mmio.set_queue_ready(true), DeviceOp::Write(BASE + 0x044, 1));
    assert_eq!(mmio.set_queue_ready(false), DeviceOp::Write(BASE + 0x044, 0));
    assert_eq!(mmio.interrupt_status(), DeviceOp::Read(BASE + 0x060));
    assert_eq!(mmio.interrupt_ack(3), DeviceOp::Write(BASE + 0x064, 3));
    assert_eq!(mmio.status(), DeviceOp::Read(BASE + 0x070));
    assert_eq!(mmio.set_status(0), DeviceOp::Write(BASE + 0x070, 0));
    assert_eq!(mmio.add_status(3, 8), DeviceOp::Write(BASE + 0x070, 11));
    assert_eq!(mmio.max_segment_size(), DeviceOp::Read(BASE + 0x108));
    assert_eq!(mmio.max_segment_count(), DeviceOp::Read(BASE + 0x10c));
    assert_eq!(mmio.cylinder_count(), DeviceOp::Read(BASE + 0x110));
    assert_eq!(mmio.head_count(), DeviceOp::Read(BASE + 0x112));
    assert_eq!(mmio.sector_count(), DeviceOp::Read(BASE + 0x113));
    assert_eq!(mmio.block_length(), DeviceOp::Read(BASE + 0x114));
    assert_eq!(mmio.read_at(0x0fc), DeviceOp::Read(BASE + 0x0fc));
    assert_eq!(mmio.write_at(0x050, 0), DeviceOp::Write(BASE + 0x050, 0));
    let register = MmioRegister::<0x70>::new(BASE);
    assert_eq!(register.read(), DeviceOp::Read(BASE + 0x70));
    assert_eq!(register.write(4), DeviceOp::Write(BASE + 0x70, 4));
}

#[test]
fn wide_registers_are_written_in_two_halves() {
    let mmio = MmioDevice::new(BASE);
    assert_eq!(
        mmio.set_queue_descriptors(0x1234_5678_9abc_d000),
        vec![
            DeviceOp::Write(BASE + 0x080, 0x9abc_d000),
            DeviceOp::Fence(Fence::SeqCst),
            DeviceOp::Write(BASE + 0x084, 0x1234_5678),
        ]
    );
    assert_eq!(
        mmio.set_queue_available(0x8000_1000),
        vec![
            DeviceOp::Write(BASE + 0x090, 0x8000_1000),
            DeviceOp::Fence(Fence::SeqCst),
            DeviceOp::Write(BASE + 0x094, 0),
        ]
    );
    assert_eq!(
        mmio.set_queue_used(0xffff_ffff_ffff_f000),
        vec![
            DeviceOp::Write(BASE + 0x0a0, 0xffff_f000),
            DeviceOp::Fence(Fence::SeqCst),
            DeviceOp::Write(BASE + 0x0a4, 0xffff_ffff),
        ]
    );
    assert_eq!(
        mmio.set_driver_features(0x0000_0001_0100_0244),
        vec![
            DeviceOp::Write(BASE + 0x024, 0),
            DeviceOp::Fence(Fence::SeqCst),
            DeviceOp::Write(BASE + 0x020, 0x0100_0244),
            DeviceOp::Write(BASE + 0x024, 1),
            DeviceOp::Fence(Fence::SeqCst),
            DeviceOp::Write(BASE + 0x020, 1),
        ]
    );
    assert_eq!(
        mmio.device_features_partial(1),
        vec![
            DeviceOp::Write(BASE + 0x014, 1),
            DeviceOp::Fence(Fence::SeqCst),
            DeviceOp::Read(BASE + 0x010),
        ]
    );
    assert_eq!(
        mmio.notify_queue(0),
        vec![DeviceOp::Fence(Fence::Release), DeviceOp::Write(BASE + 0x050, 0)]
    );
    assert_eq!(
        mmio.total_sector_count_reads(),
        vec![DeviceOp::Read(BASE + 0x100), DeviceOp::Read(BASE + 0x104)]
    );
    assert_eq!(MmioDevice::device_features(0x0100_0244, 1), 0x0000_0001_0100_0244);
    assert_eq!(MmioDevice::total_sector_count(0x800, 0), 0x800);
    assert_eq!(MmioDevice::total_sector_count(0xffff_ffff, 0xffff_ffff), u64::MAX);
}

#[test]
fn disk_is_set_up_and_read_through_its_driver() {
    let mut loopback = Loopback::new();
    loopback.sectors.insert(0, [0x5a; 512]);
    let mut queue = VirtQueue::new();
    let mut disk = BlockDevice::new(Registers::new(BASE, 0x1000), 7, 9);
    assert_eq!(disk.get_registers(), Registers { base: BASE, size: 0x1000 });
    assert_eq!(disk.get_interrupts(), 7);
    assert_eq!(disk.get_interrupt_parent(), 9);
    let mut reads: Vec<u32> = Vec::new();
    let result = loop {
        match disk.initialize(&mut queue, &queue_addresses(), &reads) {
            Step::Continue(ops) => reads = loopback.run(&ops, &mut queue),
            Step::Finished(result) => break result,
        }
    };
    assert_eq!(result, Ok(()));
    assert_eq!(loopback.status, 0x0f);
    let (request, ops) = disk.read_sector(&mut queue, 0, REQUEST_AT, BUFFER_AT, STATUS_AT);
    loopback.requests.insert(REQUEST_AT, request);
    loopback.run(&ops, &mut queue);
    let ops = disk.submit(&mut queue);
    loopback.run(&ops, &mut queue);
    match disk.poll(&queue) {
        Step::Finished(result) => assert_eq!(result, Ok(())),
        Step::Continue(_) => panic!("the device has answered"),
    }
    assert_eq!(loopback.buffers[&BUFFER_AT], [0x5a; 512]);
    assert_eq!(queue.available.0.index, 1);
    assert_eq!(queue.used.0.index, 1);
}

#[test]
fn each_stage_says_how_many_values_it_waits_for() {
    let mut loopback = Loopback::new();
    let mut queue = VirtQueue::new();
    let mut device = VirtIoBlockDevice::new(BASE);
    let mut reads: Vec<u32> = Vec::new();
    let mut counts = Vec::new();
    loop {
        assert_eq!(device.expected_reads(), reads.len());
        counts.push(reads.len());
        match device.initialize(&mut queue, &queue_addresses(), &reads) {
            Step::Continue(ops) => reads = loopback.run(&ops, &mut queue),
            Step::Finished(result) => {
                assert_eq!(result, Ok(()));
                break;
            }
        }
    }
    assert_eq!(counts, vec![0, 3, 1, 2, 1, 1, 1, 1, 1, 1, 1]);
    assert_eq!(device.expected_reads(), 0);
}

#[test]
fn finished_set_up_can_be_begun_again() {
    let mut loopback = Loopback::new();
    loopback.device_id = 1;
    let mut queue = VirtQueue::new();
    let mut device = VirtIoBlockDevice::new(BASE);
    assert_eq!(set_up(&mut device, &mut loopback, &mut queue), Err(VirtIoError::NotBlockDevice));
    loopback.device_id = 2;
    assert_eq!(set_up(&mut device, &mut loopback, &mut queue), Ok(()));
    assert_eq!(loopback.status, 0x0f);
}
