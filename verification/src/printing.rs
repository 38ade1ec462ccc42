//! Text for the kernel log that is put together without a heap: a writer
//! into a buffer of fixed size, and numbers with a comma after every three
//! digits.

use vstd::prelude::*;
use vstd::string::StringSliceAdditionalSpecFns;
use crate::bytes::be64;
use crate::bytes::read_be64;
use crate::bytes::same_bytes;
use crate::device_tree::Block;
use crate::device_tree::DeviceTree;
use crate::device_tree::DeviceTreeError;
use crate::device_tree::Property;
use crate::device_tree::filter_device_name;
use crate::memory::memory_device::NAME_REG;
use crate::memory::memory_device::kind_of;
use crate::memory::memory_device::name_of;
use crate::memory::memory_device::value_of;
use crate::text::grouped_decimal;
use crate::text::grouped_digits_of;
use crate::text::lemma_pow10;
use crate::text::pow10;
use crate::uart::RegisterWrite;
use crate::uart::SimpleUart;

verus! {

/// Writes text into a buffer of fixed size. What does not fit is dropped.
pub struct BufferWriter {
    buffer: Vec<u8>,
    position: usize,
}

impl BufferWriter {
    /// The bytes of the buffer.
    pub closed spec fn buffer(&self) -> Seq<u8> {
        self.buffer@
    }

    /// The number of bytes written.
    pub closed spec fn position(&self) -> nat {
        self.position as nat
    }

    /// The text written so far.
    pub open spec fn written(&self) -> Seq<u8> {
        self.buffer().subrange(0, self.position() as int)
    }

    /// What holds of every writer: the text lies within the buffer.
    pub open spec fn wf(&self) -> bool {
        self.position() <= self.buffer().len()
    }

    /// A writer into `buffer`, which must hold one byte at least.
    pub fn new(buffer: Vec<u8>) -> (writer: Self)
        requires
            buffer@.len() > 0,
        ensures
            writer.wf(),
            writer.buffer() == buffer@,
            writer.position() == 0,
    {
        BufferWriter { buffer, position: 0 }
    }

    /// Writes as much of `string` as the buffer has room for.
    pub fn write_str(&mut self, string: &str)
        requires
            old(self).wf(),
        ensures
            final(self).wf(),
            final(self).buffer().len() == old(self).buffer().len(),
            final(self).written() == old(self).written() + string.spec_bytes().subrange(
                0,
                room(old(self).buffer().len() - old(self).position(), string.spec_bytes().len() as int),
            ),
    {
        let bytes = string.as_bytes();
        let remaining = self.buffer.len() - self.position;
        let length = if bytes.len() < remaining {
            bytes.len()
        } else {
            remaining
        };
        let start = self.position;
        let capacity = self.buffer.len();
        let mut i: usize = 0;
        while i < length
            invariant
                i <= length,
                length <= bytes@.len(),
                capacity == self.buffer@.len(),
                start + length <= capacity,
                self.position == start,
                self.buffer@.len() == old(self).buffer@.len(),
                self.buffer@.subrange(0, start as int) == old(self).buffer@.subrange(
                    0,
                    start as int,
                ),
                self.buffer@.subrange(start as int, start + i) == bytes@.subrange(0, i as int),
            decreases length - i,
        {
            let ghost before = self.buffer@;
            self.buffer[start + i] = bytes[i];
            proof {
                assert(self.buffer@.subrange(0, start as int) =~= before.subrange(0, start as int));
                assert(self.buffer@.subrange(start as int, start + i + 1) =~= before.subrange(
                    start as int,
                    start + i,
                ).push(bytes@[i as int]));
                assert(bytes@.subrange(0, i + 1) =~= bytes@.subrange(0, i as int).push(
                    bytes@[i as int],
                ));
            }
            i += 1;
        }
        self.position = start + length;
        proof {
            assert(self.buffer@.subrange(0, start + length) =~= self.buffer@.subrange(
                0,
                start as int,
            ) + self.buffer@.subrange(start as int, start + length));
        }
    }

    /// The buffer, with the text at its start.
    pub fn into_buffer(self) -> (buffer: Vec<u8>)
        ensures
            buffer@ == self.buffer(),
    {
        self.buffer
    }

    /// The number of bytes written.
    pub fn len(&self) -> (length: usize)
        ensures
            length == self.position(),
    {
        self.position
    }
}

/// The number of bytes that are written when `wanted` bytes are to be
/// written and `free` are free.
pub open spec fn room(free: int, wanted: int) -> int {
    if wanted < free {
        wanted
    } else {
        free
    }
}

/// The number of commas among `count` grouped digits.
pub open spec fn commas(count: nat) -> nat {
    if count == 0 {
        0
    } else {
        ((count - 1) / 3) as nat
    }
}

/// Writes `number` in decimal, with a comma after every three digits, at
/// the end of `buffer`, and gives the place where the text starts. The
/// bytes before it are zero.
pub fn comma_separated_int(number: u64, buffer: &mut [u8; 32]) -> (start: usize)
    ensures
        start < 32,
        final(buffer)@.subrange(start as int, 32) == grouped_decimal(number as nat),
        forall|k: int| 0 <= k < start ==> final(buffer)@[k] == 0,
{
    let mut k: usize = 0;
    while k < 32
        invariant
            k <= 32,
            forall|t: int| 0 <= t < k ==> buffer@[t] == 0,
        decreases 32 - k,
    {
        buffer[k] = 0;
        k += 1;
    }
    if number == 0 {
        buffer[31] = 48;
        assert(buffer@.subrange(31, 32) =~= seq![48u8]);
        return 31;
    }
    let mut num = number;
    let mut index: usize = 31;
    let mut count: usize = 0;
    let ghost mut scale: nat = 1;
    while num > 0
        invariant
            count <= 20,
            index + count + commas(count as nat) == 31,
            scale == pow10(count as nat),
            num * scale <= number,
            grouped_digits_of(number as nat, 0) == grouped_digits_of(num as nat, count as nat)
                + buffer@.subrange(index + 1, 32),
            forall|t: int| 0 <= t <= index ==> buffer@[t] == 0,
        decreases num,
    {
        proof {
            lemma_pow10(count as nat);
            if count == 20 {
                assert(num * scale >= scale) by (nonlinear_arith)
                    requires
                        num >= 1,
                        scale >= 0,
                ;
            }
        }
        let ghost before = buffer@;
        let ghost old_index = index;
        let group = count > 0 && count % 3 == 0;
        if group {
            buffer[index] = 44;
            index -= 1;
        }
        let digit = (num % 10) as u8 + 48;
        buffer[index] = digit;
        proof {
            let tail = if group {
                seq![digit].push(44u8)
            } else {
                seq![digit]
            };
            assert(grouped_digits_of(num as nat, count as nat) == grouped_digits_of(
                (num / 10) as nat,
                (count + 1) as nat,
            ) + tail);
            assert(buffer@.subrange(index as int, 32) =~= tail + before.subrange(
                old_index + 1,
                32,
            ));
            assert(grouped_digits_of(num as nat, count as nat) + before.subrange(
                old_index + 1,
                32,
            ) =~= grouped_digits_of((num / 10) as nat, (count + 1) as nat) + (tail
                + before.subrange(old_index + 1, 32)));
            assert((num / 10) * (scale * 10) <= number) by (nonlinear_arith)
                requires
                    num * scale <= number,
                    (num / 10) * 10 <= num,
                    scale >= 0,
            ;
            scale = scale * 10;
        }
        num = num / 10;
        count += 1;
        index -= 1;
    }
    assert(grouped_digits_of(0, count as nat) =~= Seq::<u8>::empty());
    assert(buffer@.subrange(index + 1, 32) =~= grouped_digits_of(number as nat, 0));
    index + 1
}

/// The name `serial`.
pub const NAME_SERIAL: [u8; 6] = [115, 101, 114, 105, 97, 108];

/// What the first `count` properties of a serial port say of its
/// registers: the base address and the range of the later of two `reg`
/// properties, zero where there is none, and whether the reading has
/// stopped. It stops at a `reg` property of less than 16 bytes.
pub open spec fn serial_scan(blob: Seq<u8>, properties: Seq<Property>, count: int) -> (
    u64,
    u64,
    bool,
)
    decreases count,
{
    if count <= 0 {
        (0u64, 0u64, false)
    } else {
        let before = serial_scan(blob, properties, count - 1);
        let value = value_of(blob, properties[count - 1]);
        if before.2 || name_of(blob, properties[count - 1]) != NAME_REG@ {
            before
        } else if value.len() < 16 {
            (before.0, before.1, true)
        } else {
            (be64(value, 0) as u64, be64(value, 8) as u64, false)
        }
    }
}

/// The base address of the serial port that a node describes: the node is
/// of the kind `serial`, and its registers have a base address and a range
/// that are not zero.
pub open spec fn console_of(tree: DeviceTree, block: Block) -> Result<Option<u64>, DeviceTreeError> {
    if kind_of(tree@, block) != NAME_SERIAL@ {
        Ok(None)
    } else {
        match tree.properties_from(block.offset as int) {
            Err(e) => Err(e),
            Ok(properties) => {
                let found = serial_scan(tree@, properties, properties.len() as int);
                if found.0 != 0 && found.1 != 0 && found.0 + 5 <= u64::MAX {
                    Ok(Some(found.0))
                } else {
                    Ok(None)
                }
            },
        }
    }
}

/// The base address of the first serial port among the nodes from place
/// `from` on.
pub open spec fn first_console(tree: DeviceTree, blocks: Seq<Block>, from: int) -> Result<
    Option<u64>,
    DeviceTreeError,
>
    decreases blocks.len() - from,
{
    if from < 0 || from >= blocks.len() {
        Ok(None)
    } else {
        match console_of(tree, blocks[from]) {
            Err(e) => Err(e),
            Ok(Some(base)) => Ok(Some(base)),
            Ok(None) => first_console(tree, blocks, from + 1),
        }
    }
}

/// The base address of the serial port that the kernel logs to: that of
/// the first serial port of the device tree.
pub open spec fn console_spec(tree: DeviceTree) -> Result<Option<u64>, DeviceTreeError> {
    match tree.blocks_from(0) {
        Err(e) => Err(e),
        Ok(blocks) => first_console(tree, blocks, 0),
    }
}

/// Once the reading of the registers has stopped, nothing changes.
pub proof fn lemma_serial_stopped(blob: Seq<u8>, properties: Seq<Property>, count: int)
    requires
        0 < count <= properties.len(),
        serial_scan(blob, properties, count).2,
    ensures
        serial_scan(blob, properties, properties.len() as int) == serial_scan(
            blob,
            properties,
            count,
        ),
    decreases properties.len() - count,
{
    if count < properties.len() {
        lemma_serial_stopped(blob, properties, count + 1);
    }
}

/// The base address of the serial port that a node describes, if it
/// describes one.
pub fn find_console(device_tree: &DeviceTree, block: Block) -> (result: Result<
    Option<u64>,
    DeviceTreeError,
>)
    requires
        device_tree.wf(),
        block.name.start + block.name.length <= device_tree@.len(),
    ensures
        result == console_of(*device_tree, block),
{
    let name = device_tree.bytes(block.name);
    let device_name = filter_device_name(name);
    if !same_bytes(device_name, &NAME_SERIAL) {
        return Ok(None);
    }
    let properties = match device_tree.iterate_properties(block.offset) {
        Ok(properties) => properties,
        Err(e) => {
            return Err(e);
        },
    };
    let mut base_address: u64 = 0;
    let mut reg_range: u64 = 0;
    let mut i: usize = 0;
    while i < properties.len()
        invariant_except_break
            serial_scan(device_tree@, properties@, i as int) == (base_address, reg_range, false),
        invariant
            i <= properties@.len(),
            device_tree.wf(),
            forall|k: int|
                0 <= k < properties@.len() ==> {
                    &&& (#[trigger] properties@[k]).name.start + properties@[k].name.length
                        <= device_tree@.len()
                    &&& properties@[k].value.start + properties@[k].value.length
                        <= device_tree@.len()
                },
        ensures
            serial_scan(device_tree@, properties@, properties@.len() as int).0 == base_address,
            serial_scan(device_tree@, properties@, properties@.len() as int).1 == reg_range,
        decreases properties@.len() - i,
    {
        let property = properties[i];
        let name = device_tree.bytes(property.name);
        if same_bytes(name, &NAME_REG) {
            let value = device_tree.bytes(property.value);
            if value.len() < 16 {
                proof {
                    lemma_serial_stopped(device_tree@, properties@, i as int + 1);
                }
                break ;
            }
            base_address = read_be64(value, 0);
            reg_range = read_be64(value, 8);
        }
        i += 1;
    }
    if base_address != 0 && reg_range != 0 && base_address <= u64::MAX - 5 {
        Ok(Some(base_address))
    } else {
        Ok(None)
    }
}

/// Sets up the console of the kernel: the first serial port that the
/// device tree lists, with the writes that set the port up. Where the tree
/// lists no serial port there is no console.
pub fn init_printing(device_tree: &DeviceTree) -> (result: Result<
    Option<SimpleUart>,
    DeviceTreeError,
>)
    requires
        device_tree.wf(),
    ensures
        match (result, console_spec(*device_tree)) {
            (Ok(Some(uart)), Ok(Some(base))) => {
                &&& uart.base() == base
                &&& uart@ == Seq::<u8>::empty()
                &&& uart.setup() == seq![
                    RegisterWrite { address: (base + 3) as u64, value: 3 },
                    RegisterWrite { address: (base + 1) as u64, value: 0 },
                ]
            },
            (Ok(None), Ok(None)) => true,
            (Err(e), Err(expected)) => e == expected,
            _ => false,
        },
{
    let blocks = match device_tree.iterate_blocks() {
        Ok(blocks) => blocks,
        Err(e) => {
            return Err(e);
        },
    };
    let mut index: usize = 0;
    while index < blocks.len()
        invariant
            index <= blocks@.len(),
            device_tree.wf(),
            device_tree.blocks_from(0) == Ok::<Seq<Block>, DeviceTreeError>(blocks@),
            forall|i: int|
                0 <= i < blocks@.len() ==> (#[trigger] blocks@[i]).name.start
                    + blocks@[i].name.length <= device_tree@.len(),
            first_console(*device_tree, blocks@, index as int) == first_console(
                *device_tree,
                blocks@,
                0,
            ),
        decreases blocks@.len() - index,
    {
        match find_console(device_tree, blocks[index]) {
            Err(e) => {
                return Err(e);
            },
            Ok(Some(base)) => {
                return Ok(Some(SimpleUart::init_new(base)));
            },
            Ok(None) => {},
        }
        index += 1;
    }
    Ok(None)
}

} // verus!
