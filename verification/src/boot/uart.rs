//! The console of the boot loader: a 16550 serial port that is written to
//! by polling.
//!
//! The port itself is not touched here. A `Uart` collects the register
//! writes that set the port up and the bytes that are to be sent, in
//! order; the code that owns the port sends each byte when the port is
//! ready for it.

use vstd::prelude::*;
use vstd::string::StringSliceAdditionalSpecFns;
use crate::text::decimal;
use crate::text::hex;
use crate::text::hex_fixed;
use crate::text::push_decimal;
use crate::text::push_hex;
use crate::text::push_hex_fixed;
use crate::uart::RegisterWrite;
use crate::uart::UART_IER;
use crate::uart::UART_LCR;
use crate::uart::UART_LSR_READY;
use crate::uart::push_with_returns;
use crate::uart::with_returns;

verus! {

/// Address of the first serial port.
pub const UART_0_BASE: u64 = 0x1000_0000;

/// A byte as two hexadecimal digits.
pub open spec fn hex_byte(byte: u8) -> Seq<u8> {
    if byte < 0x10 {
        seq![48u8] + hex(byte as nat)
    } else {
        hex(byte as nat)
    }
}

/// Whether the listing of bytes stops after byte `i`, with an ellipsis:
/// the limit is reached and more bytes follow.
pub open spec fn stops_after(length: int, max_bytes: Option<usize>, i: int) -> bool {
    max_bytes is Some && i + 1 >= max_bytes.unwrap() && i + 1 < length
}

/// The listing of the first `count` bytes: each as two hexadecimal digits,
/// with a blank between two bytes; or, where the listing stopped before,
/// what it was then.
pub open spec fn hex_bytes_upto(bytes: Seq<u8>, max_bytes: Option<usize>, count: int) -> Seq<u8>
    decreases count,
{
    if count <= 0 {
        Seq::empty()
    } else if exists|k: int| 0 <= k < count - 1 && stops_after(bytes.len() as int, max_bytes, k) {
        hex_bytes_upto(bytes, max_bytes, count - 1)
    } else {
        let i = count - 1;
        hex_bytes_upto(bytes, max_bytes, i) + hex_byte(bytes[i]) + if stops_after(
            bytes.len() as int,
            max_bytes,
            i,
        ) {
            seq![46u8, 46u8, 46u8]
        } else if i < bytes.len() - 1 {
            seq![32u8]
        } else {
            Seq::empty()
        }
    }
}

/// Whether a byte is shown as itself in a dump: a blank, a letter, a digit
/// or a punctuation mark.
pub open spec fn printable(byte: u8) -> bool {
    32 <= byte <= 126
}

/// The first `count` cells of a line of a dump: each byte of the chunk as
/// two hexadecimal digits and a blank, two blanks in place of a byte that
/// the chunk does not have, and one more blank before the ninth cell.
pub open spec fn dump_cells(chunk: Seq<u8>, count: int) -> Seq<u8>
    decreases count,
{
    if count <= 0 {
        Seq::empty()
    } else {
        let i = count - 1;
        dump_cells(chunk, i) + (if i == 8 {
            seq![32u8]
        } else {
            Seq::empty()
        }) + if i < chunk.len() {
            hex_byte(chunk[i]).push(32u8)
        } else {
            seq![32u8, 32u8]
        }
    }
}

/// The first `count` characters of the text column of a line of a dump:
/// the bytes that can be printed as they are, a dot for each other byte
/// and for each byte that the chunk does not have, and a blank before the
/// ninth.
pub open spec fn dump_chars(chunk: Seq<u8>, count: int) -> Seq<u8>
    decreases count,
{
    if count <= 0 {
        Seq::empty()
    } else {
        let i = count - 1;
        dump_chars(chunk, i) + (if i == 8 {
            seq![32u8]
        } else {
            Seq::empty()
        }) + seq![
            if i < chunk.len() && printable(chunk[i]) {
                chunk[i]
            } else {
                46u8
            },
        ]
    }
}

/// One line of a dump: the offset of the chunk in eight hexadecimal
/// digits, the sixteen cells, and the text column between bars.
pub open spec fn dump_line(chunk: Seq<u8>, offset: nat) -> Seq<u8> {
    hex_fixed(offset, 8) + seq![32u8, 32u8] + dump_cells(chunk, 16) + seq![32u8, 124u8, 32u8]
        + dump_chars(chunk, 16) + seq![32u8, 124u8, 13u8, 10u8]
}

/// The chunk of up to sixteen bytes with the given number.
pub open spec fn chunk_of(bytes: Seq<u8>, index: int) -> Seq<u8> {
    bytes.subrange(
        16 * index,
        if 16 * index + 16 <= bytes.len() {
            16 * index + 16
        } else {
            bytes.len() as int
        },
    )
}

/// The first `count` lines of the dump of `bytes`.
pub open spec fn dump_lines(bytes: Seq<u8>, count: int) -> Seq<u8>
    decreases count,
{
    if count <= 0 {
        Seq::empty()
    } else {
        dump_lines(bytes, count - 1) + dump_line(
            chunk_of(bytes, count - 1),
            (16 * (count - 1)) as nat,
        )
    }
}

/// The console.
pub struct Uart {
    base: u64,
    setup: Vec<RegisterWrite>,
    output: Vec<u8>,
}

impl View for Uart {
    type V = Seq<u8>;

    /// The bytes that are to be sent, in order.
    closed spec fn view(&self) -> Seq<u8> {
        self.output@
    }
}

impl Uart {
    /// Address of the port.
    pub closed spec fn base(&self) -> u64 {
        self.base
    }

    /// The register writes that are to be made before anything is sent.
    pub closed spec fn setup(&self) -> Seq<RegisterWrite> {
        self.setup@
    }

    /// The console on the port at `base`, which is taken to be set up.
    pub fn new(base: u64) -> (uart: Uart)
        ensures
            uart.base() == base,
            uart@ == Seq::<u8>::empty(),
            uart.setup() == Seq::<RegisterWrite>::empty(),
    {
        Uart { base, setup: Vec::new(), output: Vec::new() }
    }

    /// The console on the port at `base`, with the writes that set the
    /// port up.
    pub fn init_new(base: u64) -> (uart: Uart)
        requires
            base + 5 <= u64::MAX,
        ensures
            uart.base() == base,
            uart@ == Seq::<u8>::empty(),
            uart.setup() == seq![
                RegisterWrite { address: (base + 3) as u64, value: 3 },
                RegisterWrite { address: (base + 1) as u64, value: 0 },
            ],
    {
        let mut uart = Uart::new(base);
        uart.init();
        uart
    }

    /// Sets the port up: eight data bits, no parity, one stop bit, and no
    /// interrupts.
    pub fn init(&mut self)
        requires
            old(self).base() + 5 <= u64::MAX,
        ensures
            final(self).base() == old(self).base(),
            final(self)@ == old(self)@,
            final(self).setup() == old(self).setup().push(
                RegisterWrite { address: (old(self).base() + 3) as u64, value: 3 },
            ).push(RegisterWrite { address: (old(self).base() + 1) as u64, value: 0 }),
    {
        self.setup.push(RegisterWrite { address: self.base + UART_LCR, value: 0b0000_0011 });
        self.setup.push(RegisterWrite { address: self.base + UART_IER, value: 0b0000_0000 });
    }

    /// Address of the port.
    pub fn base_address(&self) -> (base: u64)
        ensures
            base == self.base(),
    {
        self.base
    }

    /// Whether a port with the given line status takes a byte.
    pub fn ready(line_status: u8) -> (ready: bool)
        ensures
            ready == (line_status & 0x20 != 0),
    {
        (line_status & UART_LSR_READY) != 0
    }

    /// Takes the register writes that are to be made.
    pub fn take_setup(&mut self) -> (writes: Vec<RegisterWrite>)
        ensures
            writes@ == old(self).setup(),
            final(self).setup() == Seq::<RegisterWrite>::empty(),
            final(self)@ == old(self)@,
            final(self).base() == old(self).base(),
    {
        let mut writes: Vec<RegisterWrite> = Vec::new();
        core::mem::swap(&mut writes, &mut self.setup);
        writes
    }

    /// Takes the bytes that are to be sent.
    pub fn take_output(&mut self) -> (bytes: Vec<u8>)
        ensures
            bytes@ == old(self)@,
            final(self)@ == Seq::<u8>::empty(),
            final(self).setup() == old(self).setup(),
            final(self).base() == old(self).base(),
    {
        let mut bytes: Vec<u8> = Vec::new();
        core::mem::swap(&mut bytes, &mut self.output);
        bytes
    }

    /// Sends one byte.
    pub fn put_char(&mut self, c: u8)
        ensures
            final(self)@ == old(self)@.push(c),
            final(self).setup() == old(self).setup(),
            final(self).base() == old(self).base(),
    {
        self.output.push(c);
    }

    /// Sends a text, with a carriage return before every line feed.
    pub fn put_str(&mut self, s: &str)
        ensures
            final(self)@ == old(self)@ + with_returns(s.spec_bytes()),
            final(self).setup() == old(self).setup(),
            final(self).base() == old(self).base(),
    {
        self.put_bytes(s.as_bytes());
    }

    /// Sends the bytes of a text, with a carriage return before every line
    /// feed.
    pub fn put_bytes(&mut self, bytes: &[u8])
        ensures
            final(self)@ == old(self)@ + with_returns(bytes@),
            final(self).setup() == old(self).setup(),
            final(self).base() == old(self).base(),
    {
        push_with_returns(&mut self.output, bytes);
    }

    /// Sends a number in decimal.
    pub fn put_int(&mut self, n: u64)
        ensures
            final(self)@ == old(self)@ + decimal(n as nat),
            final(self).setup() == old(self).setup(),
            final(self).base() == old(self).base(),
    {
        push_decimal(&mut self.output, n);
    }

    /// Sends a number in hexadecimal, after `0x` where a prefix is asked
    /// for.
    pub fn put_hex(&mut self, n: u64, prefix: bool)
        ensures
            final(self)@ == old(self)@ + (if prefix {
                seq![48u8, 120u8]
            } else {
                Seq::empty()
            }) + hex(n as nat),
            final(self).setup() == old(self).setup(),
            final(self).base() == old(self).base(),
    {
        if prefix {
            self.put_char(48);
            self.put_char(120);
        }
        push_hex(&mut self.output, n);
        assert(self@ =~= old(self)@ + (if prefix {
            seq![48u8, 120u8]
        } else {
            Seq::empty()
        }) + hex(n as nat));
    }

    /// Sends bytes as hexadecimal numbers of two digits, with a blank
    /// between two of them. Where there are more bytes than `max_bytes`,
    /// an ellipsis follows the last byte that is within the limit.
    pub fn put_hex_bytes(&mut self, bytes: &[u8], max_bytes: Option<usize>)
        ensures
            final(self)@ == old(self)@ + hex_bytes_upto(bytes@, max_bytes, bytes@.len() as int),
            final(self).setup() == old(self).setup(),
            final(self).base() == old(self).base(),
    {
        let mut i: usize = 0;
        while i < bytes.len()
            invariant
                i <= bytes.len(),
                self@ == old(self)@ + hex_bytes_upto(bytes@, max_bytes, i as int),
                forall|k: int| 0 <= k < i ==> !stops_after(bytes@.len() as int, max_bytes, k),
                self.setup() == old(self).setup(),
                self.base() == old(self).base(),
            decreases bytes.len() - i,
        {
            let ghost before = self@;
            self.put_hex_byte(bytes[i]);
            let stop = match max_bytes {
                Some(limit) => i + 1 >= limit && i + 1 < bytes.len(),
                None => false,
            };
            if stop {
                self.put_char(46);
                self.put_char(46);
                self.put_char(46);
                proof {
                    assert(self@ =~= old(self)@ + hex_bytes_upto(
                        bytes@,
                        max_bytes,
                        i as int + 1,
                    ));
                    lemma_stopped(bytes@, max_bytes, i as int, bytes@.len() as int);
                }
                return ;
            }
            if i < bytes.len() - 1 {
                self.put_char(32);
            }
            assert(self@ =~= old(self)@ + hex_bytes_upto(bytes@, max_bytes, i as int + 1));
            i += 1;
        }
    }

    /// Sends a byte as a hexadecimal number of two digits.
    pub fn put_hex_byte(&mut self, byte: u8)
        ensures
            final(self)@ == old(self)@ + hex_byte(byte),
            final(self).setup() == old(self).setup(),
            final(self).base() == old(self).base(),
    {
        if byte < 0x10 {
            self.put_char(48);
        }
        self.put_hex(byte as u64, false);
        assert(self@ =~= old(self)@ + hex_byte(byte));
    }

    /// Sends the low 32 bits of an address as eight hexadecimal digits.
    pub fn put_hex_address(&mut self, address: u64)
        ensures
            final(self)@ == old(self)@ + hex_fixed(address as nat, 8),
            final(self).setup() == old(self).setup(),
            final(self).base() == old(self).base(),
    {
        push_hex_fixed(&mut self.output, address);
    }

    /// Sends a dump of `bytes`: a heading, then one line for every sixteen
    /// bytes, with their offset, their values in hexadecimal, and their
    /// text.
    pub fn put_hex_dump(&mut self, bytes: &[u8])
        ensures
            final(self)@ == old(self)@ + with_returns(dump_heading()) + dump_lines(
                bytes@,
                (bytes@.len() + 15) as int / 16,
            ),
            final(self).setup() == old(self).setup(),
            final(self).base() == old(self).base(),
    {
        self.put_bytes(&DUMP_HEADING);
        let length = bytes.len();
        let lines = if length % 16 == 0 {
            length / 16
        } else {
            length / 16 + 1
        };
        let mut line: usize = 0;
        while line < lines
            invariant
                line <= lines,
                length == bytes@.len(),
                lines == (bytes@.len() + 15) / 16,
                self@ == old(self)@ + with_returns(dump_heading()) + dump_lines(bytes@, line as int),
                self.setup() == old(self).setup(),
                self.base() == old(self).base(),
            decreases lines - line,
        {
            let offset = line * 16;
            let end = if length - offset >= 16 {
                offset + 16
            } else {
                length
            };
            let chunk = vstd::slice::slice_subrange(bytes, offset, end);
            assert(chunk@ == chunk_of(bytes@, line as int));
            self.put_dump_line(chunk, offset as u64);
            line += 1;
            assert(self@ =~= old(self)@ + with_returns(dump_heading()) + dump_lines(
                bytes@,
                line as int,
            ));
        }
    }

    /// Sends one line of a dump.
    pub fn put_dump_line(&mut self, chunk: &[u8], offset: u64)
        requires
            chunk@.len() <= 16,
        ensures
            final(self)@ == old(self)@ + dump_line(chunk@, offset as nat),
            final(self).setup() == old(self).setup(),
            final(self).base() == old(self).base(),
    {
        self.put_hex_address(offset);
        self.put_char(32);
        self.put_char(32);
        let ghost start = self@;
        let mut index: usize = 0;
        while index < 16
            invariant
                index <= 16,
                self@ == start + dump_cells(chunk@, index as int),
                self.setup() == old(self).setup(),
                self.base() == old(self).base(),
            decreases 16 - index,
        {
            if index == 8 {
                self.put_char(32);
            }
            if index < chunk.len() {
                self.put_hex_byte(chunk[index]);
                self.put_char(32);
            } else {
                self.put_char(32);
                self.put_char(32);
            }
            index += 1;
            assert(self@ =~= start + dump_cells(chunk@, index as int));
        }
        self.put_char(32);
        self.put_char(124);
        self.put_char(32);
        let ghost middle = self@;
        let mut index: usize = 0;
        while index < 16
            invariant
                index <= 16,
                self@ == middle + dump_chars(chunk@, index as int),
                self.setup() == old(self).setup(),
                self.base() == old(self).base(),
            decreases 16 - index,
        {
            if index == 8 {
                self.put_char(32);
            }
            if index < chunk.len() {
                let byte = chunk[index];
                if 32 <= byte && byte <= 126 {
                    self.put_char(byte);
                } else {
                    self.put_char(46);
                }
            } else {
                self.put_char(46);
            }
            index += 1;
            assert(self@ =~= middle + dump_chars(chunk@, index as int));
        }
        self.put_char(32);
        self.put_char(124);
        self.put_char(13);
        self.put_char(10);
        assert(self@ =~= old(self)@ + dump_line(chunk@, offset as nat));
    }
}

/// The heading of a dump, as bytes: ten blanks, the sixteen byte offsets,
/// and the sixteen column numbers between bars.
pub const DUMP_HEADING: [u8; 82] = [
    32, 32, 32, 32, 32, 32, 32, 32, 32, 32, 48, 48, 32, 48, 49, 32, 48, 50, 32, 48, 51, 32, 48,
    52, 32, 48, 53, 32, 48, 54, 32, 48, 55, 32, 32, 48, 56, 32, 48, 57, 32, 48, 97, 32, 48, 98,
    32, 48, 99, 32, 48, 100, 32, 48, 101, 32, 48, 102, 32, 32, 124, 32, 48, 49, 50, 51, 52, 53,
    54, 55, 32, 56, 57, 97, 98, 99, 100, 101, 102, 32, 124, 10,
];

/// The heading of a dump.
pub open spec fn dump_heading() -> Seq<u8> {
    DUMP_HEADING@
}

/// Once the listing has stopped, nothing more is added to it.
pub proof fn lemma_stopped(bytes: Seq<u8>, max_bytes: Option<usize>, at: int, count: int)
    requires
        0 <= at < count,
        stops_after(bytes.len() as int, max_bytes, at),
    ensures
        hex_bytes_upto(bytes, max_bytes, count) == hex_bytes_upto(bytes, max_bytes, at + 1),
    decreases count,
{
    if count > at + 1 {
        assert(0 <= at < count - 1 && stops_after(bytes.len() as int, max_bytes, at));
        lemma_stopped(bytes, max_bytes, at, count - 1);
    }
}

} // verus!
