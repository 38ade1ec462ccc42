//! The console of the kernel: a 16550 serial port that is written to by
//! polling, without interrupts and without input.
//!
//! The port itself is not touched here. A `SimpleUart` collects the
//! register writes that set the port up and the bytes that are to be sent,
//! in order; the code that owns the port sends each byte when the port is
//! ready for it.

use vstd::prelude::*;
use vstd::string::StringSliceAdditionalSpecFns;

verus! {

/// Offset of the transmit holding register.
pub const UART_THR: u64 = 0;

/// Offset of the interrupt enable register.
pub const UART_IER: u64 = 1;

/// Offset of the line control register.
pub const UART_LCR: u64 = 3;

/// Offset of the line status register.
pub const UART_LSR: u64 = 5;

/// The bit of the line status register that says that the port takes a
/// byte.
pub const UART_LSR_READY: u8 = 0x20;

/// One byte to be written to a device register.
#[derive(Clone, Copy, PartialEq, Eq, Structural, Debug)]
pub struct RegisterWrite {
    /// Address of the register.
    pub address: u64,
    /// The byte.
    pub value: u8,
}

/// The bytes of a text with a carriage return before every line feed.
pub open spec fn with_returns(text: Seq<u8>) -> Seq<u8>
    decreases text.len(),
{
    if text.len() == 0 {
        Seq::empty()
    } else if text.last() == 10 {
        with_returns(text.drop_last()).push(13u8).push(10u8)
    } else {
        with_returns(text.drop_last()).push(text.last())
    }
}

/// Appends the bytes of a text, with a carriage return before every line
/// feed.
pub fn push_with_returns(out: &mut Vec<u8>, bytes: &[u8])
    ensures
        final(out)@ == old(out)@ + with_returns(bytes@),
{
    let mut i: usize = 0;
    while i < bytes.len()
        invariant
            i <= bytes.len(),
            out@ == old(out)@ + with_returns(bytes@.subrange(0, i as int)),
        decreases bytes.len() - i,
    {
        let c = bytes[i];
        proof {
            let next = bytes@.subrange(0, i + 1);
            assert(next.drop_last() =~= bytes@.subrange(0, i as int));
            assert(next.last() == c);
        }
        if c == 10 {
            out.push(13);
        }
        out.push(c);
        i += 1;
        assert(out@ =~= old(out)@ + with_returns(bytes@.subrange(0, i as int)));
    }
    assert(bytes@.subrange(0, bytes.len() as int) =~= bytes@);
}

/// The console.
pub struct SimpleUart {
    base: u64,
    setup: Vec<RegisterWrite>,
    output: Vec<u8>,
}

impl View for SimpleUart {
    type V = Seq<u8>;

    /// The bytes that are to be sent, in order.
    closed spec fn view(&self) -> Seq<u8> {
        self.output@
    }
}

impl SimpleUart {
    /// Address of the port.
    pub closed spec fn base(&self) -> u64 {
        self.base
    }

    /// The register writes that are to be made before anything is sent.
    pub closed spec fn setup(&self) -> Seq<RegisterWrite> {
        self.setup@
    }

    /// The console on the port at `base`, which is taken to be set up.
    pub fn new(base: u64) -> (uart: SimpleUart)
        ensures
            uart.base() == base,
            uart@ == Seq::<u8>::empty(),
            uart.setup() == Seq::<RegisterWrite>::empty(),
    {
        SimpleUart { base, setup: Vec::new(), output: Vec::new() }
    }

    /// The console on the port at `base`, with the writes that set the
    /// port up.
    pub fn init_new(base: u64) -> (uart: SimpleUart)
        requires
            base + 5 <= u64::MAX,
        ensures
            uart.base() == base,
            uart@ == Seq::<u8>::empty(),
            uart.setup() == seq![
                RegisterWrite { address: (base + 3) as u64, value: 3 },
                RegisterWrite { address: (base + 1) as u64, value: 0 },
            ],
    {
        let mut uart = SimpleUart::new(base);
        uart.init();
        uart
    }

    /// Sets the port up: eight data bits, no parity, one stop bit, and no
    /// interrupts.
    pub fn init(&mut self)
        requires
            old(self).base() + 5 <= u64::MAX,
        ensures
            final(self).base() == old(self).base(),
            final(self)@ == old(self)@,
            final(self).setup() == old(self).setup().push(
                RegisterWrite { address: (old(self).base() + 3) as u64, value: 3 },
            ).push(RegisterWrite { address: (old(self).base() + 1) as u64, value: 0 }),
    {
        self.setup.push(RegisterWrite { address: self.base + UART_LCR, value: 0b0000_0011 });
        self.setup.push(RegisterWrite { address: self.base + UART_IER, value: 0b0000_0000 });
    }

    /// A console without a port. Nothing is sent through it.
    pub fn zeroed() -> (uart: SimpleUart)
        ensures
            uart.base() == 0,
            uart@ == Seq::<u8>::empty(),
            uart.setup() == Seq::<RegisterWrite>::empty(),
    {
        SimpleUart { base: 0, setup: Vec::new(), output: Vec::new() }
    }

    /// Whether the console has a port.
    pub fn is_initialized(&self) -> (initialized: bool)
        ensures
            initialized == (self.base() != 0),
    {
        self.base != 0
    }

    /// Address of the port.
    pub fn base_address(&self) -> (base: u64)
        ensures
            base == self.base(),
    {
        self.base
    }

    /// Whether a port with the given line status takes a byte.
    pub fn ready(line_status: u8) -> (ready: bool)
        ensures
            ready == (line_status & 0x20 != 0),
    {
        (line_status & UART_LSR_READY) != 0
    }

    /// Takes the register writes that are to be made.
    pub fn take_setup(&mut self) -> (writes: Vec<RegisterWrite>)
        ensures
            writes@ == old(self).setup(),
            final(self).setup() == Seq::<RegisterWrite>::empty(),
            final(self)@ == old(self)@,
            final(self).base() == old(self).base(),
    {
        let mut writes: Vec<RegisterWrite> = Vec::new();
        core::mem::swap(&mut writes, &mut self.setup);
        writes
    }

    /// Takes the bytes that are to be sent.
    pub fn take_output(&mut self) -> (bytes: Vec<u8>)
        ensures
            bytes@ == old(self)@,
            final(self)@ == Seq::<u8>::empty(),
            final(self).setup() == old(self).setup(),
            final(self).base() == old(self).base(),
    {
        let mut bytes: Vec<u8> = Vec::new();
        core::mem::swap(&mut bytes, &mut self.output);
        bytes
    }

    /// Sends one byte.
    pub fn put_char(&mut self, c: u8)
        ensures
            final(self)@ == old(self)@.push(c),
            final(self).setup() == old(self).setup(),
            final(self).base() == old(self).base(),
    {
        self.output.push(c);
    }

    /// Sends a text, with a carriage return before every line feed.
    pub fn put_str(&mut self, s: &str)
        ensures
            final(self)@ == old(self)@ + with_returns(s.spec_bytes()),
            final(self).setup() == old(self).setup(),
            final(self).base() == old(self).base(),
    {
        push_with_returns(&mut self.output, s.as_bytes());
    }
}

} // verus!
