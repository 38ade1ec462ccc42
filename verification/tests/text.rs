use xtra::boot::uart::{Uart, DUMP_HEADING, UART_0_BASE};
use xtra::bytes::{copy_range, read_be32, read_be64, read_le16, read_le32, read_le64, same_bytes};
use xtra::printing::{comma_separated_int, BufferWriter};
use xtra::text::{hex_char, push_decimal, push_hex, push_hex_fixed};
use xtra::uart::{push_with_returns, RegisterWrite, SimpleUart};

fn grouped(number: u64) -> String {
    let mut buffer = [0xffu8; 32];
    let start = comma_separated_int(number, &mut buffer);
    assert!(buffer[..start].iter().all(|b| *b == 0));
    String::from_utf8(buffer[start..].to_vec()).unwrap()
}

fn sent(uart: &mut Uart) -> String {
    String::from_utf8(uart.take_output()).unwrap()
}

#[test]
fn decimal_text_of_numbers() {
    let mut out = b"n=".to_vec();
    push_decimal(&mut out, 0);
    push_decimal(&mut out, 7);
    push_decimal(&mut out, 1234567890);
    assert_eq!(out, b"n=071234567890".to_vec());
    let mut largest = Vec::new();
    push_decimal(&mut largest, u64::MAX);
    assert_eq!(largest, b"18446744073709551615".to_vec());
}

#[test]
fn hexadecimal_text_of_numbers() {
    let mut out = Vec::new();
    push_hex(&mut out, 0);
    out.push(b' ');
    push_hex(&mut out, 0xdead_beef);
    out.push(b' ');
    push_hex(&mut out, u64::MAX);
    out.push(b' ');
    push_hex(&mut out, 0x10);
    assert_eq!(out, b"0 deadbeef ffffffffffffffff 10".to_vec());
    assert_eq!(hex_char(0), b'0');
    assert_eq!(hex_char(9), b'9');
    assert_eq!(hex_char(10), b'a');
    assert_eq!(hex_char(15), b'f');
}

#[test]
fn fixed_width_hexadecimal_keeps_eight_digits() {
    let mut out = Vec::new();
    push_hex_fixed(&mut out, 0x1f);
    push_hex_fixed(&mut out, 0x1_2345_6789);
    push_hex_fixed(&mut out, 0);
    assert_eq!(out, b"0000001f2345678900000000".to_vec());
}

#[test]
fn numbers_are_grouped_by_thousands() {
    assert_eq!(grouped(0), "0");
    assert_eq!(grouped(7), "7");
    assert_eq!(grouped(999), "999");
    assert_eq!(grouped(1000), "1,000");
    assert_eq!(grouped(12345), "12,345");
    assert_eq!(grouped(123456), "123,456");
    assert_eq!(grouped(1234567), "1,234,567");
    assert_eq!(grouped(134217728), "134,217,728");
    assert_eq!(grouped(u64::MAX), "18,446,744,073,709,551,615");
}

#[test]
fn line_feeds_get_a_carriage_return() {
    let mut out = Vec::new();
    push_with_returns(&mut out, b"a\nb\n\nc");
    assert_eq!(out, b"a\r\nb\r\n\r\nc".to_vec());
}

#[test]
fn kernel_console_collects_what_is_sent() {
    let mut uart = SimpleUart::init_new(0x1000_0000);
    assert!(uart.is_initialized());
    assert_eq!(
        uart.take_setup(),
        vec![
            RegisterWrite { address: 0x1000_0003, value: 3 },
            RegisterWrite { address: 0x1000_0001, value: 0 }
        ]
    );
    assert_eq!(uart.take_setup(), Vec::<RegisterWrite>::new());
    uart.put_str("boot\n");
    uart.put_char(b'!');
    assert_eq!(uart.take_output(), b"boot\r\n!".to_vec());
    assert_eq!(uart.take_output(), Vec::<u8>::new());
    assert!(!SimpleUart::zeroed().is_initialized());
    assert!(SimpleUart::ready(0x20));
    assert!(SimpleUart::ready(0x61));
    assert!(!SimpleUart::ready(0x1f));
}

#[test]
fn loader_console_sends_numbers() {
    let mut uart = Uart::init_new(UART_0_BASE);
    assert_eq!(
        uart.take_setup(),
        vec![
            RegisterWrite { address: 0x1000_0003, value: 3 },
            RegisterWrite { address: 0x1000_0001, value: 0 }
        ]
    );
    uart.put_str("size: ");
    uart.put_int(4096);
    uart.put_str(" at ");
    uart.put_hex(0x8020_0000, true);
    uart.put_char(b' ');
    uart.put_hex(0xabc, false);
    uart.put_char(b' ');
    uart.put_hex_byte(0x0a);
    uart.put_hex_byte(0);
    uart.put_hex_byte(0xf0);
    uart.put_char(b' ');
    uart.put_hex_address(0x1234);
    uart.put_bytes(b"\n");
    assert_eq!(sent(&mut uart), "size: 4096 at 0x80200000 abc 0a00f0 00001234\r\n");
    assert!(Uart::ready(0x20));
    assert!(!Uart::ready(0x40));
}

#[test]
fn byte_listing_stops_at_the_limit() {
    let mut uart = Uart::new(UART_0_BASE);
    uart.put_hex_bytes(&[0xde, 0xad, 0x01, 0x00], None);
    assert_eq!(sent(&mut uart), "de ad 01 00");
    uart.put_hex_bytes(&[0xde, 0xad, 0x01, 0x00], Some(2));
    assert_eq!(sent(&mut uart), "de ad...");
    uart.put_hex_bytes(&[0xde, 0xad, 0x01, 0x00], Some(4));
    assert_eq!(sent(&mut uart), "de ad 01 00");
    uart.put_hex_bytes(&[0xde, 0xad, 0x01, 0x00], Some(9));
    assert_eq!(sent(&mut uart), "de ad 01 00");
    uart.put_hex_bytes(&[0xde, 0xad], Some(0));
    assert_eq!(sent(&mut uart), "de...");
    uart.put_hex_bytes(&[7], Some(0));
    assert_eq!(sent(&mut uart), "07");
    uart.put_hex_bytes(&[], Some(3));
    assert_eq!(sent(&mut uart), "");
}

#[test]
fn dump_shows_offsets_values_and_text() {
    let mut uart = Uart::new(UART_0_BASE);
    let mut bytes = b"Hello, world! ~".to_vec();
    bytes.extend_from_slice(&[0x00, 0x7f, 0xff, 0x1f]);
    uart.put_hex_dump(&bytes);
    let heading =
        "          00 01 02 03 04 05 06 07  08 09 0a 0b 0c 0d 0e 0f  | 01234567 89abcdef |\r\n";
    let first =
        "00000000  48 65 6c 6c 6f 2c 20 77  6f 72 6c 64 21 20 7e 00  | Hello, w orld! ~. |\r\n";
    let second = "00000010  7f ff 1f                             | ........ ........ |\r\n";
    assert_eq!(sent(&mut uart), format!("{heading}{first}{second}"));
    assert_eq!(String::from_utf8(DUMP_HEADING.to_vec()).unwrap(), heading.replace('\r', ""));
}

#[test]
fn dump_of_nothing_is_the_heading() {
    let mut uart = Uart::new(UART_0_BASE);
    uart.put_hex_dump(&[]);
    let text = sent(&mut uart);
    assert_eq!(text.len(), 83);
    assert!(text.ends_with("89abcdef |\r\n"));
}

#[test]
fn dump_line_of_a_short_chunk() {
    let mut uart = Uart::new(UART_0_BASE);
    uart.put_dump_line(b"0123456789", 0x20);
    assert_eq!(
        sent(&mut uart),
        "00000020  30 31 32 33 34 35 36 37  38 39              | 01234567 89...... |\r\n"
    );
}

#[test]
fn buffer_writer_drops_what_does_not_fit() {
    let mut writer = BufferWriter::new(vec![0u8; 8]);
    writer.write_str("abc");
    assert_eq!(writer.len(), 3);
    writer.write_str("");
    writer.write_str("defgh");
    assert_eq!(writer.len(), 8);
    writer.write_str("ijk");
    assert_eq!(writer.len(), 8);
    assert_eq!(writer.into_buffer(), b"abcdefgh".to_vec());
    let mut short = BufferWriter::new(vec![0u8; 4]);
    short.write_str("0123456789");
    assert_eq!(short.len(), 4);
    assert_eq!(short.into_buffer(), b"0123".to_vec());
}

#[test]
fn numbers_are_read_in_both_byte_orders() {
    let bytes = [0x01u8, 0x02, 0x03, 0x04, 0x05, 0x06, 0x07, 0x08, 0x09];
    assert_eq!(read_le16(&bytes, 0), 0x0201);
    assert_eq!(read_le16(&bytes, 7), 0x0908);
    assert_eq!(read_le32(&bytes, 1), 0x0504_0302);
    assert_eq!(read_le64(&bytes, 1), 0x0908_0706_0504_0302);
    assert_eq!(read_be32(&bytes, 0), 0x0102_0304);
    assert_eq!(read_be64(&bytes, 0), 0x0102_0304_0506_0708);
    assert_eq!(read_le64(&[0xff; 8], 0), u64::MAX);
    assert_eq!(read_be64(&[0xff; 8], 0), u64::MAX);
}

#[test]
fn byte_strings_are_compared_and_copied() {
    assert!(same_bytes(b"virtio,mmio", b"virtio,mmio"));
    assert!(!same_bytes(b"virtio,mmio", b"virtio,mmi0"));
    assert!(!same_bytes(b"virtio", b"virtio,mmio"));
    assert!(same_bytes(b"", b""));
    assert_eq!(copy_range(b"0123456789", 2, 5), b"234".to_vec());
    assert_eq!(copy_range(b"0123456789", 4, 4), Vec::<u8>::new());
    assert_eq!(copy_range(b"0123456789", 0, 10), b"0123456789".to_vec());
}
