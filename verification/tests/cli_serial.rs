use rfid_stm32h750::cli::{parse, Command};
use rfid_stm32h750::drivers::serial::SerialTx;
use rfid_stm32h750::profiler::{elapsed_us, write_report};

#[test]
fn parse_accepts_upper_and_lower_case() {
    assert_eq!(parse("SCAN"), Command::Scan);
    assert_eq!(parse("scan"), Command::Scan);
    assert_eq!(parse("READ"), Command::Read);
    assert_eq!(parse("read"), Command::Read);
    assert_eq!(parse("WRITE"), Command::Write);
    assert_eq!(parse("write"), Command::Write);
    assert_eq!(parse("DUMP"), Command::Dump);
    assert_eq!(parse("dump"), Command::Dump);
    assert_eq!(parse("STATUS"), Command::Status);
    assert_eq!(parse("status"), Command::Status);
    assert_eq!(parse("HELP"), Command::Help);
    assert_eq!(parse("help"), Command::Help);
}

#[test]
fn parse_trims_surrounding_white_space() {
    assert_eq!(parse("  scan\r\n"), Command::Scan);
    assert_eq!(parse("\tHELP "), Command::Help);
    assert_eq!(parse("\u{3000}dump\u{a0}"), Command::Dump);
    assert_eq!(parse(" st atus "), Command::Unknown);
}

#[test]
fn parse_rejects_other_words() {
    assert_eq!(parse(""), Command::Unknown);
    assert_eq!(parse("   "), Command::Unknown);
    assert_eq!(parse("Scan"), Command::Unknown);
    assert_eq!(parse("scans"), Command::Unknown);
    assert_eq!(parse("readx"), Command::Unknown);
}

#[test]
fn serial_write_num_is_decimal_without_leading_zeros() {
    let mut tx = SerialTx::new(());
    tx.write_num(0);
    tx.write_byte(b',');
    tx.write_num(7);
    tx.write_byte(b',');
    tx.write_num(12345);
    tx.write_byte(b',');
    tx.write_num(u32::MAX);
    assert_eq!(tx.take_output(), b"0,7,12345,4294967295".to_vec());
}

#[test]
fn serial_write_hex_is_upper_case() {
    let mut tx = SerialTx::new(());
    tx.write_hex(0);
    tx.write_byte(b' ');
    tx.write_hex(0xABCD);
    tx.write_byte(b' ');
    tx.write_hex(0x0F);
    tx.write_byte(b' ');
    tx.write_hex(u32::MAX);
    assert_eq!(tx.take_output(), b"0 ABCD F FFFFFFFF".to_vec());
}

#[test]
fn serial_numbers_read_back() {
    for n in [0u32, 1, 9, 10, 99, 100, 65535, 1_000_000, u32::MAX] {
        let mut tx = SerialTx::new(());
        tx.write_num(n);
        let text = String::from_utf8(tx.take_output()).unwrap();
        assert_eq!(text.parse::<u32>().unwrap(), n);
        let mut tx = SerialTx::new(());
        tx.write_hex(n);
        let text = String::from_utf8(tx.take_output()).unwrap();
        assert_eq!(u32::from_str_radix(&text, 16).unwrap(), n);
    }
}

#[test]
fn serial_write_line_and_take_output() {
    let mut tx = SerialTx::new(5u8);
    tx.write_str("RC522 ");
    tx.write_line("ok");
    assert_eq!(tx.take_output(), b"RC522 ok\r\n".to_vec());
    assert_eq!(tx.take_output(), Vec::<u8>::new());
    assert_eq!(*tx.inner(), 5u8);
    assert_eq!(tx.release(), 5u8);
}

#[test]
fn profiler_elapsed_time_wraps_once() {
    assert_eq!(elapsed_us(1000, 401_000), 1000);
    assert_eq!(elapsed_us(u32::MAX - 399, 400), 2);
    assert_eq!(elapsed_us(5, 5), 0);
}

#[test]
fn profiler_report_text() {
    let mut tx = SerialTx::new(());
    write_report(&mut tx, "draw", 12_345);
    assert_eq!(tx.take_output(), b"draw took: 12.3 ms\r\n".to_vec());
    write_report(&mut tx, "idle", 99);
    assert_eq!(tx.take_output(), b"idle took: 0.0 ms\r\n".to_vec());
}

#[test]
fn serial_release_with_bytes_queued() {
    let mut tx = SerialTx::new(7u8);
    tx.write_str("unsent");
    assert_eq!(tx.release(), 7u8);
}
