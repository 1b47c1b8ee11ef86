//! Output filtering and hexadecimal rendering.

use flashrom_tester::utils::{hex_string, last_line, qgrep, vgrep};

#[test]
fn _vgrep() {
    let s = "XXXqcYYY";
    let m = "qc";
    let n = "zz";

    assert_eq!("", vgrep(s, s));
    assert_eq!("", vgrep(s, m));
    assert_eq!(s, vgrep(s, n));

    let x = "idk\nLALLA\nZZZ\nQQ";
    let xs = "LA";

    assert_eq!("idkZZZQQ", vgrep(x, xs));
}

#[test]
fn _qgrep() {
    let s = "XXXqcYYY";
    let m = "qc";
    let n = "zz";

    assert_eq!(true, qgrep(s, s));
    assert_eq!(true, qgrep(s, m));
    assert_eq!(false, qgrep(s, n));
}

#[test]
fn _last_line() {
    let s = "XXX\nYYY\nZZZ";

    assert_eq!("ZZZ", last_line(s));
    assert_ne!("XXX", last_line(s));
}

#[test]
fn hex_string_pads_to_six_digits() {
    assert_eq!("0x000000", hex_string(0));
    assert_eq!("0x000400", hex_string(0x400));
    assert_eq!("0x123456", hex_string(0x123456));
}

#[test]
fn hex_string_wide_values_uppercase() {
    assert_eq!("0xDEADBEEF", hex_string(0xDEADBEEF));
    assert_eq!("0xFFFFFFFFFFFFFFFF", hex_string(-1));
}

#[test]
fn parse_size_output_reads_plain_integer() {
    let r = flashrom_tester::flashrom::parse_size_output("8388608\n");
    assert_eq!(r.unwrap(), 8388608);
}

#[test]
fn parse_size_output_skips_utility_tables() {
    let r = flashrom_tester::flashrom::parse_size_output("coreboot table found\n16777216\n");
    assert_eq!(r.unwrap(), 16777216);
}

#[test]
fn parse_size_output_rejects_garbage() {
    let r = flashrom_tester::flashrom::parse_size_output("not a number\n");
    assert!(matches!(
        r,
        Err(flashrom_tester::flashrom::GatewayError::Protocol(_))
    ));
}
