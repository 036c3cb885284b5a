use log2csv::error::{decimal_text, ConvertError};

#[test]
fn decimal_text_of_small_and_large_numbers() {
    assert_eq!(decimal_text(0), "0");
    assert_eq!(decimal_text(7), "7");
    assert_eq!(decimal_text(9), "9");
    assert_eq!(decimal_text(10), "10");
    assert_eq!(decimal_text(101), "101");
    assert_eq!(decimal_text(1234567890), "1234567890");
    assert_eq!(decimal_text(u64::MAX), "18446744073709551615");
}

#[test]
fn decimal_text_agrees_with_to_string() {
    let mut n: u64 = 0;
    while n < 2000 {
        assert_eq!(decimal_text(n), n.to_string());
        n += 1;
    }
    let mut m: u64 = 1;
    while m < u64::MAX / 7 {
        assert_eq!(decimal_text(m), m.to_string());
        m = m * 7 + 3;
    }
}

#[test]
fn message_of_open() {
    let error = ConvertError::Open { name: "missing.log".to_string() };
    assert_eq!(error.message(), "failed to open missing.log");
}

#[test]
fn message_of_read_line() {
    let error = ConvertError::ReadLine { name: "<stdin>".to_string(), lines: 41 };
    assert_eq!(error.message(), "failed to read a line from <stdin> after 41 lines");
}

#[test]
fn message_of_write_header() {
    assert_eq!(ConvertError::WriteHeader.message(), "failed to write csv headers");
}

#[test]
fn message_of_write_record() {
    let error = ConvertError::WriteRecord { name: "access.log".to_string(), line: 3 };
    assert_eq!(error.message(), "failed to write a csv record for line 3 of access.log");
}
