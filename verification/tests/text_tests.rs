use tui_prac::text::{decimal_string, parse_unsigned_chars};

fn chars(s: &str) -> Vec<char> {
    s.chars().collect()
}

#[test]
fn decimal_writes_numbers() {
    assert_eq!(decimal_string(0), "0");
    assert_eq!(decimal_string(7), "7");
    assert_eq!(decimal_string(10), "10");
    assert_eq!(decimal_string(21340), "21340");
    assert_eq!(decimal_string(u32::MAX), "4294967295");
}

#[test]
fn unsigned_parse_agrees_with_std() {
    let samples = [
        "", "+", "-", "0", "7", "+7", "-7", "007", "65535", "65536", "255", "256", "12a", " 1",
        "1 ", "++1", "+-1", "4294967296", "99999999999",
    ];
    for s in samples {
        let std16 = s.parse::<u16>().ok().map(u32::from);
        assert_eq!(parse_unsigned_chars(&chars(s), 0xffff), std16, "u16 {:?}", s);
        let std8 = s.parse::<u8>().ok().map(u32::from);
        assert_eq!(parse_unsigned_chars(&chars(s), 0xff), std8, "u8 {:?}", s);
    }
}

#[test]
fn decimal_reads_back() {
    for n in [0u32, 1, 9, 10, 99, 100, 255, 4096, 65535] {
        let text = decimal_string(n);
        assert_eq!(parse_unsigned_chars(&chars(&text), 0xffff), Some(n));
    }
}

#[test]
fn widest_limit_reads_u32() {
    assert_eq!(parse_unsigned_chars(&chars("4294967295"), u32::MAX), Some(u32::MAX));
    assert_eq!(parse_unsigned_chars(&chars("4294967296"), u32::MAX), None);
    assert_eq!(parse_unsigned_chars(&chars("+000123"), u32::MAX), Some(123));
}
