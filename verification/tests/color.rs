use fill_codec::hex::digit_value;
use fill_codec::{Color, DecodeError};

#[test]
fn short_form_takes_each_digit_seventeen_times() {
    assert_eq!(Color::from_str("#123"), Ok(Color { red: 17, green: 34, blue: 51 }));
    assert_eq!(Color::from_str("#000"), Ok(Color { red: 0, green: 0, blue: 0 }));
    assert_eq!(Color::from_str("#fff"), Ok(Color { red: 255, green: 255, blue: 255 }));
    assert_eq!(Color::from_str("#a9c"), Ok(Color { red: 170, green: 153, blue: 204 }));
    assert_eq!(Color::from_str("#f0f"), Ok(Color { red: 255, green: 0, blue: 255 }));
}

#[test]
fn long_form_reads_two_digits_a_channel() {
    assert_eq!(Color::from_str("#ff00ff"), Ok(Color { red: 255, green: 0, blue: 255 }));
    assert_eq!(Color::from_str("#0f00ff"), Ok(Color { red: 15, green: 0, blue: 255 }));
    assert_eq!(Color::from_str("#123456"), Ok(Color { red: 0x12, green: 0x34, blue: 0x56 }));
    assert_eq!(Color::from_str("#789abc"), Ok(Color { red: 0x78, green: 0x9a, blue: 0xbc }));
    assert_eq!(Color::from_str("#def010"), Ok(Color { red: 0xde, green: 0xf0, blue: 0x10 }));
}

#[test]
fn digits_of_either_case() {
    assert_eq!(Color::from_str("#ABCDEF"), Ok(Color { red: 0xab, green: 0xcd, blue: 0xef }));
    assert_eq!(Color::from_str("#aBcDeF"), Ok(Color { red: 0xab, green: 0xcd, blue: 0xef }));
    assert_eq!(Color::from_str("#FeD"), Ok(Color { red: 0xff, green: 0xee, blue: 0xdd }));
}

#[test]
fn value_of_every_byte_as_a_digit() {
    for b in 0..=255u8 {
        let expected = (b as char).to_digit(16).map(|v| v as u8);
        assert_eq!(digit_value(b), expected, "byte {}", b);
    }
    assert_eq!(digit_value(b'0'), Some(0));
    assert_eq!(digit_value(b'9'), Some(9));
    assert_eq!(digit_value(b'a'), Some(10));
    assert_eq!(digit_value(b'F'), Some(15));
    assert_eq!(digit_value(b'g'), None);
    assert_eq!(digit_value(b'/'), None);
    assert_eq!(digit_value(b':'), None);
    assert_eq!(digit_value(b'@'), None);
    assert_eq!(digit_value(b'G'), None);
    assert_eq!(digit_value(b'`'), None);
}

#[test]
fn missing_prefix() {
    assert_eq!(Color::from_str(""), Err(DecodeError::MissingPrefix));
    assert_eq!(Color::from_str("hello"), Err(DecodeError::MissingPrefix));
    assert_eq!(Color::from_str("fff"), Err(DecodeError::MissingPrefix));
    assert_eq!(Color::from_str("ff00ff"), Err(DecodeError::MissingPrefix));
    assert_eq!(Color::from_str("rainbow"), Err(DecodeError::MissingPrefix));
    assert_eq!(Color::from_str("fff#"), Err(DecodeError::MissingPrefix));
    assert_eq!(Color::from_str("\u{ff03}fff"), Err(DecodeError::MissingPrefix));
}

#[test]
fn the_prefix_is_looked_at_before_the_length() {
    assert_eq!(Color::from_str("0fff"), Err(DecodeError::MissingPrefix));
    assert_eq!(Color::from_str("0ff00ff"), Err(DecodeError::MissingPrefix));
    assert_eq!(Color::from_str("0"), Err(DecodeError::MissingPrefix));
}

#[test]
fn invalid_length_carries_the_whole_length() {
    assert_eq!(Color::from_str("#"), Err(DecodeError::InvalidLength(1)));
    assert_eq!(Color::from_str("#f"), Err(DecodeError::InvalidLength(2)));
    assert_eq!(Color::from_str("#ff"), Err(DecodeError::InvalidLength(3)));
    assert_eq!(Color::from_str("#ffff"), Err(DecodeError::InvalidLength(5)));
    assert_eq!(Color::from_str("#fffff"), Err(DecodeError::InvalidLength(6)));
    assert_eq!(Color::from_str("#fffffff"), Err(DecodeError::InvalidLength(8)));
    assert_eq!(Color::from_str("#fffffffffffffff"), Err(DecodeError::InvalidLength(16)));
    for extra in 0..40usize {
        let text = format!("#{}", "a".repeat(extra));
        let parsed = Color::from_str(&text);
        if extra == 3 || extra == 6 {
            assert!(parsed.is_ok());
        } else {
            assert_eq!(parsed, Err(DecodeError::InvalidLength(extra + 1)));
        }
    }
}

#[test]
fn the_length_is_looked_at_before_the_digits() {
    assert_eq!(Color::from_str("#xy"), Err(DecodeError::InvalidLength(3)));
    assert_eq!(Color::from_str("#wxyz"), Err(DecodeError::InvalidLength(5)));
}

#[test]
fn hex_digit_error() {
    assert_eq!(Color::from_str("#ggg"), Err(DecodeError::HexDigitError));
    assert_eq!(Color::from_str("#ffg"), Err(DecodeError::HexDigitError));
    assert_eq!(Color::from_str("#gff"), Err(DecodeError::HexDigitError));
    assert_eq!(Color::from_str("#fgf"), Err(DecodeError::HexDigitError));
    assert_eq!(Color::from_str("#ff00fg"), Err(DecodeError::HexDigitError));
    assert_eq!(Color::from_str("#gf00ff"), Err(DecodeError::HexDigitError));
    assert_eq!(Color::from_str("#ff 0ff"), Err(DecodeError::HexDigitError));
    assert_eq!(Color::from_str("#ff-0ff"), Err(DecodeError::HexDigitError));
    assert_eq!(Color::from_str("# ff"), Err(DecodeError::HexDigitError));
    assert_eq!(Color::from_str("####"), Err(DecodeError::HexDigitError));
}

#[test]
fn a_sign_is_no_digit() {
    assert_eq!(Color::from_str("#+f+f+f"), Err(DecodeError::HexDigitError));
    assert_eq!(Color::from_str("#+1+2+3"), Err(DecodeError::HexDigitError));
    assert_eq!(Color::from_str("#-0-0-0"), Err(DecodeError::HexDigitError));
    assert_eq!(Color::from_str("#+++"), Err(DecodeError::HexDigitError));
}

#[test]
fn lengths_are_counted_in_bytes() {
    assert_eq!(Color::from_str("#\u{e9}"), Err(DecodeError::InvalidLength(3)));
    assert_eq!(Color::from_str("#\u{e9}1"), Err(DecodeError::HexDigitError));
    assert_eq!(Color::from_str("#\u{e9}\u{e9}"), Err(DecodeError::InvalidLength(5)));
    assert_eq!(Color::from_str("#\u{e9}\u{e9}\u{e9}"), Err(DecodeError::HexDigitError));
    assert_eq!(Color::from_str("#ff\u{20ac}f"), Err(DecodeError::HexDigitError));
    assert_eq!(Color::from_str("#\u{1f308}"), Err(DecodeError::InvalidLength(5)));
    assert_eq!(Color::from_str("#\u{ff11}\u{ff12}"), Err(DecodeError::HexDigitError));
}

#[test]
fn written_in_the_long_form() {
    assert_eq!(Color { red: 255, green: 0, blue: 255 }.to_string(), "#ff00ff");
    assert_eq!(Color { red: 15, green: 0, blue: 255 }.to_string(), "#0f00ff");
    assert_eq!(Color { red: 255, green: 255, blue: 255 }.to_string(), "#ffffff");
    assert_eq!(Color { red: 0, green: 0, blue: 0 }.to_string(), "#000000");
    assert_eq!(Color { red: 1, green: 35, blue: 69 }.to_string(), "#012345");
    assert_eq!(Color { red: 0x67, green: 0x89, blue: 0xab }.to_string(), "#6789ab");
    assert_eq!(Color { red: 0xcd, green: 0xef, blue: 0x0a }.to_string(), "#cdef0a");
}

#[test]
fn every_channel_value_is_written_as_two_lower_case_digits() {
    for n in 0..=255u8 {
        let digits = format!("{:02x}", n);
        assert_eq!(
            Color { red: n, green: 0, blue: 0 }.to_string(),
            format!("#{}0000", digits)
        );
        assert_eq!(
            Color { red: 0, green: n, blue: 0 }.to_string(),
            format!("#00{}00", digits)
        );
        assert_eq!(
            Color { red: 0, green: 0, blue: n }.to_string(),
            format!("#0000{}", digits)
        );
    }
}
