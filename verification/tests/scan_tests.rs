use scanfmt::engine::{scan_plan, SlotKind, Value};
use scanfmt::resolve::compile;
use scanfmt::{advance, DecodeError, ScanError};
use scanfmt::{Scan, ScanBinary, ScanLowerHex, ScanOctal, ScanUpperHex};

fn names_of(list: &[&str]) -> Vec<String> {
    list.iter().map(|s| s.to_string()).collect()
}

#[test]
fn basic() {
    let names = names_of(&["x", "y"]);
    let plan = compile("{}x{}", &names).unwrap();
    let kinds = vec![SlotKind::I32, SlotKind::I32];
    let out = scan_plan(&plan, &kinds, "42x100").unwrap();
    assert_eq!(out[0], Some(Value::I32(42)));
    assert_eq!(out[1], Some(Value::I32(100)));

    let names = names_of(&["x"]);
    let plan = compile("xX_{:o}_Xx", &names).unwrap();
    let kinds = vec![SlotKind::U64];
    let out = scan_plan(&plan, &kinds, "xX_1234567654321_Xx").unwrap();
    assert_eq!(out[0], Some(Value::U64(0o1234567654321)));
}

#[test]
fn int_after_string() {
    let names = names_of(&["prompt", "answer"]);
    let plan = compile("{}{}", &names).unwrap();
    let kinds = vec![SlotKind::Text, SlotKind::I32];
    let out = scan_plan(&plan, &kinds, "The ultimate answer is: 42").unwrap();
    assert_eq!(
        out[0],
        Some(Value::Text("The ultimate answer is: ".to_string()))
    );
    assert_eq!(out[1], Some(Value::I32(42)));
}

#[test]
fn string_after_int() {
    // string is greedy, so it eats everything, making int parsing fail.
    let names = names_of(&["_answer", "_descriptor"]);
    let plan = compile("{}{}", &names).unwrap();
    let kinds = vec![SlotKind::I32, SlotKind::Text];
    match scan_plan(&plan, &kinds, "42 is the answer") {
        Err(ScanError::Decode(cause)) => {
            assert_eq!(DecodeError::Empty, cause);
        }
        _ => panic!("should be PIE"),
    }
}

#[test]
fn escaped_braces_match_literally() {
    let names = names_of(&[]);
    let plan = compile("{{literal}}", &names).unwrap();
    let kinds: Vec<SlotKind> = vec![];
    let out = scan_plan(&plan, &kinds, "{literal}").unwrap();
    assert_eq!(out.len(), 0);
}

#[test]
fn advance_distinguishes_short_from_wrong() {
    assert_eq!(advance("ab", "abc"), Err(ScanError::LiteralNotFound));
    assert_eq!(advance("abx", "abc"), Err(ScanError::LiteralMismatch));
    assert_eq!(advance("abcde", "abc"), Ok("de"));
}

#[test]
fn literal_errors_during_scan() {
    let names = names_of(&[]);
    let plan = compile("abc", &names).unwrap();
    let kinds: Vec<SlotKind> = vec![];
    assert_eq!(
        scan_plan(&plan, &kinds, "ab"),
        Err(ScanError::LiteralNotFound)
    );
    assert_eq!(
        scan_plan(&plan, &kinds, "abx"),
        Err(ScanError::LiteralMismatch)
    );
}

#[test]
fn values_come_back_in_slot_order() {
    let names = names_of(&["a", "b"]);
    let plan = compile("{b}x{a}", &names).unwrap();
    let kinds = vec![SlotKind::Text, SlotKind::I32];
    let out = scan_plan(&plan, &kinds, "42xhello").unwrap();
    assert_eq!(out[0], Some(Value::Text("hello".to_string())));
    assert_eq!(out[1], Some(Value::I32(42)));
}

#[test]
fn unclaimed_slot_stays_empty() {
    let names = names_of(&["a", "b"]);
    let plan = compile("{1}", &names).unwrap();
    let kinds = vec![SlotKind::I32, SlotKind::I32];
    let out = scan_plan(&plan, &kinds, "7").unwrap();
    assert_eq!(out[0], None);
    assert_eq!(out[1], Some(Value::I32(7)));
}

#[test]
fn eof_when_delimiter_never_appears() {
    let names = names_of(&["a"]);
    let plan = compile("{}x", &names).unwrap();
    let kinds = vec![SlotKind::I32];
    assert_eq!(scan_plan(&plan, &kinds, "42"), Err(ScanError::Eof));

    let names = names_of(&["a", "b"]);
    let plan = compile("{}{}", &names).unwrap();
    let kinds = vec![SlotKind::Text, SlotKind::I32];
    assert_eq!(scan_plan(&plan, &kinds, "no digits"), Err(ScanError::Eof));
}

#[test]
fn numeric_bases_decode() {
    let names = names_of(&["v"]);
    let kinds = vec![SlotKind::U32];

    let plan = compile("{:b}", &names).unwrap();
    let out = scan_plan(&plan, &kinds, "101").unwrap();
    assert_eq!(out[0], Some(Value::U32(5)));

    let plan = compile("{:x}", &names).unwrap();
    let out = scan_plan(&plan, &kinds, "ff").unwrap();
    assert_eq!(out[0], Some(Value::U32(255)));

    let plan = compile("{:X}", &names).unwrap();
    let out = scan_plan(&plan, &kinds, "Ff").unwrap();
    assert_eq!(out[0], Some(Value::U32(255)));

    let plan = compile("{:o}", &names).unwrap();
    let out = scan_plan(&plan, &kinds, "17").unwrap();
    assert_eq!(out[0], Some(Value::U32(15)));
}

#[test]
fn signed_decoding_and_sign_handling() {
    let names = names_of(&["v"]);
    let plan = compile("{}", &names).unwrap();
    let kinds = vec![SlotKind::I32];
    let out = scan_plan(&plan, &kinds, "-42").unwrap();
    assert_eq!(out[0], Some(Value::I32(-42)));
    let out = scan_plan(&plan, &kinds, "+42").unwrap();
    assert_eq!(out[0], Some(Value::I32(42)));

    let kinds = vec![SlotKind::U32];
    assert_eq!(
        scan_plan(&plan, &kinds, "-42"),
        Err(ScanError::Decode(DecodeError::InvalidDigit))
    );
}

#[test]
fn decode_error_kinds() {
    let names = names_of(&["v"]);
    let plan = compile("{}", &names).unwrap();
    let kinds = vec![SlotKind::I32];
    assert_eq!(
        scan_plan(&plan, &kinds, "2147483647").unwrap()[0],
        Some(Value::I32(2147483647))
    );
    assert_eq!(
        scan_plan(&plan, &kinds, "2147483648"),
        Err(ScanError::Decode(DecodeError::PosOverflow))
    );
    assert_eq!(
        scan_plan(&plan, &kinds, "-2147483649"),
        Err(ScanError::Decode(DecodeError::NegOverflow))
    );
    assert_eq!(
        scan_plan(&plan, &kinds, "12a"),
        Err(ScanError::Decode(DecodeError::InvalidDigit))
    );
    assert_eq!(
        scan_plan(&plan, &kinds, "+"),
        Err(ScanError::Decode(DecodeError::InvalidDigit))
    );
}

#[test]
fn field_stops_at_next_literal_first_char() {
    // The delimiter matches on the literal's first character only; the
    // full literal is then verified.
    let names = names_of(&["a", "b"]);
    let plan = compile("{}xy{}", &names).unwrap();
    let kinds = vec![SlotKind::Text, SlotKind::I32];
    let out = scan_plan(&plan, &kinds, "abxy42").unwrap();
    assert_eq!(out[0], Some(Value::Text("ab".to_string())));
    assert_eq!(out[1], Some(Value::I32(42)));

    // First char of the literal appears early with the wrong remainder.
    assert_eq!(
        scan_plan(&plan, &kinds, "abxz42"),
        Err(ScanError::LiteralMismatch)
    );
}

#[test]
fn multi_byte_literals_advance_cleanly() {
    assert_eq!(advance("\u{e9}\u{e9}x", "\u{e9}"), Ok("\u{e9}x"));
    // Four source bytes cover the three-byte literal, but the split would
    // fall inside a character: a mismatch, not a short read.
    assert_eq!(
        advance("\u{e9}\u{e9}", "abc"),
        Err(ScanError::LiteralMismatch)
    );
}

#[test]
fn every_integer_width_decodes() {
    assert_eq!(<i8 as Scan>::scan("-128"), Ok(-128i8));
    assert_eq!(<u8 as Scan>::scan("255"), Ok(255u8));
    assert_eq!(
        <u8 as Scan>::scan("256"),
        Err(ScanError::Decode(DecodeError::PosOverflow))
    );
    assert_eq!(<i16 as ScanBinary>::scan("-101"), Ok(-5i16));
    assert_eq!(<u16 as ScanOctal>::scan("777"), Ok(511u16));
    assert_eq!(
        <i128 as ScanLowerHex>::scan("7fffffffffffffffffffffffffffffff"),
        Ok(i128::MAX)
    );
    assert_eq!(<u128 as ScanUpperHex>::scan("FF"), Ok(255u128));
    assert_eq!(<usize as Scan>::scan("42"), Ok(42usize));
    assert_eq!(<isize as Scan>::scan("-42"), Ok(-42isize));
}

#[test]
fn start_predicates_tell_the_hex_cases_apart() {
    assert!(<u32 as ScanUpperHex>::is_valid_start('A'));
    assert!(!<u32 as ScanUpperHex>::is_valid_start('a'));
    assert!(<u32 as ScanLowerHex>::is_valid_start('a'));
    assert!(<u32 as ScanLowerHex>::is_valid_start('A'));
    assert!(<i32 as Scan>::is_valid_start('-'));
    assert!(!<u32 as Scan>::is_valid_start('-'));
    assert!(<u32 as Scan>::is_valid_start('+'));
    assert!(<String as Scan>::is_valid_start('\u{7}'));
}

#[test]
fn error_messages_name_the_failure() {
    assert_eq!(
        ScanError::Eof.message(),
        "reached end of sequence while parsing"
    );
    assert_eq!(ScanError::LiteralMismatch.message(), "literal mismatch");
    assert_eq!(ScanError::LiteralNotFound.message(), "literal was not found");
    assert_eq!(
        ScanError::Decode(DecodeError::Empty).message(),
        "cannot parse integer from empty string"
    );
}
