//! The built-in decodable types: text and the integer widths the scan
//! engine dispatches on, each under every numeric spec it supports.
//!
//! Every integer implementation routes through the verified radix
//! parsers, so its `scan_post` pins the decoded value (and the error on
//! every failing input) to the mathematical model `spec_parse_int`.

use vstd::prelude::*;
use vstd::string::StringExecFns;
use crate::radix::{parse_signed, parse_unsigned, spec_parse_int, spec_start_num, start_num};
use crate::{Scan, ScanBinary, ScanError, ScanLowerHex, ScanOctal, ScanUpperHex};

verus! {

impl Scan for String {
    /// Any character can begin a text value.
    open spec fn spec_valid_start(c: char) -> bool {
        true
    }

    /// Text decoding is the identity: the whole substring, copied.
    open spec fn scan_post(s: Seq<char>, r: Result<String, ScanError>) -> bool {
        match r {
            Ok(v) => v@ == s,
            Err(_) => false,
        }
    }

    fn is_valid_start(c: char) -> (b: bool) {
        true
    }

    fn scan(s: &str) -> (r: Result<String, ScanError>) {
        Ok(s.to_owned())
    }
}

impl Scan for i32 {
    open spec fn spec_valid_start(c: char) -> bool {
        spec_start_num(c, 10, false, true)
    }

    open spec fn scan_post(s: Seq<char>, r: Result<i32, ScanError>) -> bool {
        match spec_parse_int(s, 10, true, i32::MIN as int, i32::MAX as int) {
            Ok(v) => r == Ok::<i32, ScanError>(v as i32),
            Err(e) => r == Err::<i32, ScanError>(ScanError::Decode(e)),
        }
    }

    fn is_valid_start(c: char) -> (b: bool) {
        start_num(c, 10, false, true)
    }

    fn scan(s: &str) -> (r: Result<i32, ScanError>) {
        match parse_signed(s, 10, i32::MIN as i128, i32::MAX as i128) {
            Ok(v) => Ok(v as i32),
            Err(e) => Err(ScanError::Decode(e)),
        }
    }
}

impl Scan for i64 {
    open spec fn spec_valid_start(c: char) -> bool {
        spec_start_num(c, 10, false, true)
    }

    open spec fn scan_post(s: Seq<char>, r: Result<i64, ScanError>) -> bool {
        match spec_parse_int(s, 10, true, i64::MIN as int, i64::MAX as int) {
            Ok(v) => r == Ok::<i64, ScanError>(v as i64),
            Err(e) => r == Err::<i64, ScanError>(ScanError::Decode(e)),
        }
    }

    fn is_valid_start(c: char) -> (b: bool) {
        start_num(c, 10, false, true)
    }

    fn scan(s: &str) -> (r: Result<i64, ScanError>) {
        match parse_signed(s, 10, i64::MIN as i128, i64::MAX as i128) {
            Ok(v) => Ok(v as i64),
            Err(e) => Err(ScanError::Decode(e)),
        }
    }
}

impl Scan for u32 {
    open spec fn spec_valid_start(c: char) -> bool {
        spec_start_num(c, 10, false, false)
    }

    open spec fn scan_post(s: Seq<char>, r: Result<u32, ScanError>) -> bool {
        match spec_parse_int(s, 10, false, 0, u32::MAX as int) {
            Ok(v) => r == Ok::<u32, ScanError>(v as u32),
            Err(e) => r == Err::<u32, ScanError>(ScanError::Decode(e)),
        }
    }

    fn is_valid_start(c: char) -> (b: bool) {
        start_num(c, 10, false, false)
    }

    fn scan(s: &str) -> (r: Result<u32, ScanError>) {
        match parse_unsigned(s, 10, u32::MAX as u128) {
            Ok(v) => Ok(v as u32),
            Err(e) => Err(ScanError::Decode(e)),
        }
    }
}

impl Scan for u64 {
    open spec fn spec_valid_start(c: char) -> bool {
        spec_start_num(c, 10, false, false)
    }

    open spec fn scan_post(s: Seq<char>, r: Result<u64, ScanError>) -> bool {
        match spec_parse_int(s, 10, false, 0, u64::MAX as int) {
            Ok(v) => r == Ok::<u64, ScanError>(v as u64),
            Err(e) => r == Err::<u64, ScanError>(ScanError::Decode(e)),
        }
    }

    fn is_valid_start(c: char) -> (b: bool) {
        start_num(c, 10, false, false)
    }

    fn scan(s: &str) -> (r: Result<u64, ScanError>) {
        match parse_unsigned(s, 10, u64::MAX as u128) {
            Ok(v) => Ok(v as u64),
            Err(e) => Err(ScanError::Decode(e)),
        }
    }
}

impl ScanBinary for i32 {
    open spec fn spec_valid_start(c: char) -> bool {
        spec_start_num(c, 2, false, true)
    }

    open spec fn scan_post(s: Seq<char>, r: Result<i32, ScanError>) -> bool {
        match spec_parse_int(s, 2, true, i32::MIN as int, i32::MAX as int) {
            Ok(v) => r == Ok::<i32, ScanError>(v as i32),
            Err(e) => r == Err::<i32, ScanError>(ScanError::Decode(e)),
        }
    }

    fn is_valid_start(c: char) -> (b: bool) {
        start_num(c, 2, false, true)
    }

    fn scan(s: &str) -> (r: Result<i32, ScanError>) {
        match parse_signed(s, 2, i32::MIN as i128, i32::MAX as i128) {
            Ok(v) => Ok(v as i32),
            Err(e) => Err(ScanError::Decode(e)),
        }
    }
}

impl ScanBinary for i64 {
    open spec fn spec_valid_start(c: char) -> bool {
        spec_start_num(c, 2, false, true)
    }

    open spec fn scan_post(s: Seq<char>, r: Result<i64, ScanError>) -> bool {
        match spec_parse_int(s, 2, true, i64::MIN as int, i64::MAX as int) {
            Ok(v) => r == Ok::<i64, ScanError>(v as i64),
            Err(e) => r == Err::<i64, ScanError>(ScanError::Decode(e)),
        }
    }

    fn is_valid_start(c: char) -> (b: bool) {
        start_num(c, 2, false, true)
    }

    fn scan(s: &str) -> (r: Result<i64, ScanError>) {
        match parse_signed(s, 2, i64::MIN as i128, i64::MAX as i128) {
            Ok(v) => Ok(v as i64),
            Err(e) => Err(ScanError::Decode(e)),
        }
    }
}

impl ScanBinary for u32 {
    open spec fn spec_valid_start(c: char) -> bool {
        spec_start_num(c, 2, false, false)
    }

    open spec fn scan_post(s: Seq<char>, r: Result<u32, ScanError>) -> bool {
        match spec_parse_int(s, 2, false, 0, u32::MAX as int) {
            Ok(v) => r == Ok::<u32, ScanError>(v as u32),
            Err(e) => r == Err::<u32, ScanError>(ScanError::Decode(e)),
        }
    }

    fn is_valid_start(c: char) -> (b: bool) {
        start_num(c, 2, false, false)
    }

    fn scan(s: &str) -> (r: Result<u32, ScanError>) {
        match parse_unsigned(s, 2, u32::MAX as u128) {
            Ok(v) => Ok(v as u32),
            Err(e) => Err(ScanError::Decode(e)),
        }
    }
}

impl ScanBinary for u64 {
    open spec fn spec_valid_start(c: char) -> bool {
        spec_start_num(c, 2, false, false)
    }

    open spec fn scan_post(s: Seq<char>, r: Result<u64, ScanError>) -> bool {
        match spec_parse_int(s, 2, false, 0, u64::MAX as int) {
            Ok(v) => r == Ok::<u64, ScanError>(v as u64),
            Err(e) => r == Err::<u64, ScanError>(ScanError::Decode(e)),
        }
    }

    fn is_valid_start(c: char) -> (b: bool) {
        start_num(c, 2, false, false)
    }

    fn scan(s: &str) -> (r: Result<u64, ScanError>) {
        match parse_unsigned(s, 2, u64::MAX as u128) {
            Ok(v) => Ok(v as u64),
            Err(e) => Err(ScanError::Decode(e)),
        }
    }
}

impl ScanOctal for i32 {
    open spec fn spec_valid_start(c: char) -> bool {
        spec_start_num(c, 8, false, true)
    }

    open spec fn scan_post(s: Seq<char>, r: Result<i32, ScanError>) -> bool {
        match spec_parse_int(s, 8, true, i32::MIN as int, i32::MAX as int) {
            Ok(v) => r == Ok::<i32, ScanError>(v as i32),
            Err(e) => r == Err::<i32, ScanError>(ScanError::Decode(e)),
        }
    }

    fn is_valid_start(c: char) -> (b: bool) {
        start_num(c, 8, false, true)
    }

    fn scan(s: &str) -> (r: Result<i32, ScanError>) {
        match parse_signed(s, 8, i32::MIN as i128, i32::MAX as i128) {
            Ok(v) => Ok(v as i32),
            Err(e) => Err(ScanError::Decode(e)),
        }
    }
}

impl ScanOctal for i64 {
    open spec fn spec_valid_start(c: char) -> bool {
        spec_start_num(c, 8, false, true)
    }

    open spec fn scan_post(s: Seq<char>, r: Result<i64, ScanError>) -> bool {
        match spec_parse_int(s, 8, true, i64::MIN as int, i64::MAX as int) {
            Ok(v) => r == Ok::<i64, ScanError>(v as i64),
            Err(e) => r == Err::<i64, ScanError>(ScanError::Decode(e)),
        }
    }

    fn is_valid_start(c: char) -> (b: bool) {
        start_num(c, 8, false, true)
    }

    fn scan(s: &str) -> (r: Result<i64, ScanError>) {
        match parse_signed(s, 8, i64::MIN as i128, i64::MAX as i128) {
            Ok(v) => Ok(v as i64),
            Err(e) => Err(ScanError::Decode(e)),
        }
    }
}

impl ScanOctal for u32 {
    open spec fn spec_valid_start(c: char) -> bool {
        spec_start_num(c, 8, false, false)
    }

    open spec fn scan_post(s: Seq<char>, r: Result<u32, ScanError>) -> bool {
        match spec_parse_int(s, 8, false, 0, u32::MAX as int) {
            Ok(v) => r == Ok::<u32, ScanError>(v as u32),
            Err(e) => r == Err::<u32, ScanError>(ScanError::Decode(e)),
        }
    }

    fn is_valid_start(c: char) -> (b: bool) {
        start_num(c, 8, false, false)
    }

    fn scan(s: &str) -> (r: Result<u32, ScanError>) {
        match parse_unsigned(s, 8, u32::MAX as u128) {
            Ok(v) => Ok(v as u32),
            Err(e) => Err(ScanError::Decode(e)),
        }
    }
}

impl ScanOctal for u64 {
    open spec fn spec_valid_start(c: char) -> bool {
        spec_start_num(c, 8, false, false)
    }

    open spec fn scan_post(s: Seq<char>, r: Result<u64, ScanError>) -> bool {
        match spec_parse_int(s, 8, false, 0, u64::MAX as int) {
            Ok(v) => r == Ok::<u64, ScanError>(v as u64),
            Err(e) => r == Err::<u64, ScanError>(ScanError::Decode(e)),
        }
    }

    fn is_valid_start(c: char) -> (b: bool) {
        start_num(c, 8, false, false)
    }

    fn scan(s: &str) -> (r: Result<u64, ScanError>) {
        match parse_unsigned(s, 8, u64::MAX as u128) {
            Ok(v) => Ok(v as u64),
            Err(e) => Err(ScanError::Decode(e)),
        }
    }
}

impl ScanLowerHex for i32 {
    open spec fn spec_valid_start(c: char) -> bool {
        spec_start_num(c, 16, false, true)
    }

    open spec fn scan_post(s: Seq<char>, r: Result<i32, ScanError>) -> bool {
        match spec_parse_int(s, 16, true, i32::MIN as int, i32::MAX as int) {
            Ok(v) => r == Ok::<i32, ScanError>(v as i32),
            Err(e) => r == Err::<i32, ScanError>(ScanError::Decode(e)),
        }
    }

    fn is_valid_start(c: char) -> (b: bool) {
        start_num(c, 16, false, true)
    }

    fn scan(s: &str) -> (r: Result<i32, ScanError>) {
        match parse_signed(s, 16, i32::MIN as i128, i32::MAX as i128) {
            Ok(v) => Ok(v as i32),
            Err(e) => Err(ScanError::Decode(e)),
        }
    }
}

impl ScanLowerHex for i64 {
    open spec fn spec_valid_start(c: char) -> bool {
        spec_start_num(c, 16, false, true)
    }

    open spec fn scan_post(s: Seq<char>, r: Result<i64, ScanError>) -> bool {
        match spec_parse_int(s, 16, true, i64::MIN as int, i64::MAX as int) {
            Ok(v) => r == Ok::<i64, ScanError>(v as i64),
            Err(e) => r == Err::<i64, ScanError>(ScanError::Decode(e)),
        }
    }

    fn is_valid_start(c: char) -> (b: bool) {
        start_num(c, 16, false, true)
    }

    fn scan(s: &str) -> (r: Result<i64, ScanError>) {
        match parse_signed(s, 16, i64::MIN as i128, i64::MAX as i128) {
            Ok(v) => Ok(v as i64),
            Err(e) => Err(ScanError::Decode(e)),
        }
    }
}

impl ScanLowerHex for u32 {
    open spec fn spec_valid_start(c: char) -> bool {
        spec_start_num(c, 16, false, false)
    }

    open spec fn scan_post(s: Seq<char>, r: Result<u32, ScanError>) -> bool {
        match spec_parse_int(s, 16, false, 0, u32::MAX as int) {
            Ok(v) => r == Ok::<u32, ScanError>(v as u32),
            Err(e) => r == Err::<u32, ScanError>(ScanError::Decode(e)),
        }
    }

    fn is_valid_start(c: char) -> (b: bool) {
        start_num(c, 16, false, false)
    }

    fn scan(s: &str) -> (r: Result<u32, ScanError>) {
        match parse_unsigned(s, 16, u32::MAX as u128) {
            Ok(v) => Ok(v as u32),
            Err(e) => Err(ScanError::Decode(e)),
        }
    }
}

impl ScanLowerHex for u64 {
    open spec fn spec_valid_start(c: char) -> bool {
        spec_start_num(c, 16, false, false)
    }

    open spec fn scan_post(s: Seq<char>, r: Result<u64, ScanError>) -> bool {
        match spec_parse_int(s, 16, false, 0, u64::MAX as int) {
            Ok(v) => r == Ok::<u64, ScanError>(v as u64),
            Err(e) => r == Err::<u64, ScanError>(ScanError::Decode(e)),
        }
    }

    fn is_valid_start(c: char) -> (b: bool) {
        start_num(c, 16, false, false)
    }

    fn scan(s: &str) -> (r: Result<u64, ScanError>) {
        match parse_unsigned(s, 16, u64::MAX as u128) {
            Ok(v) => Ok(v as u64),
            Err(e) => Err(ScanError::Decode(e)),
        }
    }
}

impl ScanUpperHex for i32 {
    open spec fn spec_valid_start(c: char) -> bool {
        spec_start_num(c, 16, true, true)
    }

    open spec fn scan_post(s: Seq<char>, r: Result<i32, ScanError>) -> bool {
        match spec_parse_int(s, 16, true, i32::MIN as int, i32::MAX as int) {
            Ok(v) => r == Ok::<i32, ScanError>(v as i32),
            Err(e) => r == Err::<i32, ScanError>(ScanError::Decode(e)),
        }
    }

    fn is_valid_start(c: char) -> (b: bool) {
        start_num(c, 16, true, true)
    }

    fn scan(s: &str) -> (r: Result<i32, ScanError>) {
        match parse_signed(s, 16, i32::MIN as i128, i32::MAX as i128) {
            Ok(v) => Ok(v as i32),
            Err(e) => Err(ScanError::Decode(e)),
        }
    }
}

impl ScanUpperHex for i64 {
    open spec fn spec_valid_start(c: char) -> bool {
        spec_start_num(c, 16, true, true)
    }

    open spec fn scan_post(s: Seq<char>, r: Result<i64, ScanError>) -> bool {
        match spec_parse_int(s, 16, true, i64::MIN as int, i64::MAX as int) {
            Ok(v) => r == Ok::<i64, ScanError>(v as i64),
            Err(e) => r == Err::<i64, ScanError>(ScanError::Decode(e)),
        }
    }

    fn is_valid_start(c: char) -> (b: bool) {
        start_num(c, 16, true, true)
    }

    fn scan(s: &str) -> (r: Result<i64, ScanError>) {
        match parse_signed(s, 16, i64::MIN as i128, i64::MAX as i128) {
            Ok(v) => Ok(v as i64),
            Err(e) => Err(ScanError::Decode(e)),
        }
    }
}

impl ScanUpperHex for u32 {
    open spec fn spec_valid_start(c: char) -> bool {
        spec_start_num(c, 16, true, false)
    }

    open spec fn scan_post(s: Seq<char>, r: Result<u32, ScanError>) -> bool {
        match spec_parse_int(s, 16, false, 0, u32::MAX as int) {
            Ok(v) => r == Ok::<u32, ScanError>(v as u32),
            Err(e) => r == Err::<u32, ScanError>(ScanError::Decode(e)),
        }
    }

    fn is_valid_start(c: char) -> (b: bool) {
        start_num(c, 16, true, false)
    }

    fn scan(s: &str) -> (r: Result<u32, ScanError>) {
        match parse_unsigned(s, 16, u32::MAX as u128) {
            Ok(v) => Ok(v as u32),
            Err(e) => Err(ScanError::Decode(e)),
        }
    }
}

impl ScanUpperHex for u64 {
    open spec fn spec_valid_start(c: char) -> bool {
        spec_start_num(c, 16, true, false)
    }

    open spec fn scan_post(s: Seq<char>, r: Result<u64, ScanError>) -> bool {
        match spec_parse_int(s, 16, false, 0, u64::MAX as int) {
            Ok(v) => r == Ok::<u64, ScanError>(v as u64),
            Err(e) => r == Err::<u64, ScanError>(ScanError::Decode(e)),
        }
    }

    fn is_valid_start(c: char) -> (b: bool) {
        start_num(c, 16, true, false)
    }

    fn scan(s: &str) -> (r: Result<u64, ScanError>) {
        match parse_unsigned(s, 16, u64::MAX as u128) {
            Ok(v) => Ok(v as u64),
            Err(e) => Err(ScanError::Decode(e)),
        }
    }
}


impl Scan for i8 {
    open spec fn spec_valid_start(c: char) -> bool {
        spec_start_num(c, 10, false, true)
    }

    open spec fn scan_post(s: Seq<char>, r: Result<i8, ScanError>) -> bool {
        match spec_parse_int(s, 10, true, i8::MIN as int, i8::MAX as int) {
            Ok(v) => r == Ok::<i8, ScanError>(v as i8),
            Err(e) => r == Err::<i8, ScanError>(ScanError::Decode(e)),
        }
    }

    fn is_valid_start(c: char) -> (b: bool) {
        start_num(c, 10, false, true)
    }

    fn scan(s: &str) -> (r: Result<i8, ScanError>) {
        match parse_signed(s, 10, i8::MIN as i128, i8::MAX as i128) {
            Ok(v) => Ok(v as i8),
            Err(e) => Err(ScanError::Decode(e)),
        }
    }
}

impl Scan for i16 {
    open spec fn spec_valid_start(c: char) -> bool {
        spec_start_num(c, 10, false, true)
    }

    open spec fn scan_post(s: Seq<char>, r: Result<i16, ScanError>) -> bool {
        match spec_parse_int(s, 10, true, i16::MIN as int, i16::MAX as int) {
            Ok(v) => r == Ok::<i16, ScanError>(v as i16),
            Err(e) => r == Err::<i16, ScanError>(ScanError::Decode(e)),
        }
    }

    fn is_valid_start(c: char) -> (b: bool) {
        start_num(c, 10, false, true)
    }

    fn scan(s: &str) -> (r: Result<i16, ScanError>) {
        match parse_signed(s, 10, i16::MIN as i128, i16::MAX as i128) {
            Ok(v) => Ok(v as i16),
            Err(e) => Err(ScanError::Decode(e)),
        }
    }
}

impl Scan for i128 {
    open spec fn spec_valid_start(c: char) -> bool {
        spec_start_num(c, 10, false, true)
    }

    open spec fn scan_post(s: Seq<char>, r: Result<i128, ScanError>) -> bool {
        match spec_parse_int(s, 10, true, i128::MIN as int, i128::MAX as int) {
            Ok(v) => r == Ok::<i128, ScanError>(v as i128),
            Err(e) => r == Err::<i128, ScanError>(ScanError::Decode(e)),
        }
    }

    fn is_valid_start(c: char) -> (b: bool) {
        start_num(c, 10, false, true)
    }

    fn scan(s: &str) -> (r: Result<i128, ScanError>) {
        match parse_signed(s, 10, i128::MIN as i128, i128::MAX as i128) {
            Ok(v) => Ok(v as i128),
            Err(e) => Err(ScanError::Decode(e)),
        }
    }
}

impl Scan for isize {
    open spec fn spec_valid_start(c: char) -> bool {
        spec_start_num(c, 10, false, true)
    }

    open spec fn scan_post(s: Seq<char>, r: Result<isize, ScanError>) -> bool {
        match spec_parse_int(s, 10, true, isize::MIN as int, isize::MAX as int) {
            Ok(v) => r == Ok::<isize, ScanError>(v as isize),
            Err(e) => r == Err::<isize, ScanError>(ScanError::Decode(e)),
        }
    }

    fn is_valid_start(c: char) -> (b: bool) {
        start_num(c, 10, false, true)
    }

    fn scan(s: &str) -> (r: Result<isize, ScanError>) {
        match parse_signed(s, 10, isize::MIN as i128, isize::MAX as i128) {
            Ok(v) => Ok(v as isize),
            Err(e) => Err(ScanError::Decode(e)),
        }
    }
}

impl Scan for u8 {
    open spec fn spec_valid_start(c: char) -> bool {
        spec_start_num(c, 10, false, false)
    }

    open spec fn scan_post(s: Seq<char>, r: Result<u8, ScanError>) -> bool {
        match spec_parse_int(s, 10, false, 0, u8::MAX as int) {
            Ok(v) => r == Ok::<u8, ScanError>(v as u8),
            Err(e) => r == Err::<u8, ScanError>(ScanError::Decode(e)),
        }
    }

    fn is_valid_start(c: char) -> (b: bool) {
        start_num(c, 10, false, false)
    }

    fn scan(s: &str) -> (r: Result<u8, ScanError>) {
        match parse_unsigned(s, 10, u8::MAX as u128) {
            Ok(v) => Ok(v as u8),
            Err(e) => Err(ScanError::Decode(e)),
        }
    }
}

impl Scan for u16 {
    open spec fn spec_valid_start(c: char) -> bool {
        spec_start_num(c, 10, false, false)
    }

    open spec fn scan_post(s: Seq<char>, r: Result<u16, ScanError>) -> bool {
        match spec_parse_int(s, 10, false, 0, u16::MAX as int) {
            Ok(v) => r == Ok::<u16, ScanError>(v as u16),
            Err(e) => r == Err::<u16, ScanError>(ScanError::Decode(e)),
        }
    }

    fn is_valid_start(c: char) -> (b: bool) {
        start_num(c, 10, false, false)
    }

    fn scan(s: &str) -> (r: Result<u16, ScanError>) {
        match parse_unsigned(s, 10, u16::MAX as u128) {
            Ok(v) => Ok(v as u16),
            Err(e) => Err(ScanError::Decode(e)),
        }
    }
}

impl Scan for u128 {
    open spec fn spec_valid_start(c: char) -> bool {
        spec_start_num(c, 10, false, false)
    }

    open spec fn scan_post(s: Seq<char>, r: Result<u128, ScanError>) -> bool {
        match spec_parse_int(s, 10, false, 0, u128::MAX as int) {
            Ok(v) => r == Ok::<u128, ScanError>(v as u128),
            Err(e) => r == Err::<u128, ScanError>(ScanError::Decode(e)),
        }
    }

    fn is_valid_start(c: char) -> (b: bool) {
        start_num(c, 10, false, false)
    }

    fn scan(s: &str) -> (r: Result<u128, ScanError>) {
        match parse_unsigned(s, 10, u128::MAX as u128) {
            Ok(v) => Ok(v as u128),
            Err(e) => Err(ScanError::Decode(e)),
        }
    }
}

impl Scan for usize {
    open spec fn spec_valid_start(c: char) -> bool {
        spec_start_num(c, 10, false, false)
    }

    open spec fn scan_post(s: Seq<char>, r: Result<usize, ScanError>) -> bool {
        match spec_parse_int(s, 10, false, 0, usize::MAX as int) {
            Ok(v) => r == Ok::<usize, ScanError>(v as usize),
            Err(e) => r == Err::<usize, ScanError>(ScanError::Decode(e)),
        }
    }

    fn is_valid_start(c: char) -> (b: bool) {
        start_num(c, 10, false, false)
    }

    fn scan(s: &str) -> (r: Result<usize, ScanError>) {
        match parse_unsigned(s, 10, usize::MAX as u128) {
            Ok(v) => Ok(v as usize),
            Err(e) => Err(ScanError::Decode(e)),
        }
    }
}

impl ScanBinary for i8 {
    open spec fn spec_valid_start(c: char) -> bool {
        spec_start_num(c, 2, false, true)
    }

    open spec fn scan_post(s: Seq<char>, r: Result<i8, ScanError>) -> bool {
        match spec_parse_int(s, 2, true, i8::MIN as int, i8::MAX as int) {
            Ok(v) => r == Ok::<i8, ScanError>(v as i8),
            Err(e) => r == Err::<i8, ScanError>(ScanError::Decode(e)),
        }
    }

    fn is_valid_start(c: char) -> (b: bool) {
        start_num(c, 2, false, true)
    }

    fn scan(s: &str) -> (r: Result<i8, ScanError>) {
        match parse_signed(s, 2, i8::MIN as i128, i8::MAX as i128) {
            Ok(v) => Ok(v as i8),
            Err(e) => Err(ScanError::Decode(e)),
        }
    }
}

impl ScanBinary for i16 {
    open spec fn spec_valid_start(c: char) -> bool {
        spec_start_num(c, 2, false, true)
    }

    open spec fn scan_post(s: Seq<char>, r: Result<i16, ScanError>) -> bool {
        match spec_parse_int(s, 2, true, i16::MIN as int, i16::MAX as int) {
            Ok(v) => r == Ok::<i16, ScanError>(v as i16),
            Err(e) => r == Err::<i16, ScanError>(ScanError::Decode(e)),
        }
    }

    fn is_valid_start(c: char) -> (b: bool) {
        start_num(c, 2, false, true)
    }

    fn scan(s: &str) -> (r: Result<i16, ScanError>) {
        match parse_signed(s, 2, i16::MIN as i128, i16::MAX as i128) {
            Ok(v) => Ok(v as i16),
            Err(e) => Err(ScanError::Decode(e)),
        }
    }
}

impl ScanBinary for i128 {
    open spec fn spec_valid_start(c: char) -> bool {
        spec_start_num(c, 2, false, true)
    }

    open spec fn scan_post(s: Seq<char>, r: Result<i128, ScanError>) -> bool {
        match spec_parse_int(s, 2, true, i128::MIN as int, i128::MAX as int) {
            Ok(v) => r == Ok::<i128, ScanError>(v as i128),
            Err(e) => r == Err::<i128, ScanError>(ScanError::Decode(e)),
        }
    }

    fn is_valid_start(c: char) -> (b: bool) {
        start_num(c, 2, false, true)
    }

    fn scan(s: &str) -> (r: Result<i128, ScanError>) {
        match parse_signed(s, 2, i128::MIN as i128, i128::MAX as i128) {
            Ok(v) => Ok(v as i128),
            Err(e) => Err(ScanError::Decode(e)),
        }
    }
}

impl ScanBinary for isize {
    open spec fn spec_valid_start(c: char) -> bool {
        spec_start_num(c, 2, false, true)
    }

    open spec fn scan_post(s: Seq<char>, r: Result<isize, ScanError>) -> bool {
        match spec_parse_int(s, 2, true, isize::MIN as int, isize::MAX as int) {
            Ok(v) => r == Ok::<isize, ScanError>(v as isize),
            Err(e) => r == Err::<isize, ScanError>(ScanError::Decode(e)),
        }
    }

    fn is_valid_start(c: char) -> (b: bool) {
        start_num(c, 2, false, true)
    }

    fn scan(s: &str) -> (r: Result<isize, ScanError>) {
        match parse_signed(s, 2, isize::MIN as i128, isize::MAX as i128) {
            Ok(v) => Ok(v as isize),
            Err(e) => Err(ScanError::Decode(e)),
        }
    }
}

impl ScanBinary for u8 {
    open spec fn spec_valid_start(c: char) -> bool {
        spec_start_num(c, 2, false, false)
    }

    open spec fn scan_post(s: Seq<char>, r: Result<u8, ScanError>) -> bool {
        match spec_parse_int(s, 2, false, 0, u8::MAX as int) {
            Ok(v) => r == Ok::<u8, ScanError>(v as u8),
            Err(e) => r == Err::<u8, ScanError>(ScanError::Decode(e)),
        }
    }

    fn is_valid_start(c: char) -> (b: bool) {
        start_num(c, 2, false, false)
    }

    fn scan(s: &str) -> (r: Result<u8, ScanError>) {
        match parse_unsigned(s, 2, u8::MAX as u128) {
            Ok(v) => Ok(v as u8),
            Err(e) => Err(ScanError::Decode(e)),
        }
    }
}

impl ScanBinary for u16 {
    open spec fn spec_valid_start(c: char) -> bool {
        spec_start_num(c, 2, false, false)
    }

    open spec fn scan_post(s: Seq<char>, r: Result<u16, ScanError>) -> bool {
        match spec_parse_int(s, 2, false, 0, u16::MAX as int) {
            Ok(v) => r == Ok::<u16, ScanError>(v as u16),
            Err(e) => r == Err::<u16, ScanError>(ScanError::Decode(e)),
        }
    }

    fn is_valid_start(c: char) -> (b: bool) {
        start_num(c, 2, false, false)
    }

    fn scan(s: &str) -> (r: Result<u16, ScanError>) {
        match parse_unsigned(s, 2, u16::MAX as u128) {
            Ok(v) => Ok(v as u16),
            Err(e) => Err(ScanError::Decode(e)),
        }
    }
}

impl ScanBinary for u128 {
    open spec fn spec_valid_start(c: char) -> bool {
        spec_start_num(c, 2, false, false)
    }

    open spec fn scan_post(s: Seq<char>, r: Result<u128, ScanError>) -> bool {
        match spec_parse_int(s, 2, false, 0, u128::MAX as int) {
            Ok(v) => r == Ok::<u128, ScanError>(v as u128),
            Err(e) => r == Err::<u128, ScanError>(ScanError::Decode(e)),
        }
    }

    fn is_valid_start(c: char) -> (b: bool) {
        start_num(c, 2, false, false)
    }

    fn scan(s: &str) -> (r: Result<u128, ScanError>) {
        match parse_unsigned(s, 2, u128::MAX as u128) {
            Ok(v) => Ok(v as u128),
            Err(e) => Err(ScanError::Decode(e)),
        }
    }
}

impl ScanBinary for usize {
    open spec fn spec_valid_start(c: char) -> bool {
        spec_start_num(c, 2, false, false)
    }

    open spec fn scan_post(s: Seq<char>, r: Result<usize, ScanError>) -> bool {
        match spec_parse_int(s, 2, false, 0, usize::MAX as int) {
            Ok(v) => r == Ok::<usize, ScanError>(v as usize),
            Err(e) => r == Err::<usize, ScanError>(ScanError::Decode(e)),
        }
    }

    fn is_valid_start(c: char) -> (b: bool) {
        start_num(c, 2, false, false)
    }

    fn scan(s: &str) -> (r: Result<usize, ScanError>) {
        match parse_unsigned(s, 2, usize::MAX as u128) {
            Ok(v) => Ok(v as usize),
            Err(e) => Err(ScanError::Decode(e)),
        }
    }
}

impl ScanOctal for i8 {
    open spec fn spec_valid_start(c: char) -> bool {
        spec_start_num(c, 8, false, true)
    }

    open spec fn scan_post(s: Seq<char>, r: Result<i8, ScanError>) -> bool {
        match spec_parse_int(s, 8, true, i8::MIN as int, i8::MAX as int) {
            Ok(v) => r == Ok::<i8, ScanError>(v as i8),
            Err(e) => r == Err::<i8, ScanError>(ScanError::Decode(e)),
        }
    }

    fn is_valid_start(c: char) -> (b: bool) {
        start_num(c, 8, false, true)
    }

    fn scan(s: &str) -> (r: Result<i8, ScanError>) {
        match parse_signed(s, 8, i8::MIN as i128, i8::MAX as i128) {
            Ok(v) => Ok(v as i8),
            Err(e) => Err(ScanError::Decode(e)),
        }
    }
}

impl ScanOctal for i16 {
    open spec fn spec_valid_start(c: char) -> bool {
        spec_start_num(c, 8, false, true)
    }

    open spec fn scan_post(s: Seq<char>, r: Result<i16, ScanError>) -> bool {
        match spec_parse_int(s, 8, true, i16::MIN as int, i16::MAX as int) {
            Ok(v) => r == Ok::<i16, ScanError>(v as i16),
            Err(e) => r == Err::<i16, ScanError>(ScanError::Decode(e)),
        }
    }

    fn is_valid_start(c: char) -> (b: bool) {
        start_num(c, 8, false, true)
    }

    fn scan(s: &str) -> (r: Result<i16, ScanError>) {
        match parse_signed(s, 8, i16::MIN as i128, i16::MAX as i128) {
            Ok(v) => Ok(v as i16),
            Err(e) => Err(ScanError::Decode(e)),
        }
    }
}

impl ScanOctal for i128 {
    open spec fn spec_valid_start(c: char) -> bool {
        spec_start_num(c, 8, false, true)
    }

    open spec fn scan_post(s: Seq<char>, r: Result<i128, ScanError>) -> bool {
        match spec_parse_int(s, 8, true, i128::MIN as int, i128::MAX as int) {
            Ok(v) => r == Ok::<i128, ScanError>(v as i128),
            Err(e) => r == Err::<i128, ScanError>(ScanError::Decode(e)),
        }
    }

    fn is_valid_start(c: char) -> (b: bool) {
        start_num(c, 8, false, true)
    }

    fn scan(s: &str) -> (r: Result<i128, ScanError>) {
        match parse_signed(s, 8, i128::MIN as i128, i128::MAX as i128) {
            Ok(v) => Ok(v as i128),
            Err(e) => Err(ScanError::Decode(e)),
        }
    }
}

impl ScanOctal for isize {
    open spec fn spec_valid_start(c: char) -> bool {
        spec_start_num(c, 8, false, true)
    }

    open spec fn scan_post(s: Seq<char>, r: Result<isize, ScanError>) -> bool {
        match spec_parse_int(s, 8, true, isize::MIN as int, isize::MAX as int) {
            Ok(v) => r == Ok::<isize, ScanError>(v as isize),
            Err(e) => r == Err::<isize, ScanError>(ScanError::Decode(e)),
        }
    }

    fn is_valid_start(c: char) -> (b: bool) {
        start_num(c, 8, false, true)
    }

    fn scan(s: &str) -> (r: Result<isize, ScanError>) {
        match parse_signed(s, 8, isize::MIN as i128, isize::MAX as i128) {
            Ok(v) => Ok(v as isize),
            Err(e) => Err(ScanError::Decode(e)),
        }
    }
}

impl ScanOctal for u8 {
    open spec fn spec_valid_start(c: char) -> bool {
        spec_start_num(c, 8, false, false)
    }

    open spec fn scan_post(s: Seq<char>, r: Result<u8, ScanError>) -> bool {
        match spec_parse_int(s, 8, false, 0, u8::MAX as int) {
            Ok(v) => r == Ok::<u8, ScanError>(v as u8),
            Err(e) => r == Err::<u8, ScanError>(ScanError::Decode(e)),
        }
    }

    fn is_valid_start(c: char) -> (b: bool) {
        start_num(c, 8, false, false)
    }

    fn scan(s: &str) -> (r: Result<u8, ScanError>) {
        match parse_unsigned(s, 8, u8::MAX as u128) {
            Ok(v) => Ok(v as u8),
            Err(e) => Err(ScanError::Decode(e)),
        }
    }
}

impl ScanOctal for u16 {
    open spec fn spec_valid_start(c: char) -> bool {
        spec_start_num(c, 8, false, false)
    }

    open spec fn scan_post(s: Seq<char>, r: Result<u16, ScanError>) -> bool {
        match spec_parse_int(s, 8, false, 0, u16::MAX as int) {
            Ok(v) => r == Ok::<u16, ScanError>(v as u16),
            Err(e) => r == Err::<u16, ScanError>(ScanError::Decode(e)),
        }
    }

    fn is_valid_start(c: char) -> (b: bool) {
        start_num(c, 8, false, false)
    }

    fn scan(s: &str) -> (r: Result<u16, ScanError>) {
        match parse_unsigned(s, 8, u16::MAX as u128) {
            Ok(v) => Ok(v as u16),
            Err(e) => Err(ScanError::Decode(e)),
        }
    }
}

impl ScanOctal for u128 {
    open spec fn spec_valid_start(c: char) -> bool {
        spec_start_num(c, 8, false, false)
    }

    open spec fn scan_post(s: Seq<char>, r: Result<u128, ScanError>) -> bool {
        match spec_parse_int(s, 8, false, 0, u128::MAX as int) {
            Ok(v) => r == Ok::<u128, ScanError>(v as u128),
            Err(e) => r == Err::<u128, ScanError>(ScanError::Decode(e)),
        }
    }

    fn is_valid_start(c: char) -> (b: bool) {
        start_num(c, 8, false, false)
    }

    fn scan(s: &str) -> (r: Result<u128, ScanError>) {
        match parse_unsigned(s, 8, u128::MAX as u128) {
            Ok(v) => Ok(v as u128),
            Err(e) => Err(ScanError::Decode(e)),
        }
    }
}

impl ScanOctal for usize {
    open spec fn spec_valid_start(c: char) -> bool {
        spec_start_num(c, 8, false, false)
    }

    open spec fn scan_post(s: Seq<char>, r: Result<usize, ScanError>) -> bool {
        match spec_parse_int(s, 8, false, 0, usize::MAX as int) {
            Ok(v) => r == Ok::<usize, ScanError>(v as usize),
            Err(e) => r == Err::<usize, ScanError>(ScanError::Decode(e)),
        }
    }

    fn is_valid_start(c: char) -> (b: bool) {
        start_num(c, 8, false, false)
    }

    fn scan(s: &str) -> (r: Result<usize, ScanError>) {
        match parse_unsigned(s, 8, usize::MAX as u128) {
            Ok(v) => Ok(v as usize),
            Err(e) => Err(ScanError::Decode(e)),
        }
    }
}

impl ScanLowerHex for i8 {
    open spec fn spec_valid_start(c: char) -> bool {
        spec_start_num(c, 16, false, true)
    }

    open spec fn scan_post(s: Seq<char>, r: Result<i8, ScanError>) -> bool {
        match spec_parse_int(s, 16, true, i8::MIN as int, i8::MAX as int) {
            Ok(v) => r == Ok::<i8, ScanError>(v as i8),
            Err(e) => r == Err::<i8, ScanError>(ScanError::Decode(e)),
        }
    }

    fn is_valid_start(c: char) -> (b: bool) {
        start_num(c, 16, false, true)
    }

    fn scan(s: &str) -> (r: Result<i8, ScanError>) {
        match parse_signed(s, 16, i8::MIN as i128, i8::MAX as i128) {
            Ok(v) => Ok(v as i8),
            Err(e) => Err(ScanError::Decode(e)),
        }
    }
}

impl ScanLowerHex for i16 {
    open spec fn spec_valid_start(c: char) -> bool {
        spec_start_num(c, 16, false, true)
    }

    open spec fn scan_post(s: Seq<char>, r: Result<i16, ScanError>) -> bool {
        match spec_parse_int(s, 16, true, i16::MIN as int, i16::MAX as int) {
            Ok(v) => r == Ok::<i16, ScanError>(v as i16),
            Err(e) => r == Err::<i16, ScanError>(ScanError::Decode(e)),
        }
    }

    fn is_valid_start(c: char) -> (b: bool) {
        start_num(c, 16, false, true)
    }

    fn scan(s: &str) -> (r: Result<i16, ScanError>) {
        match parse_signed(s, 16, i16::MIN as i128, i16::MAX as i128) {
            Ok(v) => Ok(v as i16),
            Err(e) => Err(ScanError::Decode(e)),
        }
    }
}

impl ScanLowerHex for i128 {
    open spec fn spec_valid_start(c: char) -> bool {
        spec_start_num(c, 16, false, true)
    }

    open spec fn scan_post(s: Seq<char>, r: Result<i128, ScanError>) -> bool {
        match spec_parse_int(s, 16, true, i128::MIN as int, i128::MAX as int) {
            Ok(v) => r == Ok::<i128, ScanError>(v as i128),
            Err(e) => r == Err::<i128, ScanError>(ScanError::Decode(e)),
        }
    }

    fn is_valid_start(c: char) -> (b: bool) {
        start_num(c, 16, false, true)
    }

    fn scan(s: &str) -> (r: Result<i128, ScanError>) {
        match parse_signed(s, 16, i128::MIN as i128, i128::MAX as i128) {
            Ok(v) => Ok(v as i128),
            Err(e) => Err(ScanError::Decode(e)),
        }
    }
}

impl ScanLowerHex for isize {
    open spec fn spec_valid_start(c: char) -> bool {
        spec_start_num(c, 16, false, true)
    }

    open spec fn scan_post(s: Seq<char>, r: Result<isize, ScanError>) -> bool {
        match spec_parse_int(s, 16, true, isize::MIN as int, isize::MAX as int) {
            Ok(v) => r == Ok::<isize, ScanError>(v as isize),
            Err(e) => r == Err::<isize, ScanError>(ScanError::Decode(e)),
        }
    }

    fn is_valid_start(c: char) -> (b: bool) {
        start_num(c, 16, false, true)
    }

    fn scan(s: &str) -> (r: Result<isize, ScanError>) {
        match parse_signed(s, 16, isize::MIN as i128, isize::MAX as i128) {
            Ok(v) => Ok(v as isize),
            Err(e) => Err(ScanError::Decode(e)),
        }
    }
}

impl ScanLowerHex for u8 {
    open spec fn spec_valid_start(c: char) -> bool {
        spec_start_num(c, 16, false, false)
    }

    open spec fn scan_post(s: Seq<char>, r: Result<u8, ScanError>) -> bool {
        match spec_parse_int(s, 16, false, 0, u8::MAX as int) {
            Ok(v) => r == Ok::<u8, ScanError>(v as u8),
            Err(e) => r == Err::<u8, ScanError>(ScanError::Decode(e)),
        }
    }

    fn is_valid_start(c: char) -> (b: bool) {
        start_num(c, 16, false, false)
    }

    fn scan(s: &str) -> (r: Result<u8, ScanError>) {
        match parse_unsigned(s, 16, u8::MAX as u128) {
            Ok(v) => Ok(v as u8),
            Err(e) => Err(ScanError::Decode(e)),
        }
    }
}

impl ScanLowerHex for u16 {
    open spec fn spec_valid_start(c: char) -> bool {
        spec_start_num(c, 16, false, false)
    }

    open spec fn scan_post(s: Seq<char>, r: Result<u16, ScanError>) -> bool {
        match spec_parse_int(s, 16, false, 0, u16::MAX as int) {
            Ok(v) => r == Ok::<u16, ScanError>(v as u16),
            Err(e) => r == Err::<u16, ScanError>(ScanError::Decode(e)),
        }
    }

    fn is_valid_start(c: char) -> (b: bool) {
        start_num(c, 16, false, false)
    }

    fn scan(s: &str) -> (r: Result<u16, ScanError>) {
        match parse_unsigned(s, 16, u16::MAX as u128) {
            Ok(v) => Ok(v as u16),
            Err(e) => Err(ScanError::Decode(e)),
        }
    }
}

impl ScanLowerHex for u128 {
    open spec fn spec_valid_start(c: char) -> bool {
        spec_start_num(c, 16, false, false)
    }

    open spec fn scan_post(s: Seq<char>, r: Result<u128, ScanError>) -> bool {
        match spec_parse_int(s, 16, false, 0, u128::MAX as int) {
            Ok(v) => r == Ok::<u128, ScanError>(v as u128),
            Err(e) => r == Err::<u128, ScanError>(ScanError::Decode(e)),
        }
    }

    fn is_valid_start(c: char) -> (b: bool) {
        start_num(c, 16, false, false)
    }

    fn scan(s: &str) -> (r: Result<u128, ScanError>) {
        match parse_unsigned(s, 16, u128::MAX as u128) {
            Ok(v) => Ok(v as u128),
            Err(e) => Err(ScanError::Decode(e)),
        }
    }
}

impl ScanLowerHex for usize {
    open spec fn spec_valid_start(c: char) -> bool {
        spec_start_num(c, 16, false, false)
    }

    open spec fn scan_post(s: Seq<char>, r: Result<usize, ScanError>) -> bool {
        match spec_parse_int(s, 16, false, 0, usize::MAX as int) {
            Ok(v) => r == Ok::<usize, ScanError>(v as usize),
            Err(e) => r == Err::<usize, ScanError>(ScanError::Decode(e)),
        }
    }

    fn is_valid_start(c: char) -> (b: bool) {
        start_num(c, 16, false, false)
    }

    fn scan(s: &str) -> (r: Result<usize, ScanError>) {
        match parse_unsigned(s, 16, usize::MAX as u128) {
            Ok(v) => Ok(v as usize),
            Err(e) => Err(ScanError::Decode(e)),
        }
    }
}

impl ScanUpperHex for i8 {
    open spec fn spec_valid_start(c: char) -> bool {
        spec_start_num(c, 16, true, true)
    }

    open spec fn scan_post(s: Seq<char>, r: Result<i8, ScanError>) -> bool {
        match spec_parse_int(s, 16, true, i8::MIN as int, i8::MAX as int) {
            Ok(v) => r == Ok::<i8, ScanError>(v as i8),
            Err(e) => r == Err::<i8, ScanError>(ScanError::Decode(e)),
        }
    }

    fn is_valid_start(c: char) -> (b: bool) {
        start_num(c, 16, true, true)
    }

    fn scan(s: &str) -> (r: Result<i8, ScanError>) {
        match parse_signed(s, 16, i8::MIN as i128, i8::MAX as i128) {
            Ok(v) => Ok(v as i8),
            Err(e) => Err(ScanError::Decode(e)),
        }
    }
}

impl ScanUpperHex for i16 {
    open spec fn spec_valid_start(c: char) -> bool {
        spec_start_num(c, 16, true, true)
    }

    open spec fn scan_post(s: Seq<char>, r: Result<i16, ScanError>) -> bool {
        match spec_parse_int(s, 16, true, i16::MIN as int, i16::MAX as int) {
            Ok(v) => r == Ok::<i16, ScanError>(v as i16),
            Err(e) => r == Err::<i16, ScanError>(ScanError::Decode(e)),
        }
    }

    fn is_valid_start(c: char) -> (b: bool) {
        start_num(c, 16, true, true)
    }

    fn scan(s: &str) -> (r: Result<i16, ScanError>) {
        match parse_signed(s, 16, i16::MIN as i128, i16::MAX as i128) {
            Ok(v) => Ok(v as i16),
            Err(e) => Err(ScanError::Decode(e)),
        }
    }
}

impl ScanUpperHex for i128 {
    open spec fn spec_valid_start(c: char) -> bool {
        spec_start_num(c, 16, true, true)
    }

    open spec fn scan_post(s: Seq<char>, r: Result<i128, ScanError>) -> bool {
        match spec_parse_int(s, 16, true, i128::MIN as int, i128::MAX as int) {
            Ok(v) => r == Ok::<i128, ScanError>(v as i128),
            Err(e) => r == Err::<i128, ScanError>(ScanError::Decode(e)),
        }
    }

    fn is_valid_start(c: char) -> (b: bool) {
        start_num(c, 16, true, true)
    }

    fn scan(s: &str) -> (r: Result<i128, ScanError>) {
        match parse_signed(s, 16, i128::MIN as i128, i128::MAX as i128) {
            Ok(v) => Ok(v as i128),
            Err(e) => Err(ScanError::Decode(e)),
        }
    }
}

impl ScanUpperHex for isize {
    open spec fn spec_valid_start(c: char) -> bool {
        spec_start_num(c, 16, true, true)
    }

    open spec fn scan_post(s: Seq<char>, r: Result<isize, ScanError>) -> bool {
        match spec_parse_int(s, 16, true, isize::MIN as int, isize::MAX as int) {
            Ok(v) => r == Ok::<isize, ScanError>(v as isize),
            Err(e) => r == Err::<isize, ScanError>(ScanError::Decode(e)),
        }
    }

    fn is_valid_start(c: char) -> (b: bool) {
        start_num(c, 16, true, true)
    }

    fn scan(s: &str) -> (r: Result<isize, ScanError>) {
        match parse_signed(s, 16, isize::MIN as i128, isize::MAX as i128) {
            Ok(v) => Ok(v as isize),
            Err(e) => Err(ScanError::Decode(e)),
        }
    }
}

impl ScanUpperHex for u8 {
    open spec fn spec_valid_start(c: char) -> bool {
        spec_start_num(c, 16, true, false)
    }

    open spec fn scan_post(s: Seq<char>, r: Result<u8, ScanError>) -> bool {
        match spec_parse_int(s, 16, false, 0, u8::MAX as int) {
            Ok(v) => r == Ok::<u8, ScanError>(v as u8),
            Err(e) => r == Err::<u8, ScanError>(ScanError::Decode(e)),
        }
    }

    fn is_valid_start(c: char) -> (b: bool) {
        start_num(c, 16, true, false)
    }

    fn scan(s: &str) -> (r: Result<u8, ScanError>) {
        match parse_unsigned(s, 16, u8::MAX as u128) {
            Ok(v) => Ok(v as u8),
            Err(e) => Err(ScanError::Decode(e)),
        }
    }
}

impl ScanUpperHex for u16 {
    open spec fn spec_valid_start(c: char) -> bool {
        spec_start_num(c, 16, true, false)
    }

    open spec fn scan_post(s: Seq<char>, r: Result<u16, ScanError>) -> bool {
        match spec_parse_int(s, 16, false, 0, u16::MAX as int) {
            Ok(v) => r == Ok::<u16, ScanError>(v as u16),
            Err(e) => r == Err::<u16, ScanError>(ScanError::Decode(e)),
        }
    }

    fn is_valid_start(c: char) -> (b: bool) {
        start_num(c, 16, true, false)
    }

    fn scan(s: &str) -> (r: Result<u16, ScanError>) {
        match parse_unsigned(s, 16, u16::MAX as u128) {
            Ok(v) => Ok(v as u16),
            Err(e) => Err(ScanError::Decode(e)),
        }
    }
}

impl ScanUpperHex for u128 {
    open spec fn spec_valid_start(c: char) -> bool {
        spec_start_num(c, 16, true, false)
    }

    open spec fn scan_post(s: Seq<char>, r: Result<u128, ScanError>) -> bool {
        match spec_parse_int(s, 16, false, 0, u128::MAX as int) {
            Ok(v) => r == Ok::<u128, ScanError>(v as u128),
            Err(e) => r == Err::<u128, ScanError>(ScanError::Decode(e)),
        }
    }

    fn is_valid_start(c: char) -> (b: bool) {
        start_num(c, 16, true, false)
    }

    fn scan(s: &str) -> (r: Result<u128, ScanError>) {
        match parse_unsigned(s, 16, u128::MAX as u128) {
            Ok(v) => Ok(v as u128),
            Err(e) => Err(ScanError::Decode(e)),
        }
    }
}

impl ScanUpperHex for usize {
    open spec fn spec_valid_start(c: char) -> bool {
        spec_start_num(c, 16, true, false)
    }

    open spec fn scan_post(s: Seq<char>, r: Result<usize, ScanError>) -> bool {
        match spec_parse_int(s, 16, false, 0, usize::MAX as int) {
            Ok(v) => r == Ok::<usize, ScanError>(v as usize),
            Err(e) => r == Err::<usize, ScanError>(ScanError::Decode(e)),
        }
    }

    fn is_valid_start(c: char) -> (b: bool) {
        start_num(c, 16, true, false)
    }

    fn scan(s: &str) -> (r: Result<usize, ScanError>) {
        match parse_unsigned(s, 16, usize::MAX as u128) {
            Ok(v) => Ok(v as usize),
            Err(e) => Err(ScanError::Decode(e)),
        }
    }
}

} // verus!
