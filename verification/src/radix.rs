//! Verified integer decoding in a configurable base.
//!
//! `spec_parse_int` is the mathematical model of standard radix parsing: an
//! optional sign, then digits accumulated left to right, failing on the
//! first character that is not a digit of the base and on the first step
//! that leaves the target range. The exec parsers below are proved to
//! return exactly what the model says.

use vstd::prelude::*;
use crate::DecodeError;
use vstd::string::StrSliceExecFns;

verus! {

/// The value of `c` as a digit in the given base, if it is one.
/// Letters of either case count from ten, as in standard radix parsing.
pub open spec fn spec_digit(c: char, radix: int) -> Option<int> {
    let u = c as u32;
    let d: int = if '0' as u32 <= u && u <= '9' as u32 {
        u - '0' as u32
    } else if 'a' as u32 <= u && u <= 'z' as u32 {
        u - 'a' as u32 + 10
    } else if 'A' as u32 <= u && u <= 'Z' as u32 {
        u - 'A' as u32 + 10
    } else {
        36
    };
    if d < radix {
        Some(d)
    } else {
        None
    }
}

/// Fold the digits of `digits` onto `acc`, mirroring the failure order of
/// standard parsing: each step first demands a digit of the base, then
/// that the new accumulator still lies within `min ..= max`.
pub open spec fn spec_accumulate(
    digits: Seq<char>,
    radix: int,
    positive: bool,
    min: int,
    max: int,
    acc: int,
) -> Result<int, DecodeError>
    decreases digits.len(),
{
    if digits.len() == 0 {
        Ok(acc)
    } else {
        match spec_digit(digits[0], radix) {
            None => Err(DecodeError::InvalidDigit),
            Some(d) => {
                let next = if positive {
                    acc * radix + d
                } else {
                    acc * radix - d
                };
                if positive && next > max {
                    Err(DecodeError::PosOverflow)
                } else if !positive && next < min {
                    Err(DecodeError::NegOverflow)
                } else {
                    spec_accumulate(digits.drop_first(), radix, positive, min, max, next)
                }
            },
        }
    }
}

/// What parsing `s` as an integer of base `radix` into the range
/// `min ..= max` returns. A leading `+` is always allowed; a leading `-`
/// only when `signed`. An empty string is `Empty`; a lone sign is
/// `InvalidDigit`, as is a `-` on an unsigned parse.
pub open spec fn spec_parse_int(
    s: Seq<char>,
    radix: int,
    signed: bool,
    min: int,
    max: int,
) -> Result<int, DecodeError> {
    if s.len() == 0 {
        Err(DecodeError::Empty)
    } else if s[0] == '+' {
        if s.len() == 1 {
            Err(DecodeError::InvalidDigit)
        } else {
            spec_accumulate(s.drop_first(), radix, true, min, max, 0)
        }
    } else if s[0] == '-' && signed {
        if s.len() == 1 {
            Err(DecodeError::InvalidDigit)
        } else {
            spec_accumulate(s.drop_first(), radix, false, min, max, 0)
        }
    } else {
        spec_accumulate(s, radix, true, min, max, 0)
    }
}

/// Whether `c` could begin a numeric value: a digit of the base (for the
/// upper-hex spec: a decimal digit or an upper-case hex letter), a `+`, or
/// a `-` when the type is signed.
pub open spec fn spec_start_num(c: char, radix: int, upper: bool, signed: bool) -> bool {
    (if upper {
        spec_digit(c, 10) is Some || ('A' as u32 <= c as u32 && c as u32 <= 'F' as u32)
    } else {
        spec_digit(c, radix) is Some
    }) || c == '+' || (signed && c == '-')
}

/// Decide `spec_start_num` for a character.
pub fn start_num(c: char, radix: u32, upper: bool, signed: bool) -> (b: bool)
    requires
        2 <= radix <= 36,
    ensures
        b == spec_start_num(c, radix as int, upper, signed),
{
    let u = c as u32;
    let digit_ok = if upper {
        digit_of(c, 10).is_some() || ('A' as u32 <= u && u <= 'F' as u32)
    } else {
        digit_of(c, radix).is_some()
    };
    digit_ok || c == '+' || (signed && c == '-')
}

/// The digit value of `c` in the given base, per `spec_digit`.
pub fn digit_of(c: char, radix: u32) -> (r: Option<u32>)
    requires
        2 <= radix <= 36,
    ensures
        match r {
            Some(d) => spec_digit(c, radix as int) == Some(d as int),
            None => spec_digit(c, radix as int) is None,
        },
{
    let u = c as u32;
    let d: u32 = if '0' as u32 <= u && u <= '9' as u32 {
        u - '0' as u32
    } else if 'a' as u32 <= u && u <= 'z' as u32 {
        u - 'a' as u32 + 10
    } else if 'A' as u32 <= u && u <= 'Z' as u32 {
        u - 'A' as u32 + 10
    } else {
        36
    };
    if d < radix {
        Some(d)
    } else {
        None
    }
}

/// Parse `s` as an unsigned integer of base `radix`, at most `max`.
pub fn parse_unsigned(s: &str, radix: u32, max: u128) -> (r: Result<u128, DecodeError>)
    requires
        2 <= radix <= 36,
    ensures
        match r {
            Ok(v) => v <= max && spec_parse_int(s@, radix as int, false, 0, max as int) == Ok::<
                int,
                DecodeError,
            >(v as int),
            Err(e) => spec_parse_int(s@, radix as int, false, 0, max as int) == Err::<
                int,
                DecodeError,
            >(e),
        },
{
    let n = s.unicode_len();
    if n == 0 {
        return Err(DecodeError::Empty);
    }
    let mut i: usize = 0;
    if s.get_char(0) == '+' {
        if n == 1 {
            return Err(DecodeError::InvalidDigit);
        }
        i = 1;
    }
    proof {
        assert(s@.drop_first() =~= s@.skip(1));
        assert(s@.skip(0) =~= s@);
    }
    let mut acc: u128 = 0;
    while i < n
        invariant
            2 <= radix <= 36,
            i <= n == s@.len(),
            acc <= max,
            spec_parse_int(s@, radix as int, false, 0, max as int) == spec_accumulate(
                s@.skip(i as int),
                radix as int,
                true,
                0,
                max as int,
                acc as int,
            ),
        decreases n - i,
    {
        let c = s.get_char(i);
        proof {
            assert(s@.skip(i as int)[0] == s@[i as int]);
            assert(s@.skip(i as int).drop_first() =~= s@.skip(i as int + 1));
        }
        let d: u32 = match digit_of(c, radix) {
            None => {
                return Err(DecodeError::InvalidDigit);
            },
            Some(d) => d,
        };
        let next: u128 = match acc.checked_mul(radix as u128) {
            None => {
                return Err(DecodeError::PosOverflow);
            },
            Some(m) => match m.checked_add(d as u128) {
                None => {
                    return Err(DecodeError::PosOverflow);
                },
                Some(v) => v,
            },
        };
        if next > max {
            return Err(DecodeError::PosOverflow);
        }
        acc = next;
        i += 1;
    }
    proof {
        assert(s@.skip(n as int) =~= Seq::<char>::empty());
    }
    Ok(acc)
}

/// Parse `s` as a signed integer of base `radix` within `min ..= max`.
pub fn parse_signed(s: &str, radix: u32, min: i128, max: i128) -> (r: Result<i128, DecodeError>)
    requires
        2 <= radix <= 36,
        min <= 0 <= max,
    ensures
        match r {
            Ok(v) => min <= v <= max && spec_parse_int(
                s@,
                radix as int,
                true,
                min as int,
                max as int,
            ) == Ok::<int, DecodeError>(v as int),
            Err(e) => spec_parse_int(s@, radix as int, true, min as int, max as int) == Err::<
                int,
                DecodeError,
            >(e),
        },
{
    let n = s.unicode_len();
    if n == 0 {
        return Err(DecodeError::Empty);
    }
    let mut i: usize = 0;
    let mut positive: bool = true;
    let c0 = s.get_char(0);
    if c0 == '+' {
        if n == 1 {
            return Err(DecodeError::InvalidDigit);
        }
        i = 1;
    } else if c0 == '-' {
        if n == 1 {
            return Err(DecodeError::InvalidDigit);
        }
        i = 1;
        positive = false;
    }
    proof {
        assert(s@.drop_first() =~= s@.skip(1));
        assert(s@.skip(0) =~= s@);
    }
    let mut acc: i128 = 0;
    while i < n
        invariant
            2 <= radix <= 36,
            min <= 0 <= max,
            i <= n == s@.len(),
            positive ==> 0 <= acc <= max,
            !positive ==> min <= acc <= 0,
            spec_parse_int(s@, radix as int, true, min as int, max as int) == spec_accumulate(
                s@.skip(i as int),
                radix as int,
                positive,
                min as int,
                max as int,
                acc as int,
            ),
        decreases n - i,
    {
        let c = s.get_char(i);
        proof {
            assert(s@.skip(i as int)[0] == s@[i as int]);
            assert(s@.skip(i as int).drop_first() =~= s@.skip(i as int + 1));
        }
        let d: u32 = match digit_of(c, radix) {
            None => {
                return Err(DecodeError::InvalidDigit);
            },
            Some(d) => d,
        };
        let overflow_err = if positive {
            DecodeError::PosOverflow
        } else {
            DecodeError::NegOverflow
        };
        proof {
            let p: int = (acc as int) * (radix as int);
            if positive {
                assert(p >= 0) by (nonlinear_arith)
                    requires
                        p == (acc as int) * (radix as int),
                        acc as int >= 0,
                        radix as int >= 2,
                ;
            } else {
                assert(p <= 0) by (nonlinear_arith)
                    requires
                        p == (acc as int) * (radix as int),
                        acc as int <= 0,
                        radix as int >= 2,
                ;
            }
        }
        let next: i128 = match acc.checked_mul(radix as i128) {
            None => {
                return Err(overflow_err);
            },
            Some(m) => {
                let step = if positive {
                    m.checked_add(d as i128)
                } else {
                    m.checked_sub(d as i128)
                };
                match step {
                    None => {
                        return Err(overflow_err);
                    },
                    Some(v) => v,
                }
            },
        };
        if positive && next > max {
            return Err(DecodeError::PosOverflow);
        }
        if !positive && next < min {
            return Err(DecodeError::NegOverflow);
        }
        acc = next;
        i += 1;
    }
    proof {
        assert(s@.skip(n as int) =~= Seq::<char>::empty());
    }
    Ok(acc)
}

} // verus!
