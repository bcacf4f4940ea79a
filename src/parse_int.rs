//! Reading a signed 32-bit integer from the bytes of its decimal writing.
use vstd::prelude::*;

verus! {

/// Why a byte string is not the writing of an `i32`.
#[derive(PartialEq, Eq, Structural, Debug, Clone, Copy)]
pub enum ParseIntError {
    /// There are no bytes.
    Empty,
    /// A byte is not a decimal digit, or a sign stands alone.
    InvalidDigit,
    /// The number is above `i32::MAX`.
    PosOverflow,
    /// The number is below `i32::MIN`.
    NegOverflow,
}

pub open spec fn is_digit_byte(b: u8) -> bool {
    48 <= b <= 57
}

/// Reads the digits from index `i` on, left to right, into the magnitude
/// `acc`. Each byte is checked to be a digit before the number it extends
/// is checked against the bounds of `i32`.
pub open spec fn scan_digits(s: Seq<u8>, i: int, acc: int, negative: bool) -> Result<
    int,
    ParseIntError,
>
    decreases s.len() - i,
{
    if i >= s.len() || i < 0 {
        Ok(if negative { -acc } else { acc })
    } else if !is_digit_byte(s[i]) {
        Err(ParseIntError::InvalidDigit)
    } else {
        let a = acc * 10 + (s[i] - 48);
        if !negative && a > i32::MAX {
            Err(ParseIntError::PosOverflow)
        } else if negative && a > -(i32::MIN as int) {
            Err(ParseIntError::NegOverflow)
        } else {
            scan_digits(s, i + 1, a, negative)
        }
    }
}

/// What reading `s` as an optional sign followed by decimal digits gives.
pub open spec fn parse_i32_spec(s: Seq<u8>) -> Result<int, ParseIntError> {
    if s.len() == 0 {
        Err(ParseIntError::Empty)
    } else if s[0] == 43 || s[0] == 45 {
        if s.len() == 1 {
            Err(ParseIntError::InvalidDigit)
        } else {
            scan_digits(s, 1, 0, s[0] == 45)
        }
    } else {
        scan_digits(s, 0, 0, false)
    }
}

impl ParseIntError {
    /// The message that describes the error.
    pub fn description(&self) -> (r: &'static str)
        ensures
            *self == ParseIntError::Empty ==> r@ == "cannot parse integer from empty string"@,
            *self == ParseIntError::InvalidDigit ==> r@ == "invalid digit found in string"@,
            *self == ParseIntError::PosOverflow ==> r@ == "number too large to fit in target type"@,
            *self == ParseIntError::NegOverflow ==> r@ == "number too small to fit in target type"@,
    {
        match self {
            ParseIntError::Empty => "cannot parse integer from empty string",
            ParseIntError::InvalidDigit => "invalid digit found in string",
            ParseIntError::PosOverflow => "number too large to fit in target type",
            ParseIntError::NegOverflow => "number too small to fit in target type",
        }
    }
}

/// Reads `bytes` as an optional `+` or `-` followed by one or more decimal
/// digits, into an `i32`.
pub fn parse_i32(bytes: &[u8]) -> (r: Result<i32, ParseIntError>)
    ensures
        (match r {
            Ok(v) => Ok(v as int),
            Err(e) => Err(e),
        }) == parse_i32_spec(bytes@),
{
    let len = bytes.len();
    if len == 0 {
        return Err(ParseIntError::Empty);
    }
    let first = bytes[0];
    let negative = first == 45;
    let mut i: usize = 0;
    if first == 43 || first == 45 {
        if len == 1 {
            return Err(ParseIntError::InvalidDigit);
        }
        i = 1;
    }
    let ghost target = parse_i32_spec(bytes@);
    let limit: u64 = if negative {
        2147483648
    } else {
        2147483647
    };
    let mut acc: u64 = 0;
    while i < len
        invariant
            len == bytes@.len(),
            i <= len,
            acc <= limit,
            limit == (if negative {
                2147483648u64
            } else {
                2147483647u64
            }),
            scan_digits(bytes@, i as int, acc as int, negative) == target,
            target == parse_i32_spec(bytes@),
        decreases len - i,
    {
        let b = bytes[i];
        if b < 48 || b > 57 {
            return Err(ParseIntError::InvalidDigit);
        }
        let a = acc * 10 + (b - 48) as u64;
        if a > limit {
            if negative {
                return Err(ParseIntError::NegOverflow);
            } else {
                return Err(ParseIntError::PosOverflow);
            }
        }
        acc = a;
        i = i + 1;
    }
    if negative {
        if acc == 2147483648 {
            Ok(i32::MIN)
        } else {
            Ok(-(acc as i32))
        }
    } else {
        Ok(acc as i32)
    }
}

} // verus!
