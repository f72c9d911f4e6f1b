//! Numeric capabilities: which types the scanner can read a number as.
use crate::sealed::Sealed;
use vstd::prelude::*;

verus! {

#[verifier::external_type_specification]
#[verifier::external_body]
pub struct ExParseIntError(std::num::ParseIntError);

/// Value of an ASCII decimal digit.
pub open spec fn digit_value(c: char) -> int {
    c as int - '0' as int
}

/// Every character of `d` is an ASCII decimal digit.
pub open spec fn all_digits(d: Seq<char>) -> bool {
    forall|i: int| 0 <= i < d.len() ==> '0' <= #[trigger] d[i] && d[i] <= '9'
}

/// The number that the decimal digits `d` write, most significant first.
pub open spec fn decimal_value(d: Seq<char>) -> int
    decreases d.len(),
{
    if d.len() == 0 {
        0
    } else {
        decimal_value(d.drop_last()) * 10 + digit_value(d.last())
    }
}

/// What reading `s` as a decimal integer of the range `lo..=hi` gives: an
/// optional `+` (or `-` where the range holds negative numbers) followed by
/// at least one digit, and a value within the range; `None` otherwise.
pub open spec fn parse_int(s: Seq<char>, lo: int, hi: int) -> Option<int> {
    let neg = s.len() > 0 && s[0] == '-' && lo < 0;
    let signed = s.len() > 0 && (s[0] == '+' || neg);
    let d = if signed {
        s.drop_first()
    } else {
        s
    };
    let v = if neg {
        -decimal_value(d)
    } else {
        decimal_value(d)
    };
    if d.len() > 0 && all_digits(d) && lo <= v <= hi {
        Some(v)
    } else {
        None
    }
}

/// The integer types that a number can be read as: the signed and unsigned
/// integers of 8, 16, 32 and 64 bits.
pub trait Int: Sealed + Sized {
    /// The least value of the type.
    spec fn lower() -> int;

    /// The greatest value of the type.
    spec fn upper() -> int;

    /// The value as a mathematical integer.
    spec fn value(&self) -> int;

    /// Reads `text` as a decimal integer of this type.
    fn parse_decimal(text: &str) -> (r: Result<Self, std::num::ParseIntError>)
        ensures
            match parse_int(text@, Self::lower(), Self::upper()) {
                Some(v) => r is Ok && r->Ok_0.value() == v,
                None => r is Err,
            },
    ;
}

/// The floating-point types of 32 and 64 bits. The verified code holds no
/// floating-point value, so no type carries this capability here.
pub trait Float: Sealed {}

/// Relies on `i8::from_str`: an optional sign and decimal digits, read as a
/// `i8`; an error for anything else or for a value out of range.
#[verifier::external_body]
fn parse_i8(text: &str) -> (r: Result<i8, std::num::ParseIntError>)
    ensures
        match parse_int(text@, i8::MIN as int, i8::MAX as int) {
            Some(v) => r is Ok && r->Ok_0 as int == v,
            None => r is Err,
        },
{
    text.parse::<i8>()
}

impl Sealed for i8 {}

impl Int for i8 {
    open spec fn lower() -> int {
        i8::MIN as int
    }

    open spec fn upper() -> int {
        i8::MAX as int
    }

    open spec fn value(&self) -> int {
        *self as int
    }

    fn parse_decimal(text: &str) -> (r: Result<i8, std::num::ParseIntError>) {
        parse_i8(text)
    }
}

/// Relies on `i16::from_str`: an optional sign and decimal digits, read as a
/// `i16`; an error for anything else or for a value out of range.
#[verifier::external_body]
fn parse_i16(text: &str) -> (r: Result<i16, std::num::ParseIntError>)
    ensures
        match parse_int(text@, i16::MIN as int, i16::MAX as int) {
            Some(v) => r is Ok && r->Ok_0 as int == v,
            None => r is Err,
        },
{
    text.parse::<i16>()
}

impl Sealed for i16 {}

impl Int for i16 {
    open spec fn lower() -> int {
        i16::MIN as int
    }

    open spec fn upper() -> int {
        i16::MAX as int
    }

    open spec fn value(&self) -> int {
        *self as int
    }

    fn parse_decimal(text: &str) -> (r: Result<i16, std::num::ParseIntError>) {
        parse_i16(text)
    }
}

/// Relies on `i32::from_str`: an optional sign and decimal digits, read as a
/// `i32`; an error for anything else or for a value out of range.
#[verifier::external_body]
fn parse_i32(text: &str) -> (r: Result<i32, std::num::ParseIntError>)
    ensures
        match parse_int(text@, i32::MIN as int, i32::MAX as int) {
            Some(v) => r is Ok && r->Ok_0 as int == v,
            None => r is Err,
        },
{
    text.parse::<i32>()
}

impl Sealed for i32 {}

impl Int for i32 {
    open spec fn lower() -> int {
        i32::MIN as int
    }

    open spec fn upper() -> int {
        i32::MAX as int
    }

    open spec fn value(&self) -> int {
        *self as int
    }

    fn parse_decimal(text: &str) -> (r: Result<i32, std::num::ParseIntError>) {
        parse_i32(text)
    }
}

/// Relies on `i64::from_str`: an optional sign and decimal digits, read as a
/// `i64`; an error for anything else or for a value out of range.
#[verifier::external_body]
fn parse_i64(text: &str) -> (r: Result<i64, std::num::ParseIntError>)
    ensures
        match parse_int(text@, i64::MIN as int, i64::MAX as int) {
            Some(v) => r is Ok && r->Ok_0 as int == v,
            None => r is Err,
        },
{
    text.parse::<i64>()
}

impl Sealed for i64 {}

impl Int for i64 {
    open spec fn lower() -> int {
        i64::MIN as int
    }

    open spec fn upper() -> int {
        i64::MAX as int
    }

    open spec fn value(&self) -> int {
        *self as int
    }

    fn parse_decimal(text: &str) -> (r: Result<i64, std::num::ParseIntError>) {
        parse_i64(text)
    }
}

/// Relies on `u8::from_str`: an optional sign and decimal digits, read as a
/// `u8`; an error for anything else or for a value out of range.
#[verifier::external_body]
fn parse_u8(text: &str) -> (r: Result<u8, std::num::ParseIntError>)
    ensures
        match parse_int(text@, u8::MIN as int, u8::MAX as int) {
            Some(v) => r is Ok && r->Ok_0 as int == v,
            None => r is Err,
        },
{
    text.parse::<u8>()
}

impl Sealed for u8 {}

impl Int for u8 {
    open spec fn lower() -> int {
        u8::MIN as int
    }

    open spec fn upper() -> int {
        u8::MAX as int
    }

    open spec fn value(&self) -> int {
        *self as int
    }

    fn parse_decimal(text: &str) -> (r: Result<u8, std::num::ParseIntError>) {
        parse_u8(text)
    }
}

/// Relies on `u16::from_str`: an optional sign and decimal digits, read as a
/// `u16`; an error for anything else or for a value out of range.
#[verifier::external_body]
fn parse_u16(text: &str) -> (r: Result<u16, std::num::ParseIntError>)
    ensures
        match parse_int(text@, u16::MIN as int, u16::MAX as int) {
            Some(v) => r is Ok && r->Ok_0 as int == v,
            None => r is Err,
        },
{
    text.parse::<u16>()
}

impl Sealed for u16 {}

impl Int for u16 {
    open spec fn lower() -> int {
        u16::MIN as int
    }

    open spec fn upper() -> int {
        u16::MAX as int
    }

    open spec fn value(&self) -> int {
        *self as int
    }

    fn parse_decimal(text: &str) -> (r: Result<u16, std::num::ParseIntError>) {
        parse_u16(text)
    }
}

/// Relies on `u32::from_str`: an optional sign and decimal digits, read as a
/// `u32`; an error for anything else or for a value out of range.
#[verifier::external_body]
fn parse_u32(text: &str) -> (r: Result<u32, std::num::ParseIntError>)
    ensures
        match parse_int(text@, u32::MIN as int, u32::MAX as int) {
            Some(v) => r is Ok && r->Ok_0 as int == v,
            None => r is Err,
        },
{
    text.parse::<u32>()
}

impl Sealed for u32 {}

impl Int for u32 {
    open spec fn lower() -> int {
        u32::MIN as int
    }

    open spec fn upper() -> int {
        u32::MAX as int
    }

    open spec fn value(&self) -> int {
        *self as int
    }

    fn parse_decimal(text: &str) -> (r: Result<u32, std::num::ParseIntError>) {
        parse_u32(text)
    }
}

/// Relies on `u64::from_str`: an optional sign and decimal digits, read as a
/// `u64`; an error for anything else or for a value out of range.
#[verifier::external_body]
fn parse_u64(text: &str) -> (r: Result<u64, std::num::ParseIntError>)
    ensures
        match parse_int(text@, u64::MIN as int, u64::MAX as int) {
            Some(v) => r is Ok && r->Ok_0 as int == v,
            None => r is Err,
        },
{
    text.parse::<u64>()
}

impl Sealed for u64 {}

impl Int for u64 {
    open spec fn lower() -> int {
        u64::MIN as int
    }

    open spec fn upper() -> int {
        u64::MAX as int
    }

    open spec fn value(&self) -> int {
        *self as int
    }

    fn parse_decimal(text: &str) -> (r: Result<u64, std::num::ParseIntError>) {
        parse_u64(text)
    }
}

} // verus!
