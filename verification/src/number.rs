//! Numbers and spreadsheet date serials.
//!
//! The library never computes on floating-point values: a number cell holds
//! the IEEE-754 bit pattern of its 64-bit float together with the texts and
//! facts about it that the library's formatting rules read. Whoever builds a
//! cell (the file readers) fills these in from the float itself.

use vstd::prelude::*;

verus! {

/// Bit pattern of `-0.0`.
pub const NEGATIVE_ZERO_BITS: u64 = 0x8000_0000_0000_0000u64;

/// A 64-bit float cell value, with the texts the formatting rules use.
#[derive(Debug)]
pub struct Number {
    /// IEEE-754 bit pattern.
    pub bits: u64,
    /// Whether the fractional part is zero.
    pub is_whole: bool,
    /// The shortest round-trip decimal text (`Display`).
    pub shortest: String,
    /// Fixed-point text with no decimals (`{:.0}`).
    pub fixed0: String,
    /// Fixed-point text with two decimals (`{:.2}`).
    pub fixed2: String,
}

/// A spreadsheet date-time serial (days since 1899-12-30, with the
/// 1900 leap-year quirk), split into the parts the formatting rules use.
#[derive(Debug)]
pub struct Serial {
    /// IEEE-754 bit pattern of the serial.
    pub bits: u64,
    /// The serial's floor as a whole number of days (saturating).
    pub days: i64,
    /// Whether the part after `days` is below one millionth of a day.
    pub negligible_time: bool,
    /// The part after `days` in seconds, rounded (saturating).
    pub seconds: u32,
    /// The shortest round-trip decimal text of the serial (`Display`).
    pub shortest: String,
}

/// A finite float (zero, subnormal or normal): its exponent bits are not all set.
pub open spec fn spec_is_finite(bits: u64) -> bool {
    bits % 0x8000_0000_0000_0000 < 0x7FF0_0000_0000_0000
}

/// Whether the float with these bits is finite.
pub fn is_finite(bits: u64) -> (b: bool)
    ensures
        b == spec_is_finite(bits),
{
    bits % 0x8000_0000_0000_0000 < 0x7FF0_0000_0000_0000
}

impl Number {
    /// An exact copy.
    pub fn copy(&self) -> (r: Number)
        ensures
            r == *self,
    {
        Number {
            bits: self.bits,
            is_whole: self.is_whole,
            shortest: self.shortest.clone(),
            fixed0: self.fixed0.clone(),
            fixed2: self.fixed2.clone(),
        }
    }
}

impl Serial {
    /// An exact copy.
    pub fn copy(&self) -> (r: Serial)
        ensures
            r == *self,
    {
        Serial {
            bits: self.bits,
            days: self.days,
            negligible_time: self.negligible_time,
            seconds: self.seconds,
            shortest: self.shortest.clone(),
        }
    }
}

} // verus!
