//! Time-field codec: binary-coded decimal packing, the 12/24-hour formats and
//! the year epoch.
//!
//! Each 4-bit nibble of a packed BCD byte carries one decimal digit. The hour
//! register additionally carries the format in bit 7 (set for 12-hour mode)
//! and, in 12-hour mode, the AM/PM flag in bit 5 (set for PM). The year
//! register stores an offset from the year 2000 as one BCD byte.

use vstd::prelude::*;

verus! {

/// Hour-register flag: set when the byte holds a 12-hour reading.
pub const HOUR_12_BIT: u8 = 0x80;

/// Hour-register flag: set when a 12-hour reading is PM.
pub const HOUR_PM_BIT: u8 = 0x20;

/// Hour format: 12-hour (AM/PM) or 24-hour.
#[derive(Clone, Copy, Debug, PartialEq, Eq, Structural)]
pub enum Mode {
    Hour24,
    Hour12,
}

/// Hour reading: either a 24-hour value or a 12-hour value with its AM/PM tag.
///
/// A well-formed 24-hour value lies in 0..=23 and a well-formed 12-hour value
/// in 1..=12; the codec does not police the range, so callers that supply
/// out-of-range values pack garbage, as the chip itself would.
#[derive(Clone, Copy, Debug, PartialEq, Eq, Structural)]
pub enum Hours {
    Hour24(u8),
    Hour12am(u8),
    Hour12pm(u8),
}

/// Clock reading: hours, minutes and seconds.
#[derive(Clone, Copy, Debug, PartialEq, Eq, Structural)]
pub struct Clock {
    pub hours: Hours,
    pub minutes: u8,
    pub seconds: u8,
}

/// Calendar reading: day of the week (1..=7), date of the month (1..=31),
/// month (1..=12) and four-digit year (representable range 2000..=2099).
#[derive(Clone, Copy, Debug, PartialEq, Eq, Structural)]
pub struct Calendar {
    pub day: u8,
    pub date: u8,
    pub month: u8,
    pub year: u16,
}

/// The packed BCD byte for a decimal value: high nibble is the tens digit,
/// low nibble the ones digit. Exact only for values up to 99; larger values
/// overflow the tens nibble and pack to garbage, as the chip itself would.
pub open spec fn spec_decimal_to_bcd(decimal: u8) -> u8 {
    (((decimal / 10) << 4) + (decimal % 10)) as u8
}

/// The decimal value of a packed BCD byte: ten times the high nibble plus the
/// low nibble. Non-decimal nibbles (10..=15) pass through unsanitized, again
/// as the chip itself behaves.
pub open spec fn spec_bcd_to_decimal(bcd: u8) -> u8 {
    (((bcd & 0xF0) >> 4) * 10 + (bcd & 0x0F)) as u8
}

/// Pack a decimal value into a BCD byte.
pub fn decimal_to_bcd(decimal: u8) -> (r: u8)
    ensures
        r == spec_decimal_to_bcd(decimal),
{
    proof {
        assert(((decimal / 10) << 4) + (decimal % 10) < 256) by (bit_vector);
    }
    ((decimal / 10) << 4) + (decimal % 10)
}

/// Unpack a BCD byte into its decimal value.
pub fn bcd_to_decimal(bcd: u8) -> (r: u8)
    ensures
        r == spec_bcd_to_decimal(bcd),
{
    proof {
        assert(((bcd & 0xF0) >> 4) * 10 + (bcd & 0x0F) < 256) by (bit_vector);
    }
    ((bcd & 0xF0) >> 4) * 10 + (bcd & 0x0F)
}

/// Packing a decimal value into BCD and unpacking it again returns the value,
/// for every value both of whose digits fit their nibble.
pub proof fn lemma_bcd_round_trip(d: u8)
    requires
        d <= 99,
    ensures
        spec_bcd_to_decimal(spec_decimal_to_bcd(d)) == d,
{
    assert(spec_bcd_to_decimal(spec_decimal_to_bcd(d)) == d) by (bit_vector)
        requires
            d <= 99,
    ;
}

/// Whether an hour reading lies in the range its tag allows: 0..=23 for a
/// 24-hour value, 1..=12 for a 12-hour value.
pub open spec fn hours_valid(h: Hours) -> bool {
    match h {
        Hours::Hour24(x) => x <= 23,
        Hours::Hour12am(x) => 1 <= x && x <= 12,
        Hours::Hour12pm(x) => 1 <= x && x <= 12,
    }
}

/// The hour-register byte for an hour reading: plain BCD in 24-hour mode; in
/// 12-hour mode the BCD hour with bit 7 set, and bit 5 set as well when PM.
pub open spec fn spec_hours_encode(h: Hours) -> u8 {
    match h {
        Hours::Hour24(x) => spec_decimal_to_bcd(x),
        Hours::Hour12am(x) => spec_decimal_to_bcd(x) | HOUR_12_BIT,
        Hours::Hour12pm(x) => spec_decimal_to_bcd(x) | HOUR_12_BIT | HOUR_PM_BIT,
    }
}

/// The hour reading an hour-register byte decodes to: bit 7 selects the
/// 12-hour interpretation, bit 5 then selects PM, and both flags are masked
/// out before the remaining BCD value is unpacked.
pub open spec fn spec_hours_decode(byte: u8) -> Hours {
    if byte & HOUR_12_BIT != 0 {
        if byte & HOUR_PM_BIT != 0 {
            Hours::Hour12pm(spec_bcd_to_decimal(byte & !(HOUR_12_BIT | HOUR_PM_BIT)))
        } else {
            Hours::Hour12am(spec_bcd_to_decimal(byte & !(HOUR_12_BIT | HOUR_PM_BIT)))
        }
    } else {
        Hours::Hour24(spec_bcd_to_decimal(byte))
    }
}

/// The same hour on the wall clock expressed in the other format: a 24-hour
/// value of 12 or more becomes PM with 12 subtracted, a smaller one becomes
/// AM unchanged; a PM value gains 12, an AM value is taken as is.
pub open spec fn spec_hours_convert(h: Hours) -> Hours {
    match h {
        Hours::Hour24(x) => {
            if x >= 12 {
                Hours::Hour12pm((x - 12) as u8)
            } else {
                Hours::Hour12am(x)
            }
        },
        Hours::Hour12pm(x) => Hours::Hour24((x + 12) as u8),
        Hours::Hour12am(x) => Hours::Hour24(x),
    }
}

impl Hours {
    /// Pack this hour reading into its hour-register byte.
    pub fn encode(&self) -> (r: u8)
        ensures
            r == spec_hours_encode(*self),
    {
        match *self {
            Hours::Hour24(x) => decimal_to_bcd(x),
            Hours::Hour12am(x) => decimal_to_bcd(x) | HOUR_12_BIT,
            Hours::Hour12pm(x) => decimal_to_bcd(x) | HOUR_12_BIT | HOUR_PM_BIT,
        }
    }

    /// Unpack an hour-register byte into an hour reading.
    pub fn decode(byte: u8) -> (r: Hours)
        ensures
            r == spec_hours_decode(byte),
    {
        if byte & HOUR_12_BIT != 0 {
            let hour = bcd_to_decimal(byte & !(HOUR_12_BIT | HOUR_PM_BIT));
            if byte & HOUR_PM_BIT != 0 {
                Hours::Hour12pm(hour)
            } else {
                Hours::Hour12am(hour)
            }
        } else {
            Hours::Hour24(bcd_to_decimal(byte))
        }
    }

    /// Express the same wall-clock hour in the other format.
    pub fn convert(&self) -> (r: Hours)
        requires
            (match *self {
                Hours::Hour12pm(x) => x <= 243,
                _ => true,
            }),
        ensures
            r == spec_hours_convert(*self),
    {
        match *self {
            Hours::Hour24(h) => {
                if h >= 12 {
                    Hours::Hour12pm(h - 12)
                } else {
                    Hours::Hour12am(h)
                }
            },
            Hours::Hour12pm(h) => Hours::Hour24(h + 12),
            Hours::Hour12am(h) => Hours::Hour24(h),
        }
    }

    /// The hour value and its tag: `None` for a 24-hour reading, `Some(false)`
    /// for AM and `Some(true)` for PM.
    pub fn hour(&self) -> (r: (u8, Option<bool>))
        ensures
            r == (match *self {
                Hours::Hour24(h) => (h, None::<bool>),
                Hours::Hour12am(h) => (h, Some(false)),
                Hours::Hour12pm(h) => (h, Some(true)),
            }),
    {
        match *self {
            Hours::Hour24(h) => (h, None),
            Hours::Hour12am(h) => (h, Some(false)),
            Hours::Hour12pm(h) => (h, Some(true)),
        }
    }
}

/// Converting a well-formed hour reading to the other format and back yields
/// the reading it started from. The one exception is 12 AM, whose conversion
/// the codec maps to the 24-hour value 12, which converts back to 12 PM.
pub proof fn lemma_hours_convert_round_trip(h: Hours)
    requires
        (match h {
            Hours::Hour24(x) => x <= 23,
            Hours::Hour12am(x) => 1 <= x && x <= 11,
            Hours::Hour12pm(x) => 1 <= x && x <= 12,
        }),
    ensures
        spec_hours_convert(spec_hours_convert(h)) == h,
{
}

/// Packing a well-formed hour reading into its register byte and decoding the
/// byte again yields the reading it started from.
pub proof fn lemma_hours_encode_round_trip(h: Hours)
    requires
        hours_valid(h),
    ensures
        spec_hours_decode(spec_hours_encode(h)) == h,
{
    match h {
        Hours::Hour24(x) => {
            assert(spec_decimal_to_bcd(x) & 0x80 == 0) by (bit_vector)
                requires
                    x <= 23,
            ;
            lemma_bcd_round_trip(x);
        },
        Hours::Hour12am(x) => {
            assert((spec_decimal_to_bcd(x) | 0x80) & 0x80 != 0
                && (spec_decimal_to_bcd(x) | 0x80) & 0x20 == 0
                && (spec_decimal_to_bcd(x) | 0x80) & !(0x80u8 | 0x20u8) == spec_decimal_to_bcd(x))
                by (bit_vector)
                requires
                    1 <= x && x <= 12,
            ;
            lemma_bcd_round_trip(x);
        },
        Hours::Hour12pm(x) => {
            assert((spec_decimal_to_bcd(x) | 0x80 | 0x20) & 0x80 != 0
                && (spec_decimal_to_bcd(x) | 0x80 | 0x20) & 0x20 != 0
                && (spec_decimal_to_bcd(x) | 0x80 | 0x20) & !(0x80u8 | 0x20u8)
                    == spec_decimal_to_bcd(x)) by (bit_vector)
                requires
                    1 <= x && x <= 12,
            ;
            lemma_bcd_round_trip(x);
        },
    }
}

/// The year-register byte for a four-digit year: the offset from 2000 packed
/// as BCD, with years before 2000 clamped to the epoch base.
pub open spec fn spec_year_to_byte(year: u16) -> u8 {
    spec_decimal_to_bcd(
        (if year < 2000 {
            0u16
        } else {
            (year - 2000) as u16
        }) as u8,
    )
}

/// The four-digit year a year-register byte decodes to: the unpacked BCD
/// offset added to the year 2000.
pub open spec fn spec_year_from_byte(byte: u8) -> u16 {
    (2000 + spec_bcd_to_decimal(byte)) as u16
}

/// Packing a representable year (2000..=2099) into its register byte and
/// decoding the byte again yields the year; every earlier year packs to the
/// epoch base and reads back as 2000.
pub proof fn lemma_year_round_trip(year: u16)
    ensures
        2000 <= year <= 2099 ==> spec_year_from_byte(spec_year_to_byte(year)) == year,
        year < 2000 ==> spec_year_from_byte(spec_year_to_byte(year)) == 2000,
{
    if 2000 <= year <= 2099 {
        lemma_bcd_round_trip((year - 2000) as u8);
    } else if year < 2000 {
        lemma_bcd_round_trip(0);
    }
}

} // verus!
