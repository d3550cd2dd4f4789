//! Chip register map and the trickle-charge control byte.
//!
//! Register addresses are fixed by the chip protocol. A read transaction sets
//! bit 0 of the address byte; the RAM cells sit at `RAM` plus twice the cell
//! index, interleaved with their read companions.

use vstd::prelude::*;

verus! {

/// A logical register of the chip and, through [`Register::addr`], its fixed
/// one-byte write address.
#[derive(Clone, Copy, Debug, PartialEq, Eq, Structural)]
pub enum Register {
    SECONDS,
    MINUTES,
    HOURS,
    DATE,
    MONTH,
    DAY,
    YEAR,
    WP,
    TCS,
    CLKBURS,
    RAM,
    RAMBURS,
}

impl Register {
    /// The chip-fixed write address of this register.
    pub open spec fn spec_addr(self) -> u8 {
        match self {
            Register::SECONDS => 0x80,
            Register::MINUTES => 0x82,
            Register::HOURS => 0x84,
            Register::DATE => 0x86,
            Register::MONTH => 0x88,
            Register::DAY => 0x8A,
            Register::YEAR => 0x8C,
            Register::WP => 0x8E,
            Register::TCS => 0x90,
            Register::CLKBURS => 0xBE,
            Register::RAM => 0xC0,
            Register::RAMBURS => 0xFE,
        }
    }

    /// The chip-fixed write address of this register.
    #[verifier::when_used_as_spec(spec_addr)]
    pub fn addr(self) -> (a: u8)
        ensures
            a == self.spec_addr(),
    {
        match self {
            Register::SECONDS => 0x80,
            Register::MINUTES => 0x82,
            Register::HOURS => 0x84,
            Register::DATE => 0x86,
            Register::MONTH => 0x88,
            Register::DAY => 0x8A,
            Register::YEAR => 0x8C,
            Register::WP => 0x8E,
            Register::TCS => 0x90,
            Register::CLKBURS => 0xBE,
            Register::RAM => 0xC0,
            Register::RAMBURS => 0xFE,
        }
    }
}

/// Trickle-charger series resistor selection.
#[derive(Clone, Copy, Debug, PartialEq, Eq, Structural)]
pub enum Rs {
    R2K,
    R4K,
    R8K,
}

/// The resistor selection encoded in the two low bits of a charge-control
/// byte, if those bits hold a recognized code.
pub open spec fn spec_rs_judge(b: u8) -> Option<Rs> {
    if b & 0x03 == 0x01 {
        Some(Rs::R2K)
    } else if b & 0x03 == 0x02 {
        Some(Rs::R4K)
    } else if b & 0x03 == 0x03 {
        Some(Rs::R8K)
    } else {
        None
    }
}

/// The two-bit code of a resistor selection.
pub open spec fn spec_rs_value(rs: Rs) -> u8 {
    match rs {
        Rs::R2K => 0x01,
        Rs::R4K => 0x02,
        Rs::R8K => 0x03,
    }
}

impl Rs {
    /// Decode the resistor selection from a charge-control byte.
    pub fn judge(b: u8) -> (r: Option<Rs>)
        ensures
            r == spec_rs_judge(b),
    {
        match b & 0x03 {
            0x01 => Some(Rs::R2K),
            0x02 => Some(Rs::R4K),
            0x03 => Some(Rs::R8K),
            _ => None,
        }
    }

    /// The two-bit code of this resistor selection.
    pub fn value(&self) -> (r: u8)
        ensures
            r == spec_rs_value(*self),
    {
        match self {
            Rs::R2K => 0x01,
            Rs::R4K => 0x02,
            Rs::R8K => 0x03,
        }
    }
}

/// Trickle-charger diode-drop selection: one diode (0.7 V) or two (1.4 V).
#[derive(Clone, Copy, Debug, PartialEq, Eq, Structural)]
pub enum Ds {
    ONE07V,
    TWO14V,
}

/// The diode selection encoded in bits 2..=3 of a charge-control byte, if
/// those bits hold a recognized code.
pub open spec fn spec_ds_judge(b: u8) -> Option<Ds> {
    if b & 0x0C == 0x04 {
        Some(Ds::ONE07V)
    } else if b & 0x0C == 0x08 {
        Some(Ds::TWO14V)
    } else {
        None
    }
}

/// The code of a diode selection within bits 2..=3.
pub open spec fn spec_ds_value(ds: Ds) -> u8 {
    match ds {
        Ds::ONE07V => 0x04,
        Ds::TWO14V => 0x08,
    }
}

impl Ds {
    /// Decode the diode selection from a charge-control byte.
    pub fn judge(b: u8) -> (r: Option<Ds>)
        ensures
            r == spec_ds_judge(b),
    {
        match b & 0x0C {
            0x04 => Some(Ds::ONE07V),
            0x08 => Some(Ds::TWO14V),
            _ => None,
        }
    }

    /// The code of this diode selection within bits 2..=3.
    pub fn value(&self) -> (r: u8)
        ensures
            r == spec_ds_value(*self),
    {
        match self {
            Ds::ONE07V => 0x04,
            Ds::TWO14V => 0x08,
        }
    }
}

/// A charge-control register byte, decoded defensively: only the fixed
/// pattern 1010 in the high nibble combined with recognized diode and
/// resistor codes counts as enabled.
pub struct TrickleCharger(u8);

/// The charge-control byte that enables charging through the given diode and
/// resistor path: the fixed enable pattern 1010 in the high nibble, the diode
/// code in bits 2..=3 and the resistor code in the two low bits.
pub open spec fn spec_tc_enable(ds: Ds, rs: Rs) -> u8 {
    spec_rs_value(rs) | spec_ds_value(ds) | 0xA0
}

/// What a charge-control byte reads back as: whether charging is enabled, and
/// the diode and resistor selections as far as their bits hold recognized
/// codes. Any byte without the full enable pattern reads as disabled.
pub open spec fn spec_tc_get(b: u8) -> (bool, Option<Ds>, Option<Rs>) {
    (
        spec_rs_judge(b) is Some && spec_ds_judge(b) is Some && b & 0xF0 == 0xA0,
        spec_ds_judge(b),
        spec_rs_judge(b),
    )
}

impl TrickleCharger {
    /// The raw register byte this value wraps.
    pub closed spec fn byte(&self) -> u8 {
        self.0
    }

    /// Wrap a raw charge-control register byte.
    pub fn from_byte(b: u8) -> (r: TrickleCharger)
        ensures
            r.byte() == b,
    {
        TrickleCharger(b)
    }

    /// Decode the wrapped byte: the enabled flag and the recognized diode and
    /// resistor selections.
    pub fn get(&self) -> (r: (bool, Option<Ds>, Option<Rs>))
        ensures
            r == spec_tc_get(self.byte()),
    {
        let rs = Rs::judge(self.0);
        let ds = Ds::judge(self.0);
        let tcs = if rs.is_none() || ds.is_none() || (self.0 & 0xF0 != 0xA0) {
            false
        } else {
            true
        };
        (tcs, ds, rs)
    }

    /// Whether the wrapped byte reads as charging enabled.
    pub fn is_enabled(&self) -> (r: bool)
        ensures
            r == spec_tc_get(self.byte()).0,
    {
        self.get().0
    }

    /// The fixed byte that disables charging.
    pub fn disable() -> (r: u8)
        ensures
            r == 0x5C,
    {
        0x5C
    }

    /// The byte that enables charging through the given diode and resistor.
    pub fn enable(ds: Ds, rs: Rs) -> (r: u8)
        ensures
            r == spec_tc_enable(ds, rs),
    {
        rs.value() | ds.value() | 0xA0
    }
}

/// Every byte the enable encoder produces reads back as enabled, with the
/// diode and resistor selections it was built from.
pub proof fn lemma_tc_enable_round_trip(ds: Ds, rs: Rs)
    ensures
        spec_tc_get(spec_tc_enable(ds, rs)) == (true, Some(ds), Some(rs)),
{
    match (ds, rs) {
        (Ds::ONE07V, Rs::R2K) => {
            assert((0x01u8 | 0x04 | 0xA0) & 0x03 == 0x01 && (0x01u8 | 0x04 | 0xA0) & 0x0C == 0x04
                && (0x01u8 | 0x04 | 0xA0) & 0xF0 == 0xA0) by (bit_vector);
        },
        (Ds::ONE07V, Rs::R4K) => {
            assert((0x02u8 | 0x04 | 0xA0) & 0x03 == 0x02 && (0x02u8 | 0x04 | 0xA0) & 0x0C == 0x04
                && (0x02u8 | 0x04 | 0xA0) & 0xF0 == 0xA0) by (bit_vector);
        },
        (Ds::ONE07V, Rs::R8K) => {
            assert((0x03u8 | 0x04 | 0xA0) & 0x03 == 0x03 && (0x03u8 | 0x04 | 0xA0) & 0x0C == 0x04
                && (0x03u8 | 0x04 | 0xA0) & 0xF0 == 0xA0) by (bit_vector);
        },
        (Ds::TWO14V, Rs::R2K) => {
            assert((0x01u8 | 0x08 | 0xA0) & 0x03 == 0x01 && (0x01u8 | 0x08 | 0xA0) & 0x0C == 0x08
                && (0x01u8 | 0x08 | 0xA0) & 0xF0 == 0xA0) by (bit_vector);
        },
        (Ds::TWO14V, Rs::R4K) => {
            assert((0x02u8 | 0x08 | 0xA0) & 0x03 == 0x02 && (0x02u8 | 0x08 | 0xA0) & 0x0C == 0x08
                && (0x02u8 | 0x08 | 0xA0) & 0xF0 == 0xA0) by (bit_vector);
        },
        (Ds::TWO14V, Rs::R8K) => {
            assert((0x03u8 | 0x08 | 0xA0) & 0x03 == 0x03 && (0x03u8 | 0x08 | 0xA0) & 0x0C == 0x08
                && (0x03u8 | 0x08 | 0xA0) & 0xF0 == 0xA0) by (bit_vector);
        },
    }
}

/// The fixed disable byte reads back as disabled, with no recognized diode or
/// resistor selection.
pub proof fn lemma_tc_disable_reads_disabled()
    ensures
        spec_tc_get(0x5C) == (false, None::<Ds>, None::<Rs>),
{
    assert(0x5Cu8 & 0x03 == 0x00 && 0x5Cu8 & 0x0C == 0x0C && 0x5Cu8 & 0xF0 == 0x50)
        by (bit_vector);
}

} // verus!
