//! Driver for a battery-backed real-time clock/calendar chip spoken to over a
//! byte-oriented serial bus with a chip-select line.
//!
//! The chip keeps seconds, minutes, hours, day, date, month and year in
//! binary-coded decimal, runs in a 12-hour (AM/PM) or 24-hour format, offers a
//! programmable trickle charger and 31 bytes of battery-backed RAM.
//!
//! The bus transport, chip-select output and timing source are supplied by the
//! caller through the [`Transport`], [`ChipSelect`] and [`Delay`] traits; every
//! driver method states in its contract exactly which bus transactions it
//! performs and how their payloads relate to the values it takes and returns.

mod bus;
mod codec;
mod driver;
mod registers;

pub use driver::calendar_of_burst;
pub use driver::clock_calendar_frame;
pub use driver::clock_of_burst;
pub use driver::construction;
pub use driver::lemma_clock_calendar_frame_round_trip;
pub use driver::mode_of_byte;
pub use driver::sets_mode_at;
pub use driver::writes_calendar;
pub use driver::writes_clock;
pub use driver::Ds1302Error;
pub use driver::DS1302;
pub use driver::CLOCK_HALT_FLAG;
pub use driver::GAP_MICROS;
pub use driver::READ_BIT;
pub use driver::WRITE_PROTECT_BIT;

pub use bus::burst_data;
pub use bus::is_burst_read;
pub use bus::is_reg_read;
pub use bus::is_reg_write;
pub use bus::lemma_log_extends_index;
pub use bus::lemma_log_extends_trans;
pub use bus::lemma_writes_at_stable;
pub use bus::log_extends;
pub use bus::read_data;
pub use bus::reads_register;
pub use bus::write_txn_count;
pub use bus::writes_register;
pub use bus::writes_register_at;
pub use bus::BusTransaction;
pub use bus::ChipSelect;
pub use bus::Delay;
pub use bus::Transport;

pub use codec::bcd_to_decimal;
pub use codec::decimal_to_bcd;
pub use codec::spec_bcd_to_decimal;
pub use codec::spec_decimal_to_bcd;
pub use codec::lemma_bcd_round_trip;
pub use codec::lemma_hours_convert_round_trip;
pub use codec::lemma_hours_encode_round_trip;
pub use codec::lemma_year_round_trip;
pub use codec::hours_valid;
pub use codec::spec_hours_convert;
pub use codec::spec_hours_decode;
pub use codec::spec_hours_encode;
pub use codec::spec_year_from_byte;
pub use codec::spec_year_to_byte;
pub use codec::Calendar;
pub use codec::Clock;
pub use codec::Hours;
pub use codec::Mode;
pub use codec::HOUR_12_BIT;
pub use codec::HOUR_PM_BIT;
pub use registers::lemma_tc_disable_reads_disabled;
pub use registers::lemma_tc_enable_round_trip;
pub use registers::spec_ds_judge;
pub use registers::spec_ds_value;
pub use registers::spec_rs_judge;
pub use registers::spec_rs_value;
pub use registers::spec_tc_enable;
pub use registers::spec_tc_get;
pub use registers::Ds;
pub use registers::Register;
pub use registers::Rs;
pub use registers::TrickleCharger;
