//! The driver: one bus transaction per logical register access, write-protect
//! gating on single-register writes, burst transfers for the combined
//! clock/calendar image and the battery-backed RAM, and the power-on sequence.

use vstd::prelude::*;

use crate::bus::burst_data;
use crate::bus::is_burst_read;
use crate::bus::is_reg_read;
use crate::bus::is_reg_write;
use crate::bus::lemma_log_extends_index;
use crate::bus::lemma_log_extends_trans;
use crate::bus::log_extends;
use crate::bus::read_data;
use crate::bus::reads_register;
use crate::bus::write_txn_count;
use crate::bus::writes_register;
use crate::bus::writes_register_at;
use crate::bus::BusTransaction;
use crate::bus::ChipSelect;
use crate::bus::Delay;
use crate::bus::Transport;
use crate::codec::bcd_to_decimal;
use crate::codec::decimal_to_bcd;
use crate::codec::spec_bcd_to_decimal;
use crate::codec::spec_decimal_to_bcd;
use crate::codec::spec_hours_convert;
use crate::codec::spec_hours_decode;
use crate::codec::spec_hours_encode;
use crate::codec::spec_year_from_byte;
use crate::codec::spec_year_to_byte;
use crate::codec::Calendar;
use crate::codec::Clock;
use crate::codec::Hours;
use crate::codec::Mode;
use crate::registers::Register;

verus! {

/// Microseconds the chip-select line must stay inactive between transactions.
pub const GAP_MICROS: u32 = 4;

/// Seconds-register flag: set while the oscillator is halted.
pub const CLOCK_HALT_FLAG: u8 = 0x80;

/// Write-protect-register flag: set while writes are gated.
pub const WRITE_PROTECT_BIT: u8 = 0x80;

/// Address-byte flag: set to turn a register address into a read.
pub const READ_BIT: u8 = 0x01;

/// Whether the step from log `pre` to log `post` writes the three clock
/// registers one at a time, hours first, each behind the write-protect gate.
pub open spec fn writes_clock(
    pre: Seq<BusTransaction>,
    post: Seq<BusTransaction>,
    clock: Clock,
) -> bool {
    let n0 = pre.len() as int;
    let n1 = n0 + write_txn_count(post, n0);
    let n2 = n1 + write_txn_count(post, n1);
    &&& log_extends(pre, post)
    &&& writes_register_at(post, n0, Register::HOURS.addr(), spec_hours_encode(clock.hours))
    &&& writes_register_at(
        post,
        n1,
        Register::MINUTES.addr(),
        spec_decimal_to_bcd(clock.minutes),
    )
    &&& writes_register_at(
        post,
        n2,
        Register::SECONDS.addr(),
        spec_decimal_to_bcd(clock.seconds),
    )
    &&& post.len() == n2 + write_txn_count(post, n2)
}

/// Whether the step from log `pre` to log `post` writes the four calendar
/// registers one at a time, year first, each behind the write-protect gate.
pub open spec fn writes_calendar(
    pre: Seq<BusTransaction>,
    post: Seq<BusTransaction>,
    calendar: Calendar,
) -> bool {
    let n0 = pre.len() as int;
    let n1 = n0 + write_txn_count(post, n0);
    let n2 = n1 + write_txn_count(post, n1);
    let n3 = n2 + write_txn_count(post, n2);
    &&& log_extends(pre, post)
    &&& writes_register_at(post, n0, Register::YEAR.addr(), spec_year_to_byte(calendar.year))
    &&& writes_register_at(post, n1, Register::MONTH.addr(), spec_decimal_to_bcd(calendar.month))
    &&& writes_register_at(post, n2, Register::DATE.addr(), spec_decimal_to_bcd(calendar.date))
    &&& writes_register_at(post, n3, Register::DAY.addr(), spec_decimal_to_bcd(calendar.day))
    &&& post.len() == n3 + write_txn_count(post, n3)
}

/// The nine-byte frame of a clock/calendar burst write: the burst address,
/// the seven packed registers in chip order (seconds, minutes, hours, date,
/// month, day, year) and a zero for the write-protect register.
pub open spec fn clock_calendar_frame(clock: Clock, calendar: Calendar) -> Seq<u8> {
    seq![
        Register::CLKBURS.addr(),
        spec_decimal_to_bcd(clock.seconds),
        spec_decimal_to_bcd(clock.minutes),
        spec_hours_encode(clock.hours),
        spec_decimal_to_bcd(calendar.date),
        spec_decimal_to_bcd(calendar.month),
        spec_decimal_to_bcd(calendar.day),
        spec_year_to_byte(calendar.year),
        0u8,
    ]
}

/// The clock a burst read decodes to: seconds, minutes and hours sit at
/// payload offsets 1..=3, the offsets being chip-fixed.
pub open spec fn clock_of_burst(d: Seq<u8>) -> Clock {
    Clock {
        seconds: spec_bcd_to_decimal(d[1]),
        minutes: spec_bcd_to_decimal(d[2]),
        hours: spec_hours_decode(d[3]),
    }
}

/// The calendar a burst read decodes to: date, month, day and year sit at
/// payload offsets 4..=7, the offsets being chip-fixed.
pub open spec fn calendar_of_burst(d: Seq<u8>) -> Calendar {
    Calendar {
        date: spec_bcd_to_decimal(d[4]),
        month: spec_bcd_to_decimal(d[5]),
        day: spec_bcd_to_decimal(d[6]),
        year: spec_year_from_byte(d[7]),
    }
}

/// The hour format an hour-register byte is in: bit 7 set means 12-hour.
pub open spec fn mode_of_byte(b: u8) -> Mode {
    if b & 0x80 != 0 {
        Mode::Hour12
    } else {
        Mode::Hour24
    }
}

/// Whether the transactions of the log starting at index `k` switch the hour
/// format to `mode` and end the log: a read of the hours register and, only
/// when the byte read is in the other format, a write-protected write of the
/// converted reading.
pub open spec fn sets_mode_at(post: Seq<BusTransaction>, k: int, mode: Mode) -> bool {
    &&& 0 <= k < post.len()
    &&& is_reg_read(post[k], Register::HOURS.addr())
    &&& ({
        let b = read_data(post[k]);
        if mode_of_byte(b) == mode {
            post.len() == k + 1
        } else {
            &&& writes_register_at(
                post,
                k + 1,
                Register::HOURS.addr(),
                spec_hours_encode(spec_hours_convert(spec_hours_decode(b))),
            )
            &&& post.len() == k + 1 + write_txn_count(post, k + 1)
        }
    })
}

/// Whether the step from log `pre` to log `post` is the power-on sequence:
/// a read of the seconds register; when its clock-halt flag came back set, a
/// write-protected write of zero to it and a second read that must show the
/// flag cleared; then the switch to the requested hour format.
pub open spec fn construction(
    pre: Seq<BusTransaction>,
    post: Seq<BusTransaction>,
    mode: Mode,
) -> bool {
    let n = pre.len() as int;
    &&& log_extends(pre, post)
    &&& n < post.len()
    &&& is_reg_read(post[n], Register::SECONDS.addr())
    &&& ({
        let s0 = read_data(post[n]);
        if s0 & CLOCK_HALT_FLAG == 0 {
            sets_mode_at(post, n + 1, mode)
        } else {
            &&& writes_register_at(post, n + 1, Register::SECONDS.addr(), 0)
            &&& ({
                let m = n + 1 + write_txn_count(post, n + 1);
                &&& m < post.len()
                &&& is_reg_read(post[m], Register::SECONDS.addr())
                &&& read_data(post[m]) & CLOCK_HALT_FLAG == 0
                &&& sets_mode_at(post, m + 1, mode)
            })
        }
    })
}

/// Driver error.
#[derive(Clone, Copy, Debug, PartialEq, Eq, Structural)]
pub enum Ds1302Error {
    /// A parameter was out of range; no bus transaction was performed.
    Parameter,
    /// The bus transport signaled a failure, propagated verbatim.
    Spi,
    /// The clock-halt flag could not be cleared during construction.
    Unknown,
}

/// The clock/calendar chip driver. It owns the bus, the chip-select output
/// and the timing source exclusively, and caches no register state: every
/// operation goes to the chip. Alongside the resources it carries a ghost
/// record of every transaction it has performed, over which its contracts
/// speak.
pub struct DS1302<SPI: Transport, CS: ChipSelect, CLK: Delay> {
    spi: SPI,
    cs: CS,
    timer: CLK,
    history: Ghost<Seq<BusTransaction>>,
}

impl<SPI: Transport, CS: ChipSelect, CLK: Delay> DS1302<SPI, CS, CLK> {
    /// The bus transactions this driver has completed, oldest first.
    pub closed spec fn log(&self) -> Seq<BusTransaction> {
        self.history@
    }

    /// One full-duplex transaction: wait out the inactive gap, assert
    /// chip-select, exchange the frame, deassert chip-select and re-arm the
    /// gap timer. Chip-select and timer failures are best-effort and ignored;
    /// on a transport failure chip-select is left as the transport left it,
    /// and no transaction is recorded.
    fn exchange_frame(&mut self, frame: &mut Vec<u8>) -> (r: Result<(), Ds1302Error>)
        ensures
            (match r {
                Ok(_) => final(frame)@.len() == old(frame)@.len() && final(self).log()
                    =~= old(self).log().push(
                    BusTransaction::Exchange { sent: old(frame)@, received: final(frame)@ },
                ),
                Err(e) => e == Ds1302Error::Spi && final(self).log() == old(self).log(),
            }),
    {
        let ghost sent = frame@;
        let _ = self.timer.wait();
        let _ = self.cs.set_high();
        match self.spi.exchange(frame) {
            Ok(_) => {
                let _ = self.cs.set_low();
                let _ = self.timer.start(GAP_MICROS);
                self.history = Ghost(
                    self.history@.push(BusTransaction::Exchange { sent, received: frame@ }),
                );
                Ok(())
            },
            Err(_) => Err(Ds1302Error::Spi),
        }
    }

    /// One write-only transaction, framed exactly as [`Self::exchange_frame`].
    fn send_frame(&mut self, frame: &Vec<u8>) -> (r: Result<(), Ds1302Error>)
        ensures
            (match r {
                Ok(_) => final(self).log() =~= old(self).log().push(
                    BusTransaction::Send { sent: frame@ },
                ),
                Err(e) => e == Ds1302Error::Spi && final(self).log() == old(self).log(),
            }),
    {
        let _ = self.timer.wait();
        let _ = self.cs.set_high();
        match self.spi.send(frame) {
            Ok(_) => {
                let _ = self.cs.set_low();
                let _ = self.timer.start(GAP_MICROS);
                self.history = Ghost(self.history@.push(BusTransaction::Send { sent: frame@ }));
                Ok(())
            },
            Err(_) => Err(Ds1302Error::Spi),
        }
    }

    /// Read one register: a single two-byte exchange of the read address and
    /// a filler byte; the byte received in the filler's place is the data.
    fn read_reg(&mut self, reg: u8) -> (r: Result<u8, Ds1302Error>)
        ensures
            (match r {
                Ok(data) => reads_register(old(self).log(), final(self).log(), reg) && data
                    == read_data(final(self).log().last()),
                Err(e) => e == Ds1302Error::Spi && final(self).log() == old(self).log(),
            }),
    {
        let mut frame: Vec<u8> = Vec::new();
        frame.push(reg | READ_BIT);
        frame.push(0u8);
        let ghost sent = frame@;
        match self.exchange_frame(&mut frame) {
            Ok(_) => {
                proof {
                    let pre = old(self).log();
                    let post = self.log();
                    assert(sent =~= seq![(reg | 0x01) as u8, 0u8]);
                    assert(post[pre.len() as int] == (BusTransaction::Exchange {
                        sent,
                        received: frame@,
                    }));
                    assert(post.subrange(0, pre.len() as int) =~= pre);
                }
                Ok(frame[1])
            },
            Err(e) => Err(e),
        }
    }

    /// Write one register behind the write-protect gate: read the
    /// write-protect register, clear it with a dedicated write when its
    /// protect bit came back set, then send the address and value.
    fn write_reg(&mut self, reg: u8, byte: u8) -> (r: Result<(), Ds1302Error>)
        ensures
            (match r {
                Ok(_) => writes_register(old(self).log(), final(self).log(), reg, byte),
                Err(e) => e == Ds1302Error::Spi && log_extends(
                    old(self).log(),
                    final(self).log(),
                ),
            }),
    {
        let ghost pre = self.log();
        let wp_read = match self.read_reg(Register::WP.addr()) {
            Ok(b) => b,
            Err(e) => {
                return Err(e);
            },
        };
        let ghost log1 = self.log();
        if wp_read & WRITE_PROTECT_BIT != 0 {
            let mut clear: Vec<u8> = Vec::new();
            clear.push(Register::WP.addr());
            clear.push(0u8);
            match self.send_frame(&clear) {
                Ok(_) => {
                    proof {
                        assert(clear@ =~= seq![0x8Eu8, 0u8]);
                    }
                },
                Err(e) => {
                    proof {
                        assert(self.log().subrange(0, pre.len() as int) =~= pre);
                    }
                    return Err(e);
                },
            }
        }
        let ghost log2 = self.log();
        let mut data: Vec<u8> = Vec::new();
        data.push(reg);
        data.push(byte);
        match self.send_frame(&data) {
            Ok(_) => {
                proof {
                    let post = self.log();
                    let n = pre.len() as int;
                    assert(data@ =~= seq![reg, byte]);
                    assert(post[n] == log1[n]);
                    assert(read_data(post[n]) == wp_read);
                    if wp_read & 0x80 != 0 {
                        assert(post[n + 1] == log2[n + 1]);
                        assert(is_reg_write(post[n + 2], reg, byte));
                    } else {
                        assert(is_reg_write(post[n + 1], reg, byte));
                    }
                    assert(post.subrange(0, n) =~= pre);
                }
                Ok(())
            },
            Err(e) => {
                proof {
                    assert(self.log().subrange(0, pre.len() as int) =~= pre);
                }
                Err(e)
            },
        }
    }

    /// Read the seconds register and unpack its BCD value.
    pub fn get_seconds(&mut self) -> (r: Result<u8, Ds1302Error>)
        ensures
            (match r {
                Ok(s) => reads_register(old(self).log(), final(self).log(), Register::SECONDS.addr())
                    && s == spec_bcd_to_decimal(read_data(final(self).log().last())),
                Err(e) => e == Ds1302Error::Spi && final(self).log() == old(self).log(),
            }),
    {
        match self.read_reg(Register::SECONDS.addr()) {
            Ok(b) => Ok(bcd_to_decimal(b)),
            Err(e) => Err(e),
        }
    }

    /// Read the minutes register and unpack its BCD value.
    pub fn get_minutes(&mut self) -> (r: Result<u8, Ds1302Error>)
        ensures
            (match r {
                Ok(m) => reads_register(old(self).log(), final(self).log(), Register::MINUTES.addr())
                    && m == spec_bcd_to_decimal(read_data(final(self).log().last())),
                Err(e) => e == Ds1302Error::Spi && final(self).log() == old(self).log(),
            }),
    {
        match self.read_reg(Register::MINUTES.addr()) {
            Ok(b) => Ok(bcd_to_decimal(b)),
            Err(e) => Err(e),
        }
    }

    /// Read the hours register and decode it into an hour reading.
    pub fn get_hours(&mut self) -> (r: Result<Hours, Ds1302Error>)
        ensures
            (match r {
                Ok(h) => reads_register(old(self).log(), final(self).log(), Register::HOURS.addr())
                    && h == spec_hours_decode(read_data(final(self).log().last())),
                Err(e) => e == Ds1302Error::Spi && final(self).log() == old(self).log(),
            }),
    {
        match self.read_reg(Register::HOURS.addr()) {
            Ok(b) => Ok(Hours::decode(b)),
            Err(e) => Err(e),
        }
    }

    /// Read the date-of-month register and unpack its BCD value.
    pub fn get_date(&mut self) -> (r: Result<u8, Ds1302Error>)
        ensures
            (match r {
                Ok(d) => reads_register(old(self).log(), final(self).log(), Register::DATE.addr())
                    && d == spec_bcd_to_decimal(read_data(final(self).log().last())),
                Err(e) => e == Ds1302Error::Spi && final(self).log() == old(self).log(),
            }),
    {
        match self.read_reg(Register::DATE.addr()) {
            Ok(b) => Ok(bcd_to_decimal(b)),
            Err(e) => Err(e),
        }
    }

    /// Read the month register and unpack its BCD value.
    pub fn get_month(&mut self) -> (r: Result<u8, Ds1302Error>)
        ensures
            (match r {
                Ok(m) => reads_register(old(self).log(), final(self).log(), Register::MONTH.addr())
                    && m == spec_bcd_to_decimal(read_data(final(self).log().last())),
                Err(e) => e == Ds1302Error::Spi && final(self).log() == old(self).log(),
            }),
    {
        match self.read_reg(Register::MONTH.addr()) {
            Ok(b) => Ok(bcd_to_decimal(b)),
            Err(e) => Err(e),
        }
    }

    /// Read the year register and decode it into a four-digit year.
    pub fn get_year(&mut self) -> (r: Result<u16, Ds1302Error>)
        ensures
            (match r {
                Ok(y) => reads_register(old(self).log(), final(self).log(), Register::YEAR.addr())
                    && y == spec_year_from_byte(read_data(final(self).log().last())),
                Err(e) => e == Ds1302Error::Spi && final(self).log() == old(self).log(),
            }),
    {
        match self.read_reg(Register::YEAR.addr()) {
            Ok(b) => Ok(2000u16 + (bcd_to_decimal(b) as u16)),
            Err(e) => Err(e),
        }
    }

    /// Read the day-of-week register and unpack its BCD value.
    pub fn get_day(&mut self) -> (r: Result<u8, Ds1302Error>)
        ensures
            (match r {
                Ok(d) => reads_register(old(self).log(), final(self).log(), Register::DAY.addr())
                    && d == spec_bcd_to_decimal(read_data(final(self).log().last())),
                Err(e) => e == Ds1302Error::Spi && final(self).log() == old(self).log(),
            }),
    {
        match self.read_reg(Register::DAY.addr()) {
            Ok(b) => Ok(bcd_to_decimal(b)),
            Err(e) => Err(e),
        }
    }

    /// Write the seconds register with the BCD packing of the value.
    pub fn set_seconds(&mut self, seconds: u8) -> (r: Result<(), Ds1302Error>)
        ensures
            (match r {
                Ok(_) => writes_register(
                    old(self).log(),
                    final(self).log(),
                    Register::SECONDS.addr(),
                    spec_decimal_to_bcd(seconds),
                ),
                Err(e) => e == Ds1302Error::Spi && log_extends(
                    old(self).log(),
                    final(self).log(),
                ),
            }),
    {
        self.write_reg(Register::SECONDS.addr(), decimal_to_bcd(seconds))
    }

    /// Write the minutes register with the BCD packing of the value.
    pub fn set_minutes(&mut self, minutes: u8) -> (r: Result<(), Ds1302Error>)
        ensures
            (match r {
                Ok(_) => writes_register(
                    old(self).log(),
                    final(self).log(),
                    Register::MINUTES.addr(),
                    spec_decimal_to_bcd(minutes),
                ),
                Err(e) => e == Ds1302Error::Spi && log_extends(
                    old(self).log(),
                    final(self).log(),
                ),
            }),
    {
        self.write_reg(Register::MINUTES.addr(), decimal_to_bcd(minutes))
    }

    /// Write the hours register with the packed hour reading.
    pub fn set_hours(&mut self, hours: Hours) -> (r: Result<(), Ds1302Error>)
        ensures
            (match r {
                Ok(_) => writes_register(
                    old(self).log(),
                    final(self).log(),
                    Register::HOURS.addr(),
                    spec_hours_encode(hours),
                ),
                Err(e) => e == Ds1302Error::Spi && log_extends(
                    old(self).log(),
                    final(self).log(),
                ),
            }),
    {
        let byte = hours.encode();
        self.write_reg(Register::HOURS.addr(), byte)
    }

    /// Write the date-of-month register with the BCD packing of the value.
    pub fn set_date(&mut self, date: u8) -> (r: Result<(), Ds1302Error>)
        ensures
            (match r {
                Ok(_) => writes_register(
                    old(self).log(),
                    final(self).log(),
                    Register::DATE.addr(),
                    spec_decimal_to_bcd(date),
                ),
                Err(e) => e == Ds1302Error::Spi && log_extends(
                    old(self).log(),
                    final(self).log(),
                ),
            }),
    {
        self.write_reg(Register::DATE.addr(), decimal_to_bcd(date))
    }

    /// Write the month register with the BCD packing of the value.
    pub fn set_month(&mut self, month: u8) -> (r: Result<(), Ds1302Error>)
        ensures
            (match r {
                Ok(_) => writes_register(
                    old(self).log(),
                    final(self).log(),
                    Register::MONTH.addr(),
                    spec_decimal_to_bcd(month),
                ),
                Err(e) => e == Ds1302Error::Spi && log_extends(
                    old(self).log(),
                    final(self).log(),
                ),
            }),
    {
        self.write_reg(Register::MONTH.addr(), decimal_to_bcd(month))
    }

    /// Write the day-of-week register with the BCD packing of the value.
    pub fn set_day(&mut self, day: u8) -> (r: Result<(), Ds1302Error>)
        ensures
            (match r {
                Ok(_) => writes_register(
                    old(self).log(),
                    final(self).log(),
                    Register::DAY.addr(),
                    spec_decimal_to_bcd(day),
                ),
                Err(e) => e == Ds1302Error::Spi && log_extends(
                    old(self).log(),
                    final(self).log(),
                ),
            }),
    {
        self.write_reg(Register::DAY.addr(), decimal_to_bcd(day))
    }

    /// Write the year register with the packed epoch offset, clamping years
    /// before 2000 to the epoch base.
    pub fn set_year(&mut self, year: u16) -> (r: Result<(), Ds1302Error>)
        ensures
            (match r {
                Ok(_) => writes_register(
                    old(self).log(),
                    final(self).log(),
                    Register::YEAR.addr(),
                    spec_year_to_byte(year),
                ),
                Err(e) => e == Ds1302Error::Spi && log_extends(
                    old(self).log(),
                    final(self).log(),
                ),
            }),
    {
        let y: u16 = if year < 2000 {
            0
        } else {
            year - 2000
        };
        self.write_reg(Register::YEAR.addr(), decimal_to_bcd(y as u8))
    }

    /// Write the clock registers one at a time, hours first. Not atomic: an
    /// observer reading between the writes may see an inconsistent time. Each
    /// write passes the write-protect gate on its own.
    pub fn set_clock(&mut self, clock: Clock) -> (r: Result<(), Ds1302Error>)
        ensures
            (match r {
                Ok(_) => writes_clock(old(self).log(), final(self).log(), clock),
                Err(e) => e == Ds1302Error::Spi && log_extends(
                    old(self).log(),
                    final(self).log(),
                ),
            }),
    {
        let ghost pre = self.log();
        match self.set_hours(clock.hours) {
            Ok(_) => {},
            Err(e) => {
                return Err(e);
            },
        }
        let ghost l1 = self.log();
        match self.set_minutes(clock.minutes) {
            Ok(_) => {},
            Err(e) => {
                proof {
                    lemma_log_extends_trans(pre, l1, self.log());
                }
                return Err(e);
            },
        }
        let ghost l2 = self.log();
        match self.set_seconds(clock.seconds) {
            Ok(_) => {
                proof {
                    let post = self.log();
                    let n0 = pre.len() as int;
                    crate::bus::lemma_writes_at_stable(
                        l1,
                        l2,
                        n0,
                        Register::HOURS.addr(),
                        spec_hours_encode(clock.hours),
                    );
                    crate::bus::lemma_writes_at_stable(
                        l2,
                        post,
                        n0,
                        Register::HOURS.addr(),
                        spec_hours_encode(clock.hours),
                    );
                    crate::bus::lemma_writes_at_stable(
                        l2,
                        post,
                        l1.len() as int,
                        Register::MINUTES.addr(),
                        spec_decimal_to_bcd(clock.minutes),
                    );
                    lemma_log_extends_trans(pre, l1, l2);
                    lemma_log_extends_trans(pre, l2, post);
                }
                Ok(())
            },
            Err(e) => {
                proof {
                    lemma_log_extends_trans(pre, l1, l2);
                    lemma_log_extends_trans(pre, l2, self.log());
                }
                Err(e)
            },
        }
    }

    /// Write the calendar registers one at a time, year first. Not atomic: an
    /// observer reading between the writes may see an inconsistent date. Each
    /// write passes the write-protect gate on its own.
    pub fn set_calendar(&mut self, calendar: Calendar) -> (r: Result<(), Ds1302Error>)
        ensures
            (match r {
                Ok(_) => writes_calendar(old(self).log(), final(self).log(), calendar),
                Err(e) => e == Ds1302Error::Spi && log_extends(
                    old(self).log(),
                    final(self).log(),
                ),
            }),
    {
        let ghost pre = self.log();
        match self.set_year(calendar.year) {
            Ok(_) => {},
            Err(e) => {
                return Err(e);
            },
        }
        let ghost l1 = self.log();
        match self.set_month(calendar.month) {
            Ok(_) => {},
            Err(e) => {
                proof {
                    lemma_log_extends_trans(pre, l1, self.log());
                }
                return Err(e);
            },
        }
        let ghost l2 = self.log();
        match self.set_date(calendar.date) {
            Ok(_) => {},
            Err(e) => {
                proof {
                    lemma_log_extends_trans(pre, l1, l2);
                    lemma_log_extends_trans(pre, l2, self.log());
                }
                return Err(e);
            },
        }
        let ghost l3 = self.log();
        match self.set_day(calendar.day) {
            Ok(_) => {
                proof {
                    let post = self.log();
                    let n0 = pre.len() as int;
                    crate::bus::lemma_writes_at_stable(
                        l1,
                        l2,
                        n0,
                        Register::YEAR.addr(),
                        spec_year_to_byte(calendar.year),
                    );
                    crate::bus::lemma_writes_at_stable(
                        l2,
                        l3,
                        n0,
                        Register::YEAR.addr(),
                        spec_year_to_byte(calendar.year),
                    );
                    crate::bus::lemma_writes_at_stable(
                        l3,
                        post,
                        n0,
                        Register::YEAR.addr(),
                        spec_year_to_byte(calendar.year),
                    );
                    crate::bus::lemma_writes_at_stable(
                        l2,
                        l3,
                        l1.len() as int,
                        Register::MONTH.addr(),
                        spec_decimal_to_bcd(calendar.month),
                    );
                    crate::bus::lemma_writes_at_stable(
                        l3,
                        post,
                        l1.len() as int,
                        Register::MONTH.addr(),
                        spec_decimal_to_bcd(calendar.month),
                    );
                    crate::bus::lemma_writes_at_stable(
                        l3,
                        post,
                        l2.len() as int,
                        Register::DATE.addr(),
                        spec_decimal_to_bcd(calendar.date),
                    );
                    lemma_log_extends_trans(pre, l1, l2);
                    lemma_log_extends_trans(pre, l2, l3);
                    lemma_log_extends_trans(pre, l3, post);
                }
                Ok(())
            },
            Err(e) => {
                proof {
                    lemma_log_extends_trans(pre, l1, l2);
                    lemma_log_extends_trans(pre, l2, l3);
                    lemma_log_extends_trans(pre, l3, self.log());
                }
                Err(e)
            },
        }
    }

    /// Read the clock in one burst: a four-byte exchange at the burst address
    /// whose payload carries seconds, minutes and hours.
    pub fn get_clock(&mut self) -> (r: Result<Clock, Ds1302Error>)
        ensures
            (match r {
                Ok(c) => ({
                    let pre = old(self).log();
                    let post = final(self).log();
                    &&& log_extends(pre, post)
                    &&& post.len() == pre.len() + 1
                    &&& is_burst_read(post.last(), Register::CLKBURS.addr(), 4)
                    &&& c == clock_of_burst(burst_data(post.last()))
                }),
                Err(e) => e == Ds1302Error::Spi && final(self).log() == old(self).log(),
            }),
    {
        let mut frame: Vec<u8> = Vec::new();
        frame.push(Register::CLKBURS.addr() | READ_BIT);
        frame.push(0u8);
        frame.push(0u8);
        frame.push(0u8);
        let ghost sent = frame@;
        match self.exchange_frame(&mut frame) {
            Ok(_) => {
                proof {
                    let pre = old(self).log();
                    let post = self.log();
                    assert(sent =~= seq![(0xBEu8 | 0x01) as u8, 0u8, 0u8, 0u8]);
                    assert forall|i: int| 1 <= i < 4 implies sent[i] == 0 by {
                        assert(sent[1] == 0);
                        assert(sent[2] == 0);
                        assert(sent[3] == 0);
                    }
                    assert(post[pre.len() as int] == (BusTransaction::Exchange {
                        sent,
                        received: frame@,
                    }));
                    assert(post.subrange(0, pre.len() as int) =~= pre);
                }
                let clock = Clock {
                    seconds: bcd_to_decimal(frame[1]),
                    minutes: bcd_to_decimal(frame[2]),
                    hours: Hours::decode(frame[3]),
                };
                Ok(clock)
            },
            Err(e) => Err(e),
        }
    }

    /// Read the calendar in one burst: an eight-byte exchange at the burst
    /// address whose payload carries date, month, day and year at the
    /// chip-fixed offsets 4..=7.
    pub fn get_calendar(&mut self) -> (r: Result<Calendar, Ds1302Error>)
        ensures
            (match r {
                Ok(c) => ({
                    let pre = old(self).log();
                    let post = final(self).log();
                    &&& log_extends(pre, post)
                    &&& post.len() == pre.len() + 1
                    &&& is_burst_read(post.last(), Register::CLKBURS.addr(), 8)
                    &&& c == calendar_of_burst(burst_data(post.last()))
                }),
                Err(e) => e == Ds1302Error::Spi && final(self).log() == old(self).log(),
            }),
    {
        match self.clock_burst_read() {
            Ok(frame) => Ok(
                Calendar {
                    date: bcd_to_decimal(frame[4]),
                    month: bcd_to_decimal(frame[5]),
                    day: bcd_to_decimal(frame[6]),
                    year: 2000u16 + (bcd_to_decimal(frame[7]) as u16),
                },
            ),
            Err(e) => Err(e),
        }
    }

    /// Read clock and calendar together in one burst: an eight-byte exchange
    /// at the burst address covering all seven time registers.
    pub fn get_clock_calendar(&mut self) -> (r: Result<(Clock, Calendar), Ds1302Error>)
        ensures
            (match r {
                Ok(cc) => ({
                    let pre = old(self).log();
                    let post = final(self).log();
                    &&& log_extends(pre, post)
                    &&& post.len() == pre.len() + 1
                    &&& is_burst_read(post.last(), Register::CLKBURS.addr(), 8)
                    &&& cc.0 == clock_of_burst(burst_data(post.last()))
                    &&& cc.1 == calendar_of_burst(burst_data(post.last()))
                }),
                Err(e) => e == Ds1302Error::Spi && final(self).log() == old(self).log(),
            }),
    {
        match self.clock_burst_read() {
            Ok(frame) => {
                let clock = Clock {
                    seconds: bcd_to_decimal(frame[1]),
                    minutes: bcd_to_decimal(frame[2]),
                    hours: Hours::decode(frame[3]),
                };
                let calendar = Calendar {
                    date: bcd_to_decimal(frame[4]),
                    month: bcd_to_decimal(frame[5]),
                    day: bcd_to_decimal(frame[6]),
                    year: 2000u16 + (bcd_to_decimal(frame[7]) as u16),
                };
                Ok((clock, calendar))
            },
            Err(e) => Err(e),
        }
    }

    /// The eight-byte burst exchange the clock and calendar reads share.
    fn clock_burst_read(&mut self) -> (r: Result<Vec<u8>, Ds1302Error>)
        ensures
            (match r {
                Ok(frame) => ({
                    let pre = old(self).log();
                    let post = final(self).log();
                    &&& log_extends(pre, post)
                    &&& post.len() == pre.len() + 1
                    &&& is_burst_read(post.last(), Register::CLKBURS.addr(), 8)
                    &&& frame@ == burst_data(post.last())
                    &&& frame@.len() == 8
                }),
                Err(e) => e == Ds1302Error::Spi && final(self).log() == old(self).log(),
            }),
    {
        let mut frame: Vec<u8> = Vec::new();
        frame.push(Register::CLKBURS.addr() | READ_BIT);
        let mut i: usize = 0;
        while i < 7
            invariant
                i <= 7,
                frame@.len() == i + 1,
                frame@[0] == (0xBEu8 | 0x01) as u8,
                forall|j: int| 1 <= j <= i ==> frame@[j] == 0,
            decreases 7 - i,
        {
            frame.push(0u8);
            i += 1;
        }
        let ghost sent = frame@;
        match self.exchange_frame(&mut frame) {
            Ok(_) => {
                proof {
                    let pre = old(self).log();
                    let post = self.log();
                    assert(post[pre.len() as int] == (BusTransaction::Exchange {
                        sent,
                        received: frame@,
                    }));
                    assert(post.subrange(0, pre.len() as int) =~= pre);
                }
                Ok(frame)
            },
            Err(e) => Err(e),
        }
    }

    /// Write clock and calendar together in one burst transaction, atomic
    /// with respect to chip-side visibility. The burst does not pass the
    /// write-protect gate: the caller must have write protection cleared for
    /// the write to take effect.
    pub fn set_clock_calendar(&mut self, clock: Clock, calendar: Calendar) -> (r: Result<
        (),
        Ds1302Error,
    >)
        ensures
            (match r {
                Ok(_) => final(self).log() =~= old(self).log().push(
                    BusTransaction::Send { sent: clock_calendar_frame(clock, calendar) },
                ),
                Err(e) => e == Ds1302Error::Spi && final(self).log() == old(self).log(),
            }),
    {
        let mut frame: Vec<u8> = Vec::new();
        frame.push(Register::CLKBURS.addr());
        frame.push(decimal_to_bcd(clock.seconds));
        frame.push(decimal_to_bcd(clock.minutes));
        frame.push(clock.hours.encode());
        frame.push(decimal_to_bcd(calendar.date));
        frame.push(decimal_to_bcd(calendar.month));
        frame.push(decimal_to_bcd(calendar.day));
        let y: u16 = if calendar.year < 2000 {
            0
        } else {
            calendar.year - 2000
        };
        frame.push(decimal_to_bcd(y as u8));
        frame.push(0u8);
        proof {
            assert(frame@ =~= clock_calendar_frame(clock, calendar));
        }
        self.send_frame(&frame)
    }

    /// Switch between the 12-hour and 24-hour formats while preserving the
    /// wall-clock hour: read the hours register and, only when it is in the
    /// other format, write back the converted reading.
    pub fn set_clock_mode(&mut self, mode: Mode) -> (r: Result<(), Ds1302Error>)
        ensures
            (match r {
                Ok(_) => log_extends(old(self).log(), final(self).log()) && sets_mode_at(
                    final(self).log(),
                    old(self).log().len() as int,
                    mode,
                ),
                Err(e) => e == Ds1302Error::Spi && log_extends(
                    old(self).log(),
                    final(self).log(),
                ),
            }),
    {
        let ghost pre = self.log();
        let hr = match self.get_hours() {
            Ok(h) => h,
            Err(e) => {
                return Err(e);
            },
        };
        let ghost l1 = self.log();
        let ghost b = read_data(l1.last());
        let switch: bool = match hr {
            Hours::Hour24(_) => mode == Mode::Hour12,
            _ => mode == Mode::Hour24,
        };
        if switch {
            proof {
                assert(spec_bcd_to_decimal(b & !(0x80u8 | 0x20u8)) <= 165) by (bit_vector);
            }
            let conv = hr.convert();
            match self.set_hours(conv) {
                Ok(_) => {
                    proof {
                        let post = self.log();
                        let k = pre.len() as int;
                        lemma_log_extends_index(l1, post, k);
                        lemma_log_extends_trans(pre, l1, post);
                    }
                    Ok(())
                },
                Err(e) => {
                    proof {
                        lemma_log_extends_trans(pre, l1, self.log());
                    }
                    Err(e)
                },
            }
        } else {
            proof {
                assert(mode_of_byte(b) == mode);
            }
            Ok(())
        }
    }

    /// Enable the trickle charger through the given diode drop and series
    /// resistor: one write-protected write of the enable byte to the
    /// charge-control register.
    pub fn tc_enable(&mut self, ds: crate::registers::Ds, rs: crate::registers::Rs) -> (r: Result<
        (),
        Ds1302Error,
    >)
        ensures
            (match r {
                Ok(_) => writes_register(
                    old(self).log(),
                    final(self).log(),
                    Register::TCS.addr(),
                    crate::registers::spec_tc_enable(ds, rs),
                ),
                Err(e) => e == Ds1302Error::Spi && log_extends(
                    old(self).log(),
                    final(self).log(),
                ),
            }),
    {
        let byte = crate::registers::TrickleCharger::enable(ds, rs);
        self.write_reg(Register::TCS.addr(), byte)
    }

    /// Disable the trickle charger: one write-protected write of the fixed
    /// disable byte to the charge-control register.
    pub fn tc_disable(&mut self) -> (r: Result<(), Ds1302Error>)
        ensures
            (match r {
                Ok(_) => writes_register(
                    old(self).log(),
                    final(self).log(),
                    Register::TCS.addr(),
                    0x5C,
                ),
                Err(e) => e == Ds1302Error::Spi && log_extends(
                    old(self).log(),
                    final(self).log(),
                ),
            }),
    {
        let byte = crate::registers::TrickleCharger::disable();
        self.write_reg(Register::TCS.addr(), byte)
    }

    /// Read the charge-control register and decode it defensively: whether
    /// charging is enabled, and the recognized diode and resistor selections.
    pub fn tc_get(&mut self) -> (r: Result<
        (bool, Option<crate::registers::Ds>, Option<crate::registers::Rs>),
        Ds1302Error,
    >)
        ensures
            (match r {
                Ok(t) => reads_register(old(self).log(), final(self).log(), Register::TCS.addr())
                    && t == crate::registers::spec_tc_get(read_data(final(self).log().last())),
                Err(e) => e == Ds1302Error::Spi && final(self).log() == old(self).log(),
            }),
    {
        match self.read_reg(Register::TCS.addr()) {
            Ok(v) => Ok(crate::registers::TrickleCharger::from_byte(v).get()),
            Err(e) => Err(e),
        }
    }

    /// Read the charge-control register and report only whether charging is
    /// enabled.
    pub fn tc_is_enabled(&mut self) -> (r: Result<bool, Ds1302Error>)
        ensures
            (match r {
                Ok(en) => reads_register(old(self).log(), final(self).log(), Register::TCS.addr())
                    && en == crate::registers::spec_tc_get(read_data(final(self).log().last())).0,
                Err(e) => e == Ds1302Error::Spi && final(self).log() == old(self).log(),
            }),
    {
        match self.read_reg(Register::TCS.addr()) {
            Ok(v) => Ok(crate::registers::TrickleCharger::from_byte(v).is_enabled()),
            Err(e) => Err(e),
        }
    }

    /// Read one battery-backed RAM cell. An index past 30 is rejected before
    /// any bus activity; the cell address is the RAM base plus twice the
    /// index.
    pub fn read_ram(&mut self, index: u8) -> (r: Result<u8, Ds1302Error>)
        ensures
            index > 30 ==> r == Err::<u8, Ds1302Error>(Ds1302Error::Parameter) && final(self).log()
                == old(self).log(),
            index <= 30 ==> (match r {
                Ok(b) => reads_register(
                    old(self).log(),
                    final(self).log(),
                    (Register::RAM.addr() + index * 2) as u8,
                ) && b == read_data(final(self).log().last()),
                Err(e) => e == Ds1302Error::Spi && final(self).log() == old(self).log(),
            }),
    {
        if index > 30 {
            return Err(Ds1302Error::Parameter);
        }
        self.read_reg(Register::RAM.addr() + index * 2)
    }

    /// Write one battery-backed RAM cell behind the write-protect gate. An
    /// index past 30 is rejected before any bus activity.
    pub fn write_ram(&mut self, index: u8, value: u8) -> (r: Result<(), Ds1302Error>)
        ensures
            index > 30 ==> r == Err::<(), Ds1302Error>(Ds1302Error::Parameter) && final(self).log()
                == old(self).log(),
            index <= 30 ==> (match r {
                Ok(_) => writes_register(
                    old(self).log(),
                    final(self).log(),
                    (Register::RAM.addr() + index * 2) as u8,
                    value,
                ),
                Err(e) => e == Ds1302Error::Spi && log_extends(
                    old(self).log(),
                    final(self).log(),
                ),
            }),
    {
        if index > 30 {
            return Err(Ds1302Error::Parameter);
        }
        self.write_reg(Register::RAM.addr() + index * 2, value)
    }

    /// Read the battery-backed RAM from cell 0 in one burst, filling the
    /// buffer to its length. The RAM holds 31 cells, so the buffer may hold
    /// at most 31 bytes.
    pub fn read_ram_burst(&mut self, buf: &mut Vec<u8>) -> (r: Result<(), Ds1302Error>)
        requires
            old(buf)@.len() <= 31,
        ensures
            (match r {
                Ok(_) => ({
                    let pre = old(self).log();
                    let post = final(self).log();
                    &&& log_extends(pre, post)
                    &&& post.len() == pre.len() + 1
                    &&& is_burst_read(
                        post.last(),
                        Register::RAMBURS.addr(),
                        old(buf)@.len() as int + 1,
                    )
                    &&& final(buf)@ =~= burst_data(post.last()).skip(1)
                }),
                Err(e) => e == Ds1302Error::Spi && final(self).log() == old(self).log()
                    && final(buf)@ == old(buf)@,
            }),
    {
        let n = buf.len();
        let mut frame: Vec<u8> = Vec::new();
        frame.push(Register::RAMBURS.addr() | READ_BIT);
        let mut i: usize = 0;
        while i < n
            invariant
                i <= n,
                frame@.len() == i + 1,
                frame@[0] == (0xFEu8 | 0x01) as u8,
                forall|j: int| 1 <= j <= i ==> frame@[j] == 0,
            decreases n - i,
        {
            frame.push(0u8);
            i += 1;
        }
        let ghost sent = frame@;
        match self.exchange_frame(&mut frame) {
            Ok(_) => {
                proof {
                    let pre = old(self).log();
                    let post = self.log();
                    assert(post[pre.len() as int] == (BusTransaction::Exchange {
                        sent,
                        received: frame@,
                    }));
                    assert(post.subrange(0, pre.len() as int) =~= pre);
                }
                let mut out: Vec<u8> = Vec::new();
                let mut j: usize = 1;
                while j < frame.len()
                    invariant
                        1 <= j <= frame@.len(),
                        out@.len() == j - 1,
                        forall|k: int| 0 <= k < j - 1 ==> out@[k] == frame@[k + 1],
                    decreases frame@.len() - j,
                {
                    let byte = frame[j];
                    out.push(byte);
                    j += 1;
                }
                proof {
                    assert(out@ =~= frame@.skip(1));
                }
                *buf = out;
                Ok(())
            },
            Err(e) => Err(e),
        }
    }

    /// Write the battery-backed RAM from cell 0 in one burst, truncating the
    /// buffer to the 31 cells the RAM holds, and return how many bytes were
    /// written. The burst does not pass the write-protect gate: the caller
    /// must have write protection cleared for the write to take effect.
    pub fn write_ram_burst(&mut self, buf: &Vec<u8>) -> (r: Result<usize, Ds1302Error>)
        ensures
            (match r {
                Ok(n) => ({
                    &&& n == (if buf@.len() > 31 {
                        31int
                    } else {
                        buf@.len() as int
                    })
                    &&& final(self).log() =~= old(self).log().push(
                        BusTransaction::Send {
                            sent: seq![Register::RAMBURS.addr()] + buf@.take(n as int),
                        },
                    )
                }),
                Err(e) => e == Ds1302Error::Spi && final(self).log() == old(self).log(),
            }),
    {
        let ll = if buf.len() > 31 {
            31
        } else {
            buf.len()
        };
        let mut frame: Vec<u8> = Vec::new();
        frame.push(Register::RAMBURS.addr());
        let mut i: usize = 0;
        while i < ll
            invariant
                i <= ll,
                ll <= buf@.len(),
                frame@.len() == i + 1,
                frame@[0] == 0xFEu8,
                forall|j: int| 1 <= j <= i ==> frame@[j] == buf@[j - 1],
            decreases ll - i,
        {
            let byte = buf[i];
            frame.push(byte);
            i += 1;
        }
        proof {
            assert(frame@ =~= seq![Register::RAMBURS.addr()] + buf@.take(ll as int));
        }
        match self.send_frame(&frame) {
            Ok(_) => Ok(ll),
            Err(e) => Err(e),
        }
    }

    /// Take ownership of the bus, the chip-select output and the timing
    /// source, run the power-on sequence and leave the chip in the requested
    /// hour format.
    ///
    /// The sequence reads the seconds register; when its clock-halt flag is
    /// set, it writes zero to clear the flag and re-reads to confirm. A
    /// confirmation that still shows the flag is fatal: the chip is
    /// considered non-functional and construction fails without returning an
    /// instance.
    pub fn new(spi: SPI, cs: CS, mode: Mode, timer: CLK) -> (r: Result<Self, Ds1302Error>)
        ensures
            (match r {
                Ok(d) => construction(Seq::<BusTransaction>::empty(), d.log(), mode),
                Err(e) => e == Ds1302Error::Spi || e == Ds1302Error::Unknown,
            }),
    {
        let mut ds1302 = DS1302 {
            spi,
            cs,
            timer,
            history: Ghost(Seq::<BusTransaction>::empty()),
        };
        let ghost pre = ds1302.log();
        let byte = match ds1302.read_reg(Register::SECONDS.addr()) {
            Ok(b) => b,
            Err(e) => {
                return Err(e);
            },
        };
        let ghost l1 = ds1302.log();
        let ghost n = pre.len() as int;
        if byte & CLOCK_HALT_FLAG != 0 {
            match ds1302.write_reg(Register::SECONDS.addr(), 0) {
                Ok(_) => {},
                Err(e) => {
                    return Err(e);
                },
            }
            let ghost l2 = ds1302.log();
            let byte2 = match ds1302.read_reg(Register::SECONDS.addr()) {
                Ok(b) => b,
                Err(e) => {
                    return Err(e);
                },
            };
            if byte2 & CLOCK_HALT_FLAG != 0 {
                return Err(Ds1302Error::Unknown);
            }
            let ghost l3 = ds1302.log();
            match ds1302.set_clock_mode(mode) {
                Ok(_) => {
                    proof {
                        let post = ds1302.log();
                        lemma_log_extends_trans(l2, l3, post);
                        lemma_log_extends_trans(l1, l2, post);
                        lemma_log_extends_index(l1, post, n);
                        crate::bus::lemma_writes_at_stable(l2, l3, n + 1, Register::SECONDS.addr(), 0);
                        crate::bus::lemma_writes_at_stable(
                            l3,
                            post,
                            n + 1,
                            Register::SECONDS.addr(),
                            0,
                        );
                        lemma_log_extends_index(l3, post, l2.len() as int);
                        lemma_log_extends_trans(pre, l1, post);
                    }
                    Ok(ds1302)
                },
                Err(e) => Err(e),
            }
        } else {
            match ds1302.set_clock_mode(mode) {
                Ok(_) => {
                    proof {
                        let post = ds1302.log();
                        lemma_log_extends_index(l1, post, n);
                        lemma_log_extends_trans(pre, l1, post);
                    }
                    Ok(ds1302)
                },
                Err(e) => Err(e),
            }
        }
    }

    /// Release the driver and hand back the bus, the chip-select output and
    /// the timing source.
    pub fn destroy(self) -> (r: Result<(SPI, CS, CLK), Ds1302Error>)
        ensures
            r is Ok,
    {
        Ok((self.spi, self.cs, self.timer))
    }
}

/// A clock and calendar written as one burst frame read back exactly, for
/// every clock whose fields are in range and every calendar with a
/// representable year: decoding the frame's payload yields the values the
/// frame was built from.
pub proof fn lemma_clock_calendar_frame_round_trip(clock: Clock, calendar: Calendar)
    requires
        clock.seconds <= 59,
        clock.minutes <= 59,
        crate::codec::hours_valid(clock.hours),
        calendar.date <= 31,
        calendar.month <= 12,
        calendar.day <= 7,
        2000 <= calendar.year <= 2099,
    ensures
        clock_of_burst(clock_calendar_frame(clock, calendar)) == clock,
        calendar_of_burst(clock_calendar_frame(clock, calendar)) == calendar,
{
    crate::codec::lemma_bcd_round_trip(clock.seconds);
    crate::codec::lemma_bcd_round_trip(clock.minutes);
    crate::codec::lemma_hours_encode_round_trip(clock.hours);
    crate::codec::lemma_bcd_round_trip(calendar.date);
    crate::codec::lemma_bcd_round_trip(calendar.month);
    crate::codec::lemma_bcd_round_trip(calendar.day);
    crate::codec::lemma_year_round_trip(calendar.year);
}

} // verus!
