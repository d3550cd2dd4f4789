use ds1302::Calendar;
use ds1302::ChipSelect;
use ds1302::Clock;
use ds1302::Delay;
use ds1302::Ds;
use ds1302::Ds1302Error;
use ds1302::Hours;
use ds1302::Mode;
use ds1302::Rs;
use ds1302::Transport;
use ds1302::DS1302;

/// One recorded bus transaction: whether it was a full-duplex exchange and
/// the bytes the driver sent.
#[derive(Clone, Debug, PartialEq, Eq)]
struct Frame {
    exchange: bool,
    sent: Vec<u8>,
}

/// A mock chip behind the bus: a register file keyed by write address, the
/// 31 RAM cells, and a record of every frame the driver sent. It gates writes
/// on the write-protect bit as the chip does, and can be made to fail every
/// transfer from some point on, or to ignore writes to the seconds register (a
/// stuck oscillator).
struct MockChip {
    regs: [u8; 256],
    ram: [u8; 31],
    frames: Vec<Frame>,
    /// Fail every transaction once this many have completed.
    fail_after: usize,
    stuck_halt: bool,
}

impl MockChip {
    fn new() -> MockChip {
        MockChip {
            regs: [0u8; 256],
            ram: [0u8; 31],
            frames: Vec::new(),
            fail_after: usize::MAX,
            stuck_halt: false,
        }
    }

    fn failing(&self) -> bool {
        self.frames.len() >= self.fail_after
    }

    fn write_protected(&self) -> bool {
        self.regs[0x8E] & 0x80 != 0
    }

    fn clock_burst_source(&self, offset: usize) -> u8 {
        let order = [0x80usize, 0x82, 0x84, 0x86, 0x88, 0x8A, 0x8C, 0x8E];
        self.regs[order[offset]]
    }

    fn apply_write(&mut self, addr: u8, value: u8) {
        if addr == 0x8E {
            self.regs[0x8E] = value;
            return;
        }
        if self.write_protected() {
            return;
        }
        if addr == 0x80 && self.stuck_halt {
            return;
        }
        if addr >= 0xC0 {
            // A RAM cell: the base plus twice the index.
            self.ram[((addr - 0xC0) / 2) as usize] = value;
        } else {
            self.regs[addr as usize] = value;
        }
    }

    fn read_single(&self, addr: u8) -> u8 {
        if addr >= 0xC0 {
            self.ram[((addr - 0xC0) / 2) as usize]
        } else {
            self.regs[addr as usize]
        }
    }
}

impl Transport for MockChip {
    fn exchange(&mut self, frame: &mut Vec<u8>) -> Result<(), ()> {
        if self.failing() {
            return Err(());
        }
        self.frames.push(Frame { exchange: true, sent: frame.clone() });
        let first = frame[0];
        if first == 0xBF {
            for i in 1..frame.len() {
                frame[i] = self.clock_burst_source(i - 1);
            }
        } else if first == 0xFF {
            for i in 1..frame.len() {
                frame[i] = self.ram[i - 1];
            }
        } else {
            let addr = first & !1u8;
            frame[1] = self.read_single(addr);
        }
        Ok(())
    }

    fn send(&mut self, frame: &Vec<u8>) -> Result<(), ()> {
        if self.failing() {
            return Err(());
        }
        self.frames.push(Frame { exchange: false, sent: frame.clone() });
        let first = frame[0];
        if first == 0xBE {
            if !self.write_protected() {
                let order = [0x80usize, 0x82, 0x84, 0x86, 0x88, 0x8A, 0x8C, 0x8E];
                for i in 1..frame.len() {
                    self.regs[order[i - 1]] = frame[i];
                }
            }
        } else if first == 0xFE {
            if !self.write_protected() {
                for i in 1..frame.len() {
                    self.ram[i - 1] = frame[i];
                }
            }
        } else {
            self.apply_write(first, frame[1]);
        }
        Ok(())
    }
}

struct MockPin;

impl ChipSelect for MockPin {
    fn set_high(&mut self) -> Result<(), ()> {
        Ok(())
    }

    fn set_low(&mut self) -> Result<(), ()> {
        Ok(())
    }
}

struct MockTimer;

impl Delay for MockTimer {
    fn start(&mut self, _micros: u32) -> Result<(), ()> {
        Ok(())
    }

    fn wait(&mut self) -> Result<(), ()> {
        Ok(())
    }
}

fn make_driver(chip: MockChip) -> DS1302<MockChip, MockPin, MockTimer> {
    DS1302::new(chip, MockPin, Mode::Hour24, MockTimer).unwrap()
}

fn take_chip(driver: DS1302<MockChip, MockPin, MockTimer>) -> MockChip {
    let (chip, _pin, _timer) = driver.destroy().unwrap();
    chip
}

#[test]
fn construction_with_running_clock_reads_seconds_once() {
    let chip = MockChip::new();
    let driver = make_driver(chip);
    let chip = take_chip(driver);
    // One seconds read, then the mode check's hours read; no clear write.
    assert_eq!(chip.frames[0], Frame { exchange: true, sent: vec![0x81, 0x00] });
    assert_eq!(chip.frames[1], Frame { exchange: true, sent: vec![0x85, 0x00] });
    assert_eq!(chip.frames.len(), 2);
}

#[test]
fn construction_clears_halt_flag_and_confirms() {
    let mut chip = MockChip::new();
    chip.regs[0x80] = 0x80;
    let driver = make_driver(chip);
    let chip = take_chip(driver);
    assert_eq!(chip.regs[0x80], 0x00);
    // Seconds read, write-protect read, clear write to seconds, confirming
    // seconds read, then the mode check's hours read.
    assert_eq!(chip.frames[0], Frame { exchange: true, sent: vec![0x81, 0x00] });
    assert_eq!(chip.frames[1], Frame { exchange: true, sent: vec![0x8F, 0x00] });
    assert_eq!(chip.frames[2], Frame { exchange: false, sent: vec![0x80, 0x00] });
    assert_eq!(chip.frames[3], Frame { exchange: true, sent: vec![0x81, 0x00] });
    assert_eq!(chip.frames[4], Frame { exchange: true, sent: vec![0x85, 0x00] });
    assert_eq!(chip.frames.len(), 5);
}

#[test]
fn construction_fails_when_halt_flag_stays_set() {
    let mut chip = MockChip::new();
    chip.regs[0x80] = 0x80;
    chip.stuck_halt = true;
    let r = DS1302::new(chip, MockPin, Mode::Hour24, MockTimer);
    assert!(matches!(r, Err(Ds1302Error::Unknown)));
}

#[test]
fn construction_fails_on_transport_error() {
    let mut chip = MockChip::new();
    chip.fail_after = 0;
    let r = DS1302::new(chip, MockPin, Mode::Hour24, MockTimer);
    assert!(matches!(r, Err(Ds1302Error::Spi)));
}

#[test]
fn set_and_get_single_fields() {
    let mut driver = make_driver(MockChip::new());
    driver.set_seconds(59).unwrap();
    driver.set_minutes(8).unwrap();
    driver.set_hours(Hours::Hour24(23)).unwrap();
    driver.set_date(31).unwrap();
    driver.set_month(12).unwrap();
    driver.set_day(7).unwrap();
    assert_eq!(driver.get_seconds().unwrap(), 59);
    assert_eq!(driver.get_minutes().unwrap(), 8);
    assert_eq!(driver.get_hours().unwrap(), Hours::Hour24(23));
    assert_eq!(driver.get_date().unwrap(), 31);
    assert_eq!(driver.get_month().unwrap(), 12);
    assert_eq!(driver.get_day().unwrap(), 7);
    let chip = take_chip(driver);
    assert_eq!(chip.regs[0x80], 0x59);
    assert_eq!(chip.regs[0x84], 0x23);
    assert_eq!(chip.regs[0x86], 0x31);
}

#[test]
fn year_epoch_round_trip_and_clamp() {
    let mut driver = make_driver(MockChip::new());
    driver.set_year(2023).unwrap();
    assert_eq!(driver.get_year().unwrap(), 2023);
    driver.set_year(1999).unwrap();
    assert_eq!(driver.get_year().unwrap(), 2000);
    let chip = take_chip(driver);
    assert_eq!(chip.regs[0x8C], 0x00);
}

#[test]
fn single_write_clears_write_protect_first() {
    let mut chip = MockChip::new();
    chip.regs[0x8E] = 0x80;
    let mut driver = make_driver(chip);
    driver.set_seconds(12).unwrap();
    assert_eq!(driver.get_seconds().unwrap(), 12);
    let chip = take_chip(driver);
    assert_eq!(chip.regs[0x8E], 0x00);
}

#[test]
fn ram_cell_round_trip_at_every_index() {
    let mut driver = make_driver(MockChip::new());
    for index in 0..=30u8 {
        driver.write_ram(index, index.wrapping_mul(7)).unwrap();
    }
    for index in 0..=30u8 {
        assert_eq!(driver.read_ram(index).unwrap(), index.wrapping_mul(7));
    }
}

#[test]
fn ram_index_past_thirty_fails_without_bus_activity() {
    let mut driver = make_driver(MockChip::new());
    assert!(matches!(driver.write_ram(31, 0xAB), Err(Ds1302Error::Parameter)));
    assert!(matches!(driver.read_ram(31), Err(Ds1302Error::Parameter)));
    assert!(matches!(driver.write_ram(255, 0xAB), Err(Ds1302Error::Parameter)));
    let chip = take_chip(driver);
    // Only the two construction reads stand in the record: the rejected
    // accesses reached the bus not at all.
    assert_eq!(chip.frames.len(), 2);
}

#[test]
fn ram_write_succeeds_at_index_thirty() {
    let mut driver = make_driver(MockChip::new());
    driver.write_ram(30, 0x5A).unwrap();
    assert_eq!(driver.read_ram(30).unwrap(), 0x5A);
}

#[test]
fn ram_burst_round_trip() {
    let mut driver = make_driver(MockChip::new());
    let data: Vec<u8> = (0..31u8).map(|i| i.wrapping_add(100)).collect();
    assert_eq!(driver.write_ram_burst(&data).unwrap(), 31);
    let mut buf = vec![0u8; 31];
    driver.read_ram_burst(&mut buf).unwrap();
    assert_eq!(buf, data);
}

#[test]
fn ram_burst_write_truncates_to_thirty_one() {
    let mut driver = make_driver(MockChip::new());
    let data = vec![0x11u8; 40];
    assert_eq!(driver.write_ram_burst(&data).unwrap(), 31);
    let mut buf = vec![0u8; 31];
    driver.read_ram_burst(&mut buf).unwrap();
    assert_eq!(buf, vec![0x11u8; 31]);
}

#[test]
fn ram_burst_short_read() {
    let mut driver = make_driver(MockChip::new());
    driver.write_ram(0, 0xDE).unwrap();
    driver.write_ram(1, 0xAD).unwrap();
    let mut buf = vec![0u8; 2];
    driver.read_ram_burst(&mut buf).unwrap();
    assert_eq!(buf, vec![0xDE, 0xAD]);
}

#[test]
fn clock_calendar_burst_round_trip() {
    let mut driver = make_driver(MockChip::new());
    let clock = Clock { hours: Hours::Hour24(23), minutes: 59, seconds: 59 };
    let calendar = Calendar { day: 7, date: 31, month: 12, year: 2024 };
    driver.set_clock_calendar(clock, calendar).unwrap();
    let (c, cal) = driver.get_clock_calendar().unwrap();
    assert_eq!(c, clock);
    assert_eq!(cal, calendar);
}

#[test]
fn sequential_clock_and_calendar_writes_read_back() {
    let mut driver = make_driver(MockChip::new());
    let clock = Clock { hours: Hours::Hour12pm(11), minutes: 30, seconds: 15 };
    let calendar = Calendar { day: 3, date: 17, month: 6, year: 2099 };
    driver.set_clock(clock).unwrap();
    driver.set_calendar(calendar).unwrap();
    assert_eq!(driver.get_clock().unwrap(), clock);
    assert_eq!(driver.get_calendar().unwrap(), calendar);
}

#[test]
fn mode_switch_preserves_wall_clock_hour() {
    let mut driver = make_driver(MockChip::new());
    driver.set_hours(Hours::Hour24(15)).unwrap();
    driver.set_clock_mode(Mode::Hour12).unwrap();
    assert_eq!(driver.get_hours().unwrap(), Hours::Hour12pm(3));
    driver.set_clock_mode(Mode::Hour24).unwrap();
    assert_eq!(driver.get_hours().unwrap(), Hours::Hour24(15));
    let chip = take_chip(driver);
    assert_eq!(chip.regs[0x84], 0x15);
}

#[test]
fn mode_switch_to_same_mode_writes_nothing() {
    let mut driver = make_driver(MockChip::new());
    driver.set_hours(Hours::Hour24(9)).unwrap();
    let chip = take_chip(driver);
    let count_before = chip.frames.len();
    let mut driver = DS1302::new(chip, MockPin, Mode::Hour24, MockTimer).unwrap();
    driver.set_clock_mode(Mode::Hour24).unwrap();
    let chip = take_chip(driver);
    // Construction re-read seconds and hours; the explicit mode switch adds
    // only one more hours read, no write.
    assert_eq!(chip.frames.len(), count_before + 3);
    assert_eq!(chip.frames[chip.frames.len() - 1], Frame { exchange: true, sent: vec![0x85, 0x00] });
}

#[test]
fn construction_applies_requested_mode() {
    let mut chip = MockChip::new();
    chip.regs[0x84] = 0x15;
    let mut driver = DS1302::new(chip, MockPin, Mode::Hour12, MockTimer).unwrap();
    assert_eq!(driver.get_hours().unwrap(), Hours::Hour12pm(3));
    let chip = take_chip(driver);
    assert_eq!(chip.regs[0x84], 0xA3);
}

#[test]
fn trickle_charge_via_driver() {
    let mut driver = make_driver(MockChip::new());
    driver.tc_enable(Ds::TWO14V, Rs::R8K).unwrap();
    assert_eq!(driver.tc_get().unwrap(), (true, Some(Ds::TWO14V), Some(Rs::R8K)));
    assert!(driver.tc_is_enabled().unwrap());
    driver.tc_disable().unwrap();
    assert_eq!(driver.tc_get().unwrap(), (false, None, None));
    assert!(!driver.tc_is_enabled().unwrap());
    let chip = take_chip(driver);
    assert_eq!(chip.regs[0x90], 0x5C);
}

#[test]
fn transport_error_is_propagated() {
    // Let the two construction transactions pass, then fail every transfer.
    let mut chip = MockChip::new();
    chip.fail_after = 2;
    let mut driver = make_driver(chip);
    assert!(matches!(driver.get_seconds(), Err(Ds1302Error::Spi)));
    assert!(matches!(driver.set_seconds(1), Err(Ds1302Error::Spi)));
    assert!(matches!(driver.read_ram(0), Err(Ds1302Error::Spi)));
    assert!(matches!(driver.get_clock(), Err(Ds1302Error::Spi)));
    assert!(matches!(driver.tc_get(), Err(Ds1302Error::Spi)));
}
