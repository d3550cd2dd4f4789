use ds1302::bcd_to_decimal;
use ds1302::decimal_to_bcd;
use ds1302::Hours;
use ds1302::Register;
use ds1302::Rs;
use ds1302::Ds;
use ds1302::TrickleCharger;

#[test]
fn bcd_round_trip_all_two_digit_values() {
    for d in 0..=99u8 {
        assert_eq!(bcd_to_decimal(decimal_to_bcd(d)), d);
    }
}

#[test]
fn bcd_concrete_values() {
    assert_eq!(decimal_to_bcd(0), 0x00);
    assert_eq!(decimal_to_bcd(9), 0x09);
    assert_eq!(decimal_to_bcd(10), 0x10);
    assert_eq!(decimal_to_bcd(59), 0x59);
    assert_eq!(decimal_to_bcd(99), 0x99);
    assert_eq!(bcd_to_decimal(0x00), 0);
    assert_eq!(bcd_to_decimal(0x31), 31);
    assert_eq!(bcd_to_decimal(0x99), 99);
}

#[test]
fn hours_encoding_concrete() {
    assert_eq!(Hours::Hour24(15).encode(), 0x15);
    // Bit 7 and bit 5 set around BCD 3.
    assert_eq!(Hours::Hour12pm(3).encode(), 0xA3);
    assert_eq!(Hours::Hour12am(11).encode(), 0x91);
    assert_eq!(Hours::Hour24(0).encode(), 0x00);
    assert_eq!(Hours::Hour24(23).encode(), 0x23);
}

#[test]
fn hours_decoding_concrete() {
    assert_eq!(Hours::decode(0x15), Hours::Hour24(15));
    assert_eq!(Hours::decode(0xA3), Hours::Hour12pm(3));
    assert_eq!(Hours::decode(0x91), Hours::Hour12am(11));
    assert_eq!(Hours::decode(0x00), Hours::Hour24(0));
}

#[test]
fn hours_encode_decode_round_trip() {
    for h in 0..=23u8 {
        assert_eq!(Hours::decode(Hours::Hour24(h).encode()), Hours::Hour24(h));
    }
    for h in 1..=12u8 {
        assert_eq!(Hours::decode(Hours::Hour12am(h).encode()), Hours::Hour12am(h));
        assert_eq!(Hours::decode(Hours::Hour12pm(h).encode()), Hours::Hour12pm(h));
    }
}

#[test]
fn hours_convert_round_trip() {
    for h in 0..=23u8 {
        assert_eq!(Hours::Hour24(h).convert().convert(), Hours::Hour24(h));
    }
    for h in 1..=11u8 {
        assert_eq!(Hours::Hour12am(h).convert().convert(), Hours::Hour12am(h));
    }
    for h in 1..=12u8 {
        assert_eq!(Hours::Hour12pm(h).convert().convert(), Hours::Hour12pm(h));
    }
}

#[test]
fn hours_convert_concrete() {
    assert_eq!(Hours::Hour24(0).convert(), Hours::Hour12am(0));
    assert_eq!(Hours::Hour24(11).convert(), Hours::Hour12am(11));
    assert_eq!(Hours::Hour24(12).convert(), Hours::Hour12pm(0));
    assert_eq!(Hours::Hour24(23).convert(), Hours::Hour12pm(11));
    assert_eq!(Hours::Hour12am(7).convert(), Hours::Hour24(7));
    assert_eq!(Hours::Hour12pm(7).convert(), Hours::Hour24(19));
    // Midnight in 12-hour form converts to the 24-hour value 12, which
    // converts back to 12 PM rather than 12 AM.
    assert_eq!(Hours::Hour12am(12).convert(), Hours::Hour24(12));
    assert_eq!(Hours::Hour24(12).convert(), Hours::Hour12pm(0));
}

#[test]
fn hour_reports_value_and_tag() {
    assert_eq!(Hours::Hour24(17).hour(), (17, None));
    assert_eq!(Hours::Hour12am(8).hour(), (8, Some(false)));
    assert_eq!(Hours::Hour12pm(8).hour(), (8, Some(true)));
}

#[test]
fn register_addresses_are_chip_fixed() {
    assert_eq!(Register::SECONDS.addr(), 0x80);
    assert_eq!(Register::MINUTES.addr(), 0x82);
    assert_eq!(Register::HOURS.addr(), 0x84);
    assert_eq!(Register::DATE.addr(), 0x86);
    assert_eq!(Register::MONTH.addr(), 0x88);
    assert_eq!(Register::DAY.addr(), 0x8A);
    assert_eq!(Register::YEAR.addr(), 0x8C);
    assert_eq!(Register::WP.addr(), 0x8E);
    assert_eq!(Register::TCS.addr(), 0x90);
    assert_eq!(Register::CLKBURS.addr(), 0xBE);
    assert_eq!(Register::RAM.addr(), 0xC0);
    assert_eq!(Register::RAMBURS.addr(), 0xFE);
}

#[test]
fn trickle_charge_enable_reads_back_enabled() {
    let byte = TrickleCharger::enable(Ds::TWO14V, Rs::R8K);
    assert_eq!(byte, 0xAB);
    let (enabled, ds, rs) = TrickleCharger::from_byte(byte).get();
    assert!(enabled);
    assert_eq!(ds, Some(Ds::TWO14V));
    assert_eq!(rs, Some(Rs::R8K));
    assert!(TrickleCharger::from_byte(byte).is_enabled());
}

#[test]
fn trickle_charge_every_selection_round_trips() {
    let all = [
        (Ds::ONE07V, Rs::R2K),
        (Ds::ONE07V, Rs::R4K),
        (Ds::ONE07V, Rs::R8K),
        (Ds::TWO14V, Rs::R2K),
        (Ds::TWO14V, Rs::R4K),
        (Ds::TWO14V, Rs::R8K),
    ];
    for (ds, rs) in all {
        let byte = TrickleCharger::enable(ds, rs);
        assert_eq!(TrickleCharger::from_byte(byte).get(), (true, Some(ds), Some(rs)));
    }
}

#[test]
fn trickle_charge_disable_byte_reads_back_disabled() {
    assert_eq!(TrickleCharger::disable(), 0x5C);
    let (enabled, ds, rs) = TrickleCharger::from_byte(0x5C).get();
    assert!(!enabled);
    assert_eq!(ds, None);
    assert_eq!(rs, None);
}

#[test]
fn trickle_charge_pattern_with_valid_codes_reads_enabled() {
    // 0xA5: enable pattern 1010 in the high nibble, one diode, 2 kOhm.
    assert_eq!(TrickleCharger::from_byte(0xA5).get(), (true, Some(Ds::ONE07V), Some(Rs::R2K)));
    // Valid low nibble under a wrong high nibble reads disabled.
    assert_eq!(TrickleCharger::from_byte(0x55).get(), (false, Some(Ds::ONE07V), Some(Rs::R2K)));
    // Enable pattern with an unrecognized diode code reads disabled.
    assert_eq!(TrickleCharger::from_byte(0xA1).get(), (false, None, Some(Rs::R2K)));
    // Enable pattern with an unrecognized resistor code reads disabled.
    assert_eq!(TrickleCharger::from_byte(0xA4).get(), (false, Some(Ds::ONE07V), None));
}

#[test]
fn judge_and_value_codes() {
    assert_eq!(Rs::judge(0x01), Some(Rs::R2K));
    assert_eq!(Rs::judge(0x02), Some(Rs::R4K));
    assert_eq!(Rs::judge(0x03), Some(Rs::R8K));
    assert_eq!(Rs::judge(0x00), None);
    assert_eq!(Rs::R2K.value(), 0x01);
    assert_eq!(Rs::R4K.value(), 0x02);
    assert_eq!(Rs::R8K.value(), 0x03);
    assert_eq!(Ds::judge(0x04), Some(Ds::ONE07V));
    assert_eq!(Ds::judge(0x08), Some(Ds::TWO14V));
    assert_eq!(Ds::judge(0x0C), None);
    assert_eq!(Ds::judge(0x00), None);
    assert_eq!(Ds::ONE07V.value(), 0x04);
    assert_eq!(Ds::TWO14V.value(), 0x08);
}
