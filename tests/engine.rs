use embedded_onewire::OneWireCrc;
use thermo::ds28ea00::{Ds28ea00Group, ReadoutResolution, Temperature};
use thermo::onewire::{BusEvent, OneWireError};
use thermo::sim::{SimBus, SimDelay};

fn rom(i: u64) -> u64 {
    0x4200_0000_0000_0042 | ((i + 1) << 8)
}

fn crc8(bytes: &[u8]) -> u8 {
    let mut crc = OneWireCrc::default();
    for &b in bytes {
        crc.update(b);
    }
    crc.value()
}

fn scratchpad(lo: u8, hi: u8) -> Vec<u8> {
    let mut block = vec![lo, hi, 0x4b, 0x46, 0x7f, 0xff, 0x0c, 0x10];
    block.push(crc8(&block));
    block
}

fn writes_after_last_reset(log: &[BusEvent]) -> Vec<u8> {
    let start = log.iter().rposition(|e| *e == BusEvent::Reset).unwrap();
    log[start + 1..]
        .iter()
        .map(|e| match e {
            BusEvent::Write(b) => *b,
            _ => panic!("unexpected event {e:?}"),
        })
        .collect()
}

#[test]
fn enumerate_finds_every_matching_device_in_search_order() {
    for n in 0..=16u64 {
        let mut devices: Vec<u64> = (0..n).map(rom).collect();
        devices.insert(0, 0x1100_0000_0000_0028);
        let mut bus = SimBus::new(devices, vec![], vec![]);
        let mut group: Ds28ea00Group<16> = Ds28ea00Group::default();
        let found = group.enumerate(&mut bus).unwrap();
        assert_eq!(found, n as usize);
        assert_eq!(group.roms(), (0..n).map(rom).collect::<Vec<_>>());
    }
}

#[test]
fn enumerate_never_exceeds_capacity() {
    let devices: Vec<u64> = (0..20).map(rom).collect();
    let mut bus = SimBus::new(devices, vec![], vec![]);
    let mut group: Ds28ea00Group<16> = Ds28ea00Group::default();
    assert_eq!(group.enumerate(&mut bus).unwrap(), 16);
    assert_eq!(group.roms(), (0..16).map(rom).collect::<Vec<_>>());
}

#[test]
fn enumerate_writes_thresholds_and_resolution_to_all() {
    let mut bus = SimBus::new(vec![rom(0)], vec![], vec![]);
    let mut group: Ds28ea00Group<4> = Ds28ea00Group::default()
        .with_resolution(ReadoutResolution::Resolution12bit)
        .with_t_low(-40)
        .with_t_high(50);
    group.enumerate(&mut bus).unwrap();
    assert_eq!(
        bus.log().clone(),
        vec![
            BusEvent::Search(0x42, 4),
            BusEvent::Found(rom(0)),
            BusEvent::Reset,
            BusEvent::Write(0xcc),
            BusEvent::Write(0x4e),
            BusEvent::Write((-40i8) as u8),
            BusEvent::Write(50),
            BusEvent::Write(0x7f),
        ]
    );
}

#[test]
fn enumerate_pulses_pins_around_configuration() {
    let mut bus = SimBus::new(vec![rom(0)], vec![], vec![]);
    let mut group: Ds28ea00Group<4> = Ds28ea00Group::default().with_toggle_pio(true);
    group.enumerate(&mut bus).unwrap();
    let log = bus.log().clone();
    assert_eq!(&log[2..7], &[
        BusEvent::Reset,
        BusEvent::Write(0xcc),
        BusEvent::Write(0xa5),
        BusEvent::Write(0x02),
        BusEvent::Write(0xfd),
    ]);
    assert_eq!(&log[log.len() - 5..], &[
        BusEvent::Reset,
        BusEvent::Write(0xcc),
        BusEvent::Write(0xa5),
        BusEvent::Write(0xfd),
        BusEvent::Write(0x02),
    ]);
}

#[test]
fn enumerate_reports_a_bus_failure() {
    let mut bus = SimBus::new(vec![rom(0)], vec![], vec![3]);
    let mut group: Ds28ea00Group<4> = Ds28ea00Group::default();
    assert_eq!(group.enumerate(&mut bus), Err(OneWireError::Other));
    assert_eq!(bus.log().last(), Some(&BusEvent::Fault(OneWireError::Other)));
    assert_eq!(bus.log().len(), 4);
}

#[test]
fn disable_overdrive_twice_keeps_standard_addressing() {
    let mut bus = SimBus::new(vec![rom(0)], vec![], vec![]);
    let mut group: Ds28ea00Group<4> = Ds28ea00Group::default();
    group.enumerate(&mut bus).unwrap();
    group.disable_overdrive(&mut bus).unwrap();
    group.disable_overdrive(&mut bus).unwrap();
    assert!(!group.overdrive());
    group.led_toggle_all(&mut bus, true).unwrap();
    assert_eq!(writes_after_last_reset(bus.log()), vec![0xcc, 0xa5, 0x02, 0xfd]);
}

#[test]
fn overdrive_switches_addressing_commands() {
    let mut bus = SimBus::new(vec![rom(0)], vec![], vec![]);
    let mut group: Ds28ea00Group<4> = Ds28ea00Group::default();
    group.enable_overdrive(&mut bus).unwrap();
    assert!(group.overdrive());
    assert!(bus.overdrive_mode());
    group.led_toggle(&mut bus, rom(0), false).unwrap();
    let mut expected = vec![0x69];
    expected.extend_from_slice(&rom(0).to_le_bytes());
    expected.extend_from_slice(&[0xa5, 0xfd, 0x02]);
    assert_eq!(writes_after_last_reset(bus.log()), expected);
}

#[test]
fn led_toggle_addresses_one_device() {
    let mut bus = SimBus::new(vec![rom(0)], vec![], vec![]);
    let group: Ds28ea00Group<4> = Ds28ea00Group::default();
    group.led_toggle(&mut bus, rom(3), true).unwrap();
    let mut expected = vec![0x55];
    expected.extend_from_slice(&rom(3).to_le_bytes());
    expected.extend_from_slice(&[0xa5, 0x02, 0xfd]);
    assert_eq!(writes_after_last_reset(bus.log()), expected);
}

#[test]
fn twelve_bit_conversion_waits_750_ms() {
    let mut bus = SimBus::new(vec![rom(0)], vec![], vec![]);
    let mut delay = SimDelay::new();
    let group: Ds28ea00Group<4> =
        Ds28ea00Group::default().with_resolution(ReadoutResolution::Resolution12bit);
    group.trigger_temperature_conversion(&mut bus, &mut delay).unwrap();
    assert_eq!(delay.waited().clone(), vec![750000]);
    assert_eq!(writes_after_last_reset(bus.log()), vec![0xcc, 0x44]);
}

#[test]
fn conversion_time_follows_resolution() {
    let cases = [
        (ReadoutResolution::Resolution9bit, 93750),
        (ReadoutResolution::Resolution10bit, 187500),
        (ReadoutResolution::Resolution11bit, 375000),
        (ReadoutResolution::Resolution12bit, 750000),
    ];
    for (res, us) in cases {
        let mut bus = SimBus::new(vec![], vec![], vec![]);
        let mut delay = SimDelay::new();
        let group: Ds28ea00Group<4> = Ds28ea00Group::default().with_resolution(res);
        group.trigger_temperature_conversion(&mut bus, &mut delay).unwrap();
        assert_eq!(delay.waited().clone(), vec![us]);
    }
}

#[test]
fn failed_trigger_does_not_wait() {
    let mut bus = SimBus::new(vec![], vec![], vec![0]);
    let mut delay = SimDelay::new();
    let group: Ds28ea00Group<4> = Ds28ea00Group::default();
    assert!(group.trigger_temperature_conversion(&mut bus, &mut delay).is_err());
    assert!(delay.waited().is_empty());
}

#[test]
fn resolution_codes_round_trip() {
    for code in [0x1f, 0x3f, 0x5f, 0x7f] {
        assert_eq!(ReadoutResolution::try_from(code).unwrap().code(), code);
    }
    assert!(ReadoutResolution::try_from(0x00).is_err());
    assert_eq!(ReadoutResolution::Resolution9bit.bitmask(), 0xf8);
    assert_eq!(ReadoutResolution::default(), ReadoutResolution::Resolution12bit);
}

#[test]
fn crc_checked_read_accepts_a_valid_block() {
    let block = scratchpad(0x91, 0x01);
    let mut bus = SimBus::new(vec![rom(0)], block, vec![]);
    let mut group: Ds28ea00Group<4> = Ds28ea00Group::default();
    group.enumerate(&mut bus).unwrap();
    let readings = group.read_temperatures(&mut bus, true, false).unwrap();
    assert_eq!(readings, vec![(rom(0), Temperature::from_bits(0x0191))]);
}

#[test]
fn crc_checked_read_refuses_any_single_bit_flip() {
    let block = scratchpad(0x91, 0x01);
    for byte in 0..9 {
        for bit in 0..8 {
            let mut corrupt = block.clone();
            corrupt[byte] ^= 1 << bit;
            let mut bus = SimBus::new(vec![rom(0)], corrupt, vec![]);
            let mut group: Ds28ea00Group<4> = Ds28ea00Group::default();
            group.enumerate(&mut bus).unwrap();
            assert_eq!(
                group.read_temperatures(&mut bus, true, false),
                Err(OneWireError::InvalidCrc)
            );
        }
    }
}

#[test]
fn tolerant_read_marks_the_failed_device() {
    let mut bus = SimBus::new(vec![rom(0), rom(1)], vec![0x50, 0x05, 0x60, 0x06], vec![9]);
    let mut group: Ds28ea00Group<4> = Ds28ea00Group::default();
    group.enumerate(&mut bus).unwrap();
    let first = group.read_temperatures(&mut bus, false, true).unwrap();
    assert_eq!(
        first,
        vec![(rom(0), Temperature::error_value()), (rom(1), Temperature::from_bits(0x0550))]
    );
    assert_eq!(Temperature::error_value().to_bits(), -85 * 16);
    let second = group.read_temperatures(&mut bus, false, true).unwrap();
    assert_eq!(second, vec![(rom(0), Temperature::from_bits(0x0660)), (rom(1), Temperature::from_bits(-1))]);
}

#[test]
fn strict_read_fails_on_the_first_error() {
    let mut bus = SimBus::new(vec![rom(0), rom(1)], vec![0x50, 0x05], vec![9]);
    let mut group: Ds28ea00Group<4> = Ds28ea00Group::default();
    group.enumerate(&mut bus).unwrap();
    assert!(group.read_temperatures(&mut bus, false, false).is_err());
}

#[test]
fn reading_masks_undefined_bits_for_the_resolution() {
    let mut bus = SimBus::new(vec![rom(0)], vec![0x97, 0x01], vec![]);
    let mut group: Ds28ea00Group<4> =
        Ds28ea00Group::default().with_resolution(ReadoutResolution::Resolution9bit);
    group.enumerate(&mut bus).unwrap();
    let readings = group.read_temperatures(&mut bus, false, false).unwrap();
    assert_eq!(readings[0].1, Temperature::from_bits(0x0190));
}

#[test]
fn negative_temperatures_decode() {
    assert_eq!(Temperature::from_le_bytes(0x5e, 0xff).to_bits(), -162);
    assert_eq!(Temperature::from_le_bytes(0xd0, 0x07).to_bits(), 2000);
}

#[test]
fn single_device_read_triggers_then_reads() {
    let mut bus = SimBus::new(vec![rom(0)], vec![0x91, 0x01], vec![]);
    let mut delay = SimDelay::new();
    let group: Ds28ea00Group<4> = Ds28ea00Group::default();
    let t = group.read_temperature(&mut bus, &mut delay, rom(0), false).unwrap();
    assert_eq!(t, Temperature::from_bits(0x0191));
    assert_eq!(delay.waited().clone(), vec![750000]);
}

#[test]
fn bus_errors_are_returned_unchanged() {
    let mut bus = SimBus::new(vec![rom(0)], vec![], vec![0, 1]);
    let mut group: Ds28ea00Group<4> = Ds28ea00Group::default();
    assert_eq!(group.enable_overdrive(&mut bus), Err(OneWireError::Other));
    assert!(!group.overdrive());
    assert_eq!(group.led_toggle_all(&mut bus, true), Err(OneWireError::NoDevicePresent));
    assert_eq!(bus.log().clone(), vec![
        BusEvent::Fault(OneWireError::Other),
        BusEvent::Fault(OneWireError::NoDevicePresent),
    ]);
}

#[test]
fn failed_single_read_never_returns_the_marker() {
    let mut bus = SimBus::new(vec![rom(0)], vec![], vec![0]);
    let mut delay = SimDelay::new();
    let group: Ds28ea00Group<4> = Ds28ea00Group::default();
    assert_eq!(group.read_temperature(&mut bus, &mut delay, rom(0), false), Err(OneWireError::NoDevicePresent));
    assert!(delay.waited().is_empty());
}

#[test]
fn invalid_resolution_code_is_named() {
    assert_eq!(ReadoutResolution::try_from(0x20), Err("Invalid readout resolution"));
}
