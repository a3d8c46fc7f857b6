use thermo::ds28ea00::{Ds28ea00Group, Temperature};
use thermo::hdc1010::{
    Error, Hdc1010Builder, HumidityResolution, I2cMaster, SlaveAddress, TracedI2c, Trigger,
};
use thermo::onewire::{BlockingDelay, OneWireError, OneWireMaster, TracedBus, TracedDelay};

struct FakeHdc {
    address: u8,
    manufacturer: u16,
    config: u16,
    pointer: u8,
    humidity: u16,
    reset_mask: u16,
}

impl FakeHdc {
    fn new(address: u8) -> Self {
        FakeHdc { address, manufacturer: 0x5449, config: 0x1000, pointer: 0, humidity: 0x8000, reset_mask: 0x7fff }
    }
}

impl I2cMaster for FakeHdc {
    fn read(&mut self, address: u8, buf: &mut [u8]) -> Result<(), Error> {
        if address != self.address {
            return Err(Error::I2c);
        }
        let value: u16 = if self.pointer == 0x01 { self.humidity } else { 0x6666 };
        for (i, b) in buf.iter_mut().enumerate() {
            *b = value.to_be_bytes()[i % 2];
        }
        Ok(())
    }

    fn write(&mut self, address: u8, bytes: &[u8]) -> Result<(), Error> {
        if address != self.address {
            return Err(Error::I2c);
        }
        self.pointer = bytes[0];
        if bytes.len() == 3 && bytes[0] == 0x02 {
            self.config = u16::from_be_bytes([bytes[1], bytes[2]]) & self.reset_mask;
        }
        Ok(())
    }

    fn write_read(&mut self, address: u8, bytes: &[u8], buf: &mut [u8]) -> Result<(), Error> {
        if address != self.address {
            return Err(Error::I2c);
        }
        match bytes[0] {
            0xfe => buf.copy_from_slice(&self.manufacturer.to_be_bytes()),
            0xff => buf.copy_from_slice(&0x1000u16.to_be_bytes()),
            0x02 => buf.copy_from_slice(&self.config.to_be_bytes()),
            0xfb => buf.copy_from_slice(&[0x12, 0x34, 0x56, 0x78, 0x9a, 0x80]),
            _ => return Err(Error::I2c),
        }
        Ok(())
    }
}

struct NoWait;

impl BlockingDelay for NoWait {
    fn delay_us(&mut self, _us: u32) {}
}

#[test]
fn humidity_sensor_is_found_configured_and_read() {
    let mut i2c = TracedI2c::new(FakeHdc::new(0x40));
    let mut delay = TracedDelay::new(NoWait);
    let mut hdc = Hdc1010Builder::default()
        .with_humidity_resolution(HumidityResolution::ElevenBit)
        .build_mode_separate(&mut i2c)
        .unwrap();
    assert_eq!(hdc.get_address(), 0x40);
    hdc.reset(&mut i2c, &mut delay).unwrap();
    assert_eq!(hdc.get_resolution().0, HumidityResolution::ElevenBit);
    assert_eq!(hdc.read_humidity(&mut i2c).unwrap_err(), Error::InvalidOperation);
    assert_eq!(hdc.trigger(&mut i2c, Trigger::Humidity).unwrap(), 3850);
    assert_eq!(hdc.read_humidity(&mut i2c).unwrap().value, 0x8000);
    assert_eq!(hdc.read_temperature(&mut i2c).unwrap_err(), Error::InvalidOperation);
    assert_eq!(hdc.get_serial(&mut i2c).unwrap(), (0x12u64 << 33) | (0x34 << 25) | (0x56 << 17) | (0x78 << 9) | (0x9a << 1) | 1);
    let builder = hdc.to_builder();
    assert!(format!("{builder:?}").contains("ElevenBit"));
}

#[test]
fn humidity_sensor_absent_or_foreign_is_refused() {
    let mut i2c = TracedI2c::new(FakeHdc::new(0x40));
    let other = Hdc1010Builder::default().with_address(SlaveAddress::default().with_a0(true));
    assert_eq!(other.build_mode_both(&mut i2c).unwrap_err(), Error::I2c);
    let mut foreign = FakeHdc::new(0x40);
    foreign.manufacturer = 0x1234;
    let mut i2c = TracedI2c::new(foreign);
    assert_eq!(Hdc1010Builder::default().build_mode_both(&mut i2c).unwrap_err(), Error::InvalidId);
}

#[test]
fn combined_acquisition_reads_both_values() {
    let mut i2c = TracedI2c::new(FakeHdc::new(0x40));
    let mut hdc = Hdc1010Builder::default().build_mode_both(&mut i2c).unwrap();
    assert_eq!(hdc.trigger(&mut i2c).unwrap(), 6500 + 6350);
    let (t, h) = hdc.read_temperature_humidity(&mut i2c).unwrap();
    assert_eq!((t.value, h.value), (0x6666, 0x6666));
    assert!(!hdc.get_heater(&mut i2c).unwrap());
    hdc.set_heater(&mut i2c, true).unwrap();
    assert!(hdc.get_heater(&mut i2c).unwrap());
}

#[derive(Default)]
struct FakeMaster {
    devices: Vec<u64>,
    written: Vec<u8>,
    resets: usize,
    overdrive: bool,
}

impl OneWireMaster for FakeMaster {
    fn reset(&mut self) -> Result<(), OneWireError> {
        self.resets += 1;
        Ok(())
    }

    fn write_byte(&mut self, byte: u8) -> Result<(), OneWireError> {
        self.written.push(byte);
        Ok(())
    }

    fn read_byte(&mut self) -> Result<u8, OneWireError> {
        Ok(0x10)
    }

    fn set_overdrive_mode(&mut self, enable: bool) -> Result<(), OneWireError> {
        self.overdrive = enable;
        Ok(())
    }

    fn search(&mut self, family: u8, _limit: usize) -> Result<Vec<u64>, OneWireError> {
        Ok(self.devices.iter().copied().filter(|d| *d as u8 == family).collect())
    }
}

#[test]
fn traced_bus_passes_operations_through_and_bounds_the_search() {
    let devices: Vec<u64> = (1..=5u64).map(|i| (i << 8) | 0x42).collect();
    let mut bus = TracedBus::new(FakeMaster { devices: devices.clone(), ..Default::default() });
    let mut group: Ds28ea00Group<3> = Ds28ea00Group::default();
    assert_eq!(group.enumerate(&mut bus), Ok(3));
    assert_eq!(group.roms(), devices[..3].to_vec());
    let readings = group.read_temperatures(&mut bus, false, false).unwrap();
    assert_eq!(readings[2], (devices[2], Temperature::from_bits(0x1010)));
}

#[test]
fn reset_that_never_finishes_times_out() {
    let mut fake = FakeHdc::new(0x40);
    fake.reset_mask = 0xffff;
    let mut i2c = TracedI2c::new(fake);
    let mut delay = TracedDelay::new(NoWait);
    let mut hdc = Hdc1010Builder::default().build_mode_separate(&mut i2c).unwrap();
    assert_eq!(hdc.reset(&mut i2c, &mut delay), Err(Error::Timeout));
}
