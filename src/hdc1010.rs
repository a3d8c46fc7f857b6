//! Driver for the HDC1010 humidity and temperature sensor on an I2C bus.

use vstd::prelude::*;

use crate::onewire::DelayUs;

verus! {

/// Register pointer of the temperature result.
pub const TEMPERATURE_REG: u8 = 0x00;

/// Register pointer of the humidity result.
pub const HUMIDITY_REG: u8 = 0x01;

/// Register pointer of the configuration register.
pub const CONFIGURATION_REG: u8 = 0x02;

/// Register pointer of the first serial number register.
pub const SERIAL_ID_REG: u8 = 0xfb;

/// Register pointer of the manufacturer ID.
pub const MANUFACTURER_ID_REG: u8 = 0xfe;

/// Register pointer of the device ID.
pub const DEVICE_ID_REG: u8 = 0xff;

/// Manufacturer ID of Texas Instruments.
pub const MANUFACTURER_ID: u16 = 0x5449;

/// Device ID of the HDC1010.
pub const DEVICE_ID: u16 = 0x1000;

/// One transfer on an I2C bus, as recorded by its trace.
pub enum I2cOp {
    /// Bytes written to a device.
    Write(u8, Seq<u8>),
    /// Bytes read from a device.
    Read(u8, Seq<u8>),
    /// Bytes written to a device, then bytes read from it.
    WriteRead(u8, Seq<u8>, Seq<u8>),
    /// A transfer that failed.
    Fault,
}

/// An I2C bus with 7-bit addresses. Every transfer appends to `ops`.
pub trait I2cBus {
    /// Every transfer so far, oldest first.
    spec fn ops(&self) -> Seq<I2cOp>;

    /// Reads `len` bytes from the device at `address`.
    fn read(&mut self, address: u8, len: usize) -> (r: Result<Vec<u8>, Error>)
        ensures
            match r {
                Ok(data) => data@.len() == len && final(self).ops() == old(self).ops().push(
                    I2cOp::Read(address, data@),
                ),
                Err(e) => e == Error::I2c && final(self).ops() == old(self).ops().push(I2cOp::Fault),
            },
    ;

    /// Writes `bytes` to the device at `address`.
    fn write(&mut self, address: u8, bytes: &[u8]) -> (r: Result<(), Error>)
        ensures
            match r {
                Ok(()) => final(self).ops() == old(self).ops().push(I2cOp::Write(address, bytes@)),
                Err(e) => e == Error::I2c && final(self).ops() == old(self).ops().push(I2cOp::Fault),
            },
    ;

    /// Writes `bytes` to the device at `address`, then reads `len` bytes.
    fn write_read(&mut self, address: u8, bytes: &[u8], len: usize) -> (r: Result<Vec<u8>, Error>)
        ensures
            match r {
                Ok(data) => data@.len() == len && final(self).ops() == old(self).ops().push(
                    I2cOp::WriteRead(address, bytes@, data@),
                ),
                Err(e) => e == Error::I2c && final(self).ops() == old(self).ops().push(I2cOp::Fault),
            },
    ;
}

/// The raw transfers of an I2C bus master, as hardware drivers provide
/// them. `TracedI2c` turns one into an `I2cBus`.
pub trait I2cMaster {
    /// Fills `buf` from the device at `address`.
    fn read(&mut self, address: u8, buf: &mut [u8]) -> Result<(), Error>;

    /// Writes `bytes` to the device at `address`.
    fn write(&mut self, address: u8, bytes: &[u8]) -> Result<(), Error>;

    /// Writes `bytes` to the device at `address`, then fills `buf` from it.
    fn write_read(&mut self, address: u8, bytes: &[u8], buf: &mut [u8]) -> Result<(), Error>;
}

/// An I2C bus master together with the record of every transfer made
/// through it.
pub struct TracedI2c<M> {
    master: M,
    log: Ghost<Seq<I2cOp>>,
}

impl<M: I2cMaster> TracedI2c<M> {
    /// Starts recording the transfers on `master`.
    pub fn new(master: M) -> (b: TracedI2c<M>)
        ensures
            b.ops() == Seq::<I2cOp>::empty(),
    {
        TracedI2c { master, log: Ghost(Seq::empty()) }
    }
}

/// A buffer of `len` zero bytes.
fn zeroes(len: usize) -> (v: Vec<u8>)
    ensures
        v@.len() == len,
{
    let mut v: Vec<u8> = Vec::new();
    while v.len() < len
        invariant
            v@.len() <= len,
        decreases len - v.len(),
    {
        v.push(0);
    }
    v
}

impl<M: I2cMaster> I2cBus for TracedI2c<M> {
    closed spec fn ops(&self) -> Seq<I2cOp> {
        self.log@
    }

    fn read(&mut self, address: u8, len: usize) -> (r: Result<Vec<u8>, Error>) {
        let mut buf = zeroes(len);
        match self.master.read(address, buf.as_mut_slice()) {
            Ok(()) if buf.len() == len => {
                self.log = Ghost(self.log@.push(I2cOp::Read(address, buf@)));
                Ok(buf)
            },
            _ => {
                self.log = Ghost(self.log@.push(I2cOp::Fault));
                Err(Error::I2c)
            },
        }
    }

    fn write(&mut self, address: u8, bytes: &[u8]) -> (r: Result<(), Error>) {
        match self.master.write(address, bytes) {
            Ok(()) => {
                self.log = Ghost(self.log@.push(I2cOp::Write(address, bytes@)));
                Ok(())
            },
            Err(_) => {
                self.log = Ghost(self.log@.push(I2cOp::Fault));
                Err(Error::I2c)
            },
        }
    }

    fn write_read(&mut self, address: u8, bytes: &[u8], len: usize) -> (r: Result<Vec<u8>, Error>) {
        let mut buf = zeroes(len);
        match self.master.write_read(address, bytes, buf.as_mut_slice()) {
            Ok(()) if buf.len() == len => {
                self.log = Ghost(self.log@.push(I2cOp::WriteRead(address, bytes@, buf@)));
                Ok(buf)
            },
            _ => {
                self.log = Ghost(self.log@.push(I2cOp::Fault));
                Err(Error::I2c)
            },
        }
    }
}

/// Errors of the HDC1010 driver.
#[derive(Debug, Clone, Copy, PartialEq, Eq, Structural)]
pub enum Error {
    /// The I2C transfer failed.
    I2c,
    /// No device answers at the address.
    InvalidAddress,
    /// The device's manufacturer or device ID is not the HDC1010's.
    InvalidId,
    /// The register cannot be written.
    ReadOnly,
    /// The device did not leave its reset state in time.
    Timeout,
    /// The result asked for is not the one that was triggered.
    InvalidOperation,
    /// The device reported a reserved field value.
    InvalidValue,
}

/// The unsigned 16-bit value whose big-endian bytes are `hi`, `lo`.
pub open spec fn be16(hi: u8, lo: u8) -> u16 {
    (hi as int * 256 + lo as int) as u16
}

/// The unsigned 16-bit value whose big-endian bytes are `hi`, `lo`.
fn from_be_bytes(hi: u8, lo: u8) -> (r: u16)
    ensures
        r == be16(hi, lo),
{
    (hi as u16) * 256 + (lo as u16)
}

/// The I2C address of an HDC1010: 0x40 plus the two address pins.
#[derive(Debug, Clone, Copy, PartialEq, Eq, Structural)]
pub struct SlaveAddress {
    bits: u8,
}

impl SlaveAddress {
    /// The address as a byte.
    pub closed spec fn spec_bits(&self) -> u8 {
        self.bits
    }

    /// The default address, 0x40 (both pins low).
    pub fn default() -> (a: SlaveAddress)
        ensures
            a.spec_bits() == 0x40,
    {
        SlaveAddress { bits: 0x40 }
    }

    /// The address with pin A0 set as given.
    pub fn with_a0(self, a0: bool) -> (a: SlaveAddress)
        ensures
            a.spec_bits() == if a0 { self.spec_bits() | 1 } else { self.spec_bits() & 0xfe },
    {
        SlaveAddress { bits: if a0 { self.bits | 1 } else { self.bits & 0xfe } }
    }

    /// The address with pin A1 set as given.
    pub fn with_a1(self, a1: bool) -> (a: SlaveAddress)
        ensures
            a.spec_bits() == if a1 { self.spec_bits() | 2 } else { self.spec_bits() & 0xfd },
    {
        SlaveAddress { bits: if a1 { self.bits | 2 } else { self.bits & 0xfd } }
    }

    /// Whether pin A0 is set.
    pub fn a0(&self) -> (b: bool)
        ensures
            b == (self.spec_bits() & 1 == 1),
    {
        self.bits & 1 == 1
    }

    /// Whether pin A1 is set.
    pub fn a1(&self) -> (b: bool)
        ensures
            b == (self.spec_bits() & 2 == 2),
    {
        self.bits & 2 == 2
    }

    /// The address as a byte.
    pub fn into_bits(&self) -> (b: u8)
        ensures
            b == self.spec_bits(),
    {
        self.bits
    }

    /// The address held in a byte.
    pub fn from_bits(bits: u8) -> (a: SlaveAddress)
        ensures
            a.spec_bits() == bits,
    {
        SlaveAddress { bits }
    }
}

/// Which measurement a separate acquisition triggers.
#[derive(Debug, Clone, Copy, PartialEq, Eq, Structural)]
pub enum Trigger {
    /// A temperature measurement.
    Temperature,
    /// A humidity measurement.
    Humidity,
}

/// A temperature result in the sensor's raw format.
#[derive(Debug, Clone, Copy, PartialEq, Eq, Structural)]
pub struct Temperature {
    /// The raw register value; the temperature is `value * 165 / 65536 - 40` °C.
    pub value: u16,
}

/// A humidity result in the sensor's raw format.
#[derive(Debug, Clone, Copy, PartialEq, Eq, Structural)]
pub struct Humidity {
    /// The raw register value; the relative humidity is `value * 100 / 65536` %.
    pub value: u16,
}

/// Whether temperature and humidity are acquired together or apart.
#[derive(Debug, Clone, Copy, PartialEq, Eq, Structural)]
pub enum AcquisitionModeEnum {
    /// Both in sequence, with one trigger.
    Both,
    /// Each with its own trigger.
    Separate,
}

impl AcquisitionModeEnum {
    /// The mode held in a one-bit field.
    pub fn from_bits(bits: u8) -> (m: AcquisitionModeEnum)
        requires
            bits <= 1,
        ensures
            m.spec_into_bits() == bits,
    {
        if bits == 0 {
            AcquisitionModeEnum::Both
        } else {
            AcquisitionModeEnum::Separate
        }
    }

    /// The value of the one-bit field.
    pub open spec fn spec_into_bits(self) -> u8 {
        match self {
            AcquisitionModeEnum::Both => 0,
            AcquisitionModeEnum::Separate => 1,
        }
    }

    /// The value of the one-bit field.
    pub fn into_bits(self) -> (b: u8)
        ensures
            b == self.spec_into_bits(),
    {
        match self {
            AcquisitionModeEnum::Both => 0,
            AcquisitionModeEnum::Separate => 1,
        }
    }
}

/// Humidity resolution and its conversion time.
#[derive(Debug, Clone, Copy, PartialEq, Eq, Structural)]
pub enum HumidityResolution {
    /// 8 bits, 2.5 ms.
    EightBit,
    /// 11 bits, 3.85 ms.
    ElevenBit,
    /// 14 bits, 6.5 ms.
    FourteenBit,
}

impl HumidityResolution {
    /// The resolution held in the two-bit field (3 is reserved).
    pub fn from_bits(bits: u8) -> (r: HumidityResolution)
        requires
            bits <= 2,
        ensures
            r.spec_into_bits() == bits,
    {
        match bits {
            2 => HumidityResolution::EightBit,
            1 => HumidityResolution::ElevenBit,
            _ => HumidityResolution::FourteenBit,
        }
    }

    /// The value of the two-bit field.
    pub open spec fn spec_into_bits(self) -> u8 {
        match self {
            HumidityResolution::EightBit => 2,
            HumidityResolution::ElevenBit => 1,
            HumidityResolution::FourteenBit => 0,
        }
    }

    /// The value of the two-bit field.
    pub fn into_bits(self) -> (b: u8)
        ensures
            b == self.spec_into_bits(),
    {
        match self {
            HumidityResolution::EightBit => 2,
            HumidityResolution::ElevenBit => 1,
            HumidityResolution::FourteenBit => 0,
        }
    }

    /// The conversion time, in microseconds.
    pub open spec fn spec_delay_time(self) -> u32 {
        match self {
            HumidityResolution::EightBit => 2500,
            HumidityResolution::ElevenBit => 3850,
            HumidityResolution::FourteenBit => 6500,
        }
    }

    /// The conversion time, in microseconds.
    pub fn delay_time(self) -> (d: u32)
        ensures
            d == self.spec_delay_time(),
    {
        match self {
            HumidityResolution::EightBit => 2500,
            HumidityResolution::ElevenBit => 3850,
            HumidityResolution::FourteenBit => 6500,
        }
    }
}

impl Default for HumidityResolution {
    fn default() -> (r: HumidityResolution)
        ensures
            r == HumidityResolution::FourteenBit,
    {
        HumidityResolution::FourteenBit
    }
}

/// Temperature resolution and its conversion time.
#[derive(Debug, Clone, Copy, PartialEq, Eq, Structural)]
pub enum TemperatureResolution {
    /// 11 bits, 3.65 ms.
    ElevenBit,
    /// 14 bits, 6.35 ms.
    FourteenBit,
}

impl TemperatureResolution {
    /// The resolution held in the one-bit field.
    pub fn from_bits(bits: u8) -> (r: TemperatureResolution)
        requires
            bits <= 1,
        ensures
            r.spec_into_bits() == bits,
    {
        if bits == 1 {
            TemperatureResolution::ElevenBit
        } else {
            TemperatureResolution::FourteenBit
        }
    }

    /// The value of the one-bit field.
    pub open spec fn spec_into_bits(self) -> u8 {
        match self {
            TemperatureResolution::ElevenBit => 1,
            TemperatureResolution::FourteenBit => 0,
        }
    }

    /// The value of the one-bit field.
    pub fn into_bits(self) -> (b: u8)
        ensures
            b == self.spec_into_bits(),
    {
        match self {
            TemperatureResolution::ElevenBit => 1,
            TemperatureResolution::FourteenBit => 0,
        }
    }

    /// The conversion time, in microseconds.
    pub open spec fn spec_delay_time(self) -> u32 {
        match self {
            TemperatureResolution::ElevenBit => 3650,
            TemperatureResolution::FourteenBit => 6350,
        }
    }

    /// The conversion time, in microseconds.
    pub fn delay_time(self) -> (d: u32)
        ensures
            d == self.spec_delay_time(),
    {
        match self {
            TemperatureResolution::ElevenBit => 3650,
            TemperatureResolution::FourteenBit => 6350,
        }
    }
}

impl Default for TemperatureResolution {
    fn default() -> (r: TemperatureResolution)
        ensures
            r == TemperatureResolution::FourteenBit,
    {
        TemperatureResolution::FourteenBit
    }
}

/// `after` is `before` plus one completed write-then-read to `address` that
/// wrote `w` and received `n` bytes.
pub open spec fn did_write_read(
    before: Seq<I2cOp>,
    after: Seq<I2cOp>,
    address: u8,
    w: Seq<u8>,
    n: nat,
) -> bool {
    &&& after.len() == before.len() + 1
    &&& after.drop_last() == before
    &&& after.last() is WriteRead
    &&& after.last()->WriteRead_0 == address
    &&& after.last()->WriteRead_1 == w
    &&& after.last()->WriteRead_2.len() == n
}

/// The configuration register value that the last transfer of `ops`
/// received.
pub open spec fn reported_config(ops: Seq<I2cOp>) -> u16 {
    be16(reply(ops)[0], reply(ops)[1])
}

/// The bytes received by the last transfer of `ops`.
pub open spec fn reply(ops: Seq<I2cOp>) -> Seq<u8> {
    ops.last()->WriteRead_2
}

/// `bits` with the field of width `mask` at `shift` set to `v`.
fn set_field(bits: u16, shift: u16, mask: u16, v: u16) -> (r: u16)
    requires
        shift <= 15,
        v <= mask,
        mask == 1 || (mask == 3 && shift <= 14),
    ensures
        (r >> shift) & mask == v,
        r & !(mask << shift) == bits & !(mask << shift),
{
    let r = (bits & !(mask << shift)) | (v << shift);
    assert((r >> shift) & mask == v && r & !(mask << shift) == bits & !(mask << shift))
        by (bit_vector)
        requires
            r == (bits & !(mask << shift)) | (v << shift),
            shift <= 15,
            v <= mask,
            mask == 1 || (mask == 3 && shift <= 14),
    ;
    r
}

/// The value of the field of width `mask` at `shift` of `bits`.
pub open spec fn field(bits: u16, shift: u16, mask: u16) -> u8 {
    ((bits >> shift) & mask) as u8
}

/// The configuration register: resolutions (bits 8-10), power status
/// (bit 11, read only), acquisition mode (12), heater (13) and soft reset
/// (15).
#[derive(Debug, Clone, Copy, PartialEq, Eq, Structural)]
pub struct Configuration {
    bits: u16,
}

impl Configuration {
    /// The register value.
    pub closed spec fn spec_bits(&self) -> u16 {
        self.bits
    }

    /// Whether the humidity resolution field holds a defined value.
    pub open spec fn valid(&self) -> bool {
        field(self.spec_bits(), 8, 3) != 3
    }

    /// Whether the humidity resolution field holds a defined value.
    pub fn is_valid(&self) -> (b: bool)
        ensures
            b == self.valid(),
    {
        self.get(8, 3) != 3
    }

    /// The register after power-up: 14-bit resolutions, both in sequence,
    /// heater off.
    pub fn default() -> (c: Configuration)
        ensures
            c.spec_bits() == 0,
    {
        Configuration { bits: 0 }
    }

    /// The register holding `bits`.
    pub fn from_bits(bits: u16) -> (c: Configuration)
        ensures
            c.spec_bits() == bits,
    {
        Configuration { bits }
    }

    /// The register value.
    pub fn into_bits(&self) -> (b: u16)
        ensures
            b == self.spec_bits(),
    {
        self.bits
    }

    fn get(&self, shift: u16, mask: u16) -> (v: u8)
        requires
            shift <= 15,
            mask == 1 || mask == 3,
        ensures
            v == field(self.spec_bits(), shift, mask),
            v <= mask,
    {
        let b = self.bits;
        assert((b >> shift) & mask <= mask) by (bit_vector);
        ((b >> shift) & mask) as u8
    }

    fn set(&mut self, shift: u16, mask: u16, v: u8)
        requires
            shift <= 15,
            mask == 1 || (mask == 3 && shift <= 14),
            v <= mask,
        ensures
            field(final(self).spec_bits(), shift, mask) == v,
            final(self).spec_bits() & !(mask << shift) == old(self).spec_bits() & !(mask << shift),
    {
        self.bits = set_field(self.bits, shift, mask, v as u16);
    }

    /// The humidity resolution.
    pub fn humidity_resolution(&self) -> (r: HumidityResolution)
        requires
            self.valid(),
        ensures
            r.spec_into_bits() == field(self.spec_bits(), 8, 3),
    {
        HumidityResolution::from_bits(self.get(8, 3))
    }

    /// Sets the humidity resolution.
    pub fn set_humidity_resolution(&mut self, r: HumidityResolution)
        ensures
            field(final(self).spec_bits(), 8, 3) == r.spec_into_bits(),
            final(self).spec_bits() & !(3u16 << 8u16) == old(self).spec_bits() & !(3u16 << 8u16),
            final(self).valid(),
    {
        self.set(8, 3, r.into_bits());
    }

    /// The temperature resolution.
    pub fn temperature_resolution(&self) -> (r: TemperatureResolution)
        ensures
            r.spec_into_bits() == field(self.spec_bits(), 10, 1),
    {
        TemperatureResolution::from_bits(self.get(10, 1))
    }

    /// Sets the temperature resolution.
    pub fn set_temperature_resolution(&mut self, r: TemperatureResolution)
        ensures
            field(final(self).spec_bits(), 10, 1) == r.spec_into_bits(),
            final(self).spec_bits() & !(1u16 << 10u16) == old(self).spec_bits() & !(1u16 << 10u16),
    {
        self.set(10, 1, r.into_bits());
    }

    /// Whether the supply voltage is sufficient (read only).
    pub fn power_ok(&self) -> (b: bool)
        ensures
            b == (field(self.spec_bits(), 11, 1) == 1),
    {
        self.get(11, 1) == 1
    }

    /// The acquisition mode.
    pub fn mode(&self) -> (m: AcquisitionModeEnum)
        ensures
            m.spec_into_bits() == field(self.spec_bits(), 12, 1),
    {
        AcquisitionModeEnum::from_bits(self.get(12, 1))
    }

    /// Sets the acquisition mode.
    pub fn set_mode(&mut self, m: AcquisitionModeEnum)
        ensures
            field(final(self).spec_bits(), 12, 1) == m.spec_into_bits(),
            final(self).spec_bits() & !(1u16 << 12u16) == old(self).spec_bits() & !(1u16 << 12u16),
    {
        self.set(12, 1, m.into_bits());
    }

    /// Whether the heater is on.
    pub fn heater_enable(&self) -> (b: bool)
        ensures
            b == (field(self.spec_bits(), 13, 1) == 1),
    {
        self.get(13, 1) == 1
    }

    /// Turns the heater on or off.
    pub fn set_heater_enable(&mut self, on: bool)
        ensures
            (field(final(self).spec_bits(), 13, 1) == 1) == on,
            final(self).spec_bits() & !(1u16 << 13u16) == old(self).spec_bits() & !(1u16 << 13u16),
    {
        self.set(13, 1, if on { 1 } else { 0 });
    }

    /// Whether a soft reset is requested or still running.
    pub fn reset(&self) -> (b: bool)
        ensures
            b == (field(self.spec_bits(), 15, 1) == 1),
    {
        self.get(15, 1) == 1
    }

    /// Requests a soft reset, or clears the request.
    pub fn set_reset(&mut self, on: bool)
        ensures
            (field(final(self).spec_bits(), 15, 1) == 1) == on,
            final(self).spec_bits() & !(1u16 << 15u16) == old(self).spec_bits() & !(1u16 << 15u16),
    {
        self.set(15, 1, if on { 1 } else { 0 });
    }

    /// Reads the register from the device at `address`.
    pub fn read<I: I2cBus>(&mut self, address: u8, i2c: &mut I) -> (r: Result<(), Error>)
        ensures
            r is Err ==> r == Err::<(), Error>(Error::I2c),
            match r {
                Ok(()) => did_write_read(old(i2c).ops(), final(i2c).ops(), address, seq![CONFIGURATION_REG], 2)
                    && final(self).spec_bits() == be16(reply(final(i2c).ops())[0], reply(final(i2c).ops())[1]),
                Err(_) => final(i2c).ops() == old(i2c).ops().push(I2cOp::Fault) && *final(self)
                    == *old(self),
            },
    {
        let mut cmd: Vec<u8> = Vec::new();
        cmd.push(CONFIGURATION_REG);
        proof {
            assert(cmd@ =~= seq![CONFIGURATION_REG]);
        }
        let data = i2c.write_read(address, cmd.as_slice(), 2)?;
        proof {
            assert(i2c.ops().drop_last() =~= old(i2c).ops());
        }
        self.bits = from_be_bytes(data[0], data[1]);
        Ok(())
    }

    /// Writes the register to the device at `address`.
    pub fn write<I: I2cBus>(&self, address: u8, i2c: &mut I) -> (r: Result<(), Error>)
        ensures
            r is Err ==> r == Err::<(), Error>(Error::I2c),
            final(i2c).ops() == old(i2c).ops().push(
                if r is Ok {
                    I2cOp::Write(
                        address,
                        seq![CONFIGURATION_REG, (self.spec_bits() / 256) as u8, (self.spec_bits() % 256) as u8],
                    )
                } else {
                    I2cOp::Fault
                },
            ),
    {
        let mut cmd: Vec<u8> = Vec::new();
        cmd.push(CONFIGURATION_REG);
        cmd.push((self.bits / 256) as u8);
        cmd.push((self.bits % 256) as u8);
        proof {
            assert(cmd@ =~= seq![CONFIGURATION_REG, (self.bits / 256) as u8, (self.bits % 256) as u8]);
        }
        i2c.write(address, cmd.as_slice())
    }
}

/// The 40-bit serial number held in six register bytes (the last byte
/// contributes its top bit only).
pub open spec fn serial_from(b: Seq<u8>) -> u64 {
    ((b[0] as u64) << 33u64) | ((b[1] as u64) << 25u64) | ((b[2] as u64) << 17u64) | ((
    b[3] as u64) << 9u64) | ((b[4] as u64) << 1u64) | ((b[5] as u64) >> 7u64)
}

/// The device's serial number.
#[derive(Debug, Clone, Copy, PartialEq, Eq, Structural)]
pub struct SerialId(pub u64);

impl SerialId {
    /// The serial number.
    pub fn value(&self) -> (v: u64)
        ensures
            v == self.0,
    {
        self.0
    }

    /// Reads the serial number from the device at `address`.
    pub fn read<I: I2cBus>(&mut self, address: u8, i2c: &mut I) -> (r: Result<(), Error>)
        ensures
            match r {
                Ok(()) => did_write_read(old(i2c).ops(), final(i2c).ops(), address, seq![SERIAL_ID_REG], 6)
                    && final(self).0 == serial_from(reply(final(i2c).ops())),
                Err(_) => final(i2c).ops() == old(i2c).ops().push(I2cOp::Fault) && *final(self)
                    == *old(self),
            },
    {
        let mut cmd: Vec<u8> = Vec::new();
        cmd.push(SERIAL_ID_REG);
        proof {
            assert(cmd@ =~= seq![SERIAL_ID_REG]);
        }
        let b = i2c.write_read(address, cmd.as_slice(), 6)?;
        proof {
            assert(i2c.ops().drop_last() =~= old(i2c).ops());
        }
        self.0 = ((b[0] as u64) << 33u64) | ((b[1] as u64) << 25u64) | ((b[2] as u64) << 17u64)
            | ((b[3] as u64) << 9u64) | ((b[4] as u64) << 1u64) | ((b[5] as u64) >> 7u64);
        Ok(())
    }
}

/// `after` is `before` plus a read of the identification register
/// `register` that returned `expected`.
pub open spec fn id_read(before: Seq<I2cOp>, after: Seq<I2cOp>, address: u8, register: u8, expected: u16) -> bool {
    &&& did_write_read(before, after, address, seq![register], 2)
    &&& be16(reply(after)[0], reply(after)[1]) == expected
}

/// Reads a 16-bit identification register and checks it against `expected`.
fn read_id<I: I2cBus>(address: u8, register: u8, expected: u16, i2c: &mut I) -> (r: Result<u16, Error>)
    ensures
        match r {
            Ok(v) => v == expected && id_read(old(i2c).ops(), final(i2c).ops(), address, register, expected),
            Err(e) => (e == Error::I2c && final(i2c).ops() == old(i2c).ops().push(I2cOp::Fault))
                || (e == Error::InvalidId && did_write_read(old(i2c).ops(), final(i2c).ops(), address, seq![register], 2)
                && !id_read(old(i2c).ops(), final(i2c).ops(), address, register, expected)),
        },
{
    let mut cmd: Vec<u8> = Vec::new();
    cmd.push(register);
    proof {
        assert(cmd@ =~= seq![register]);
    }
    let d = i2c.write_read(address, cmd.as_slice(), 2)?;
    proof {
        assert(i2c.ops().drop_last() =~= old(i2c).ops());
    }
    let v = from_be_bytes(d[0], d[1]);
    if v != expected {
        return Err(Error::InvalidId);
    }
    Ok(v)
}

/// The manufacturer ID register.
#[derive(Debug, Clone, Copy, PartialEq, Eq, Structural)]
pub struct ManufacturerId(pub u16);

impl ManufacturerId {
    /// Reads the manufacturer ID; anything but Texas Instruments' is refused.
    pub fn read<I: I2cBus>(&mut self, address: u8, i2c: &mut I) -> (r: Result<(), Error>)
        ensures
            r is Ok ==> final(self).0 == MANUFACTURER_ID,
            r is Err ==> *final(self) == *old(self),
            r is Ok <==> id_read(old(i2c).ops(), final(i2c).ops(), address, MANUFACTURER_ID_REG, MANUFACTURER_ID),
            r == Err::<(), Error>(Error::InvalidId) ==> did_write_read(old(i2c).ops(), final(i2c).ops(), address, seq![MANUFACTURER_ID_REG], 2),
            r is Err && r != Err::<(), Error>(Error::InvalidId) ==> final(i2c).ops() == old(i2c).ops().push(I2cOp::Fault),
    {
        let v = read_id(address, MANUFACTURER_ID_REG, MANUFACTURER_ID, i2c)?;
        self.0 = v;
        Ok(())
    }
}

/// The device ID register.
#[derive(Debug, Clone, Copy, PartialEq, Eq, Structural)]
pub struct DeviceId(pub u16);

impl DeviceId {
    /// Reads the device ID; anything but the HDC1010's is refused.
    pub fn read<I: I2cBus>(&mut self, address: u8, i2c: &mut I) -> (r: Result<(), Error>)
        ensures
            r is Ok ==> final(self).0 == DEVICE_ID,
            r is Err ==> *final(self) == *old(self),
            r is Ok <==> id_read(old(i2c).ops(), final(i2c).ops(), address, DEVICE_ID_REG, DEVICE_ID),
            r == Err::<(), Error>(Error::InvalidId) ==> did_write_read(old(i2c).ops(), final(i2c).ops(), address, seq![DEVICE_ID_REG], 2),
            r is Err && r != Err::<(), Error>(Error::InvalidId) ==> final(i2c).ops() == old(i2c).ops().push(I2cOp::Fault),
    {
        let v = read_id(address, DEVICE_ID_REG, DEVICE_ID, i2c)?;
        self.0 = v;
        Ok(())
    }
}

/// An acquisition mode, fixed in the driver's type.
pub trait AcquisitionMode {
    /// The configuration value for the mode.
    fn mode() -> AcquisitionModeEnum;
}

/// Temperature and humidity are triggered and read separately; remembers
/// which one was triggered last.
#[derive(Debug, Clone, Copy, PartialEq, Eq, Structural)]
pub struct Separate(pub Trigger);

impl AcquisitionMode for Separate {
    fn mode() -> AcquisitionModeEnum {
        AcquisitionModeEnum::Separate
    }
}

/// Temperature and humidity are acquired with a single trigger.
#[derive(Debug, Clone, Copy, PartialEq, Eq, Structural)]
pub struct Both;

impl AcquisitionMode for Both {
    fn mode() -> AcquisitionModeEnum {
        AcquisitionModeEnum::Both
    }
}

/// A configured HDC1010.
#[derive(Debug)]
pub struct Hdc1010<M> {
    address: u8,
    hres: HumidityResolution,
    tres: TemperatureResolution,
    trig: M,
}

/// How to set up an HDC1010: its address and resolutions.
#[derive(Debug, Clone, Copy)]
pub struct Hdc1010Builder {
    address: SlaveAddress,
    hres: HumidityResolution,
    tres: TemperatureResolution,
}

impl Default for Hdc1010Builder {
    fn default() -> (b: Hdc1010Builder)
        ensures
            b.spec_address().spec_bits() == 0x40,
            b.spec_hres() == HumidityResolution::FourteenBit,
            b.spec_tres() == TemperatureResolution::FourteenBit,
    {
        Hdc1010Builder {
            address: SlaveAddress::default(),
            hres: HumidityResolution::FourteenBit,
            tres: TemperatureResolution::FourteenBit,
        }
    }
}

/// `after` is `before` plus a refused identification: the manufacturer ID
/// read returned another value, or it matched and the device ID read
/// returned another value; nothing was written.
pub open spec fn refused_id(before: Seq<I2cOp>, after: Seq<I2cOp>, address: u8) -> bool {
    ||| {
        &&& did_write_read(before, after, address, seq![MANUFACTURER_ID_REG], 2)
        &&& !id_read(before, after, address, MANUFACTURER_ID_REG, MANUFACTURER_ID)
    }
    ||| {
        &&& after.len() == before.len() + 2
        &&& id_read(before, after.drop_last(), address, MANUFACTURER_ID_REG, MANUFACTURER_ID)
        &&& did_write_read(after.drop_last(), after, address, seq![DEVICE_ID_REG], 2)
        &&& !id_read(after.drop_last(), after, address, DEVICE_ID_REG, DEVICE_ID)
    }
}

/// `after` is `before` plus a successful set-up: the manufacturer and
/// device IDs read back as the HDC1010's, the configuration register was
/// read, and a configuration was written.
pub open spec fn identified_and_configured(before: Seq<I2cOp>, after: Seq<I2cOp>, address: u8) -> bool {
    &&& after.len() == before.len() + 4
    &&& id_read(before, after.take(before.len() + 1int), address, MANUFACTURER_ID_REG, MANUFACTURER_ID)
    &&& id_read(after.take(before.len() + 1int), after.take(before.len() + 2int), address, DEVICE_ID_REG, DEVICE_ID)
    &&& did_write_read(after.take(before.len() + 2int), after.take(before.len() + 3int), address, seq![CONFIGURATION_REG], 2)
    &&& after.last() is Write
    &&& after.last()->Write_0 == address
    &&& after.last()->Write_1[0] == CONFIGURATION_REG
}

/// Checks the device's identity and writes its configuration: the
/// acquisition mode `mode` and the two resolutions. A device with foreign
/// IDs is refused with `InvalidId` before anything is written.
fn configure<I: I2cBus>(
    address: u8,
    mode: AcquisitionModeEnum,
    hres: HumidityResolution,
    tres: TemperatureResolution,
    i2c: &mut I,
) -> (r: Result<(), Error>)
    ensures
        r is Ok ==> identified_and_configured(old(i2c).ops(), final(i2c).ops(), address),
        r == Err::<(), Error>(Error::InvalidId) ==> refused_id(old(i2c).ops(), final(i2c).ops(), address),
{
    let ghost o0 = i2c.ops();
    let mut mfg = ManufacturerId(0);
    mfg.read(address, i2c)?;
    let ghost o1 = i2c.ops();
    let mut dev = DeviceId(0);
    let rd = dev.read(address, i2c);
    if rd.is_err() {
        proof {
            assert(i2c.ops().drop_last() == o1);
        }
        return rd;
    }
    let ghost o2 = i2c.ops();
    let rc = cfg_read_step(address, i2c);
    let mut cfg = match rc {
        Ok(c) => c,
        Err(e) => {
            return Err(e);
        },
    };
    let ghost o3 = i2c.ops();
    cfg.set_mode(mode);
    cfg.set_humidity_resolution(hres);
    cfg.set_temperature_resolution(tres);
    let r = cfg.write(address, i2c);
    proof {
        if r is Ok {
            let f = i2c.ops();
            assert(f.take(o0.len() + 1int) =~= o1);
            assert(f.take(o0.len() + 2int) =~= o2);
            assert(f.take(o0.len() + 3int) =~= o3);
        }
    }
    r
}

/// Reads the configuration register; fails only with an I2C error.
fn cfg_read_step<I: I2cBus>(address: u8, i2c: &mut I) -> (r: Result<Configuration, Error>)
    ensures
        r is Ok ==> did_write_read(old(i2c).ops(), final(i2c).ops(), address, seq![CONFIGURATION_REG], 2),
        r is Err ==> r == Err::<Configuration, Error>(Error::I2c),
{
    let mut cfg = Configuration::default();
    let r = cfg.read(address, i2c);
    match r {
        Ok(()) => Ok(cfg),
        Err(_) => Err(Error::I2c),
    }
}

impl Hdc1010Builder {
    /// The address to use.
    pub closed spec fn spec_address(&self) -> SlaveAddress {
        self.address
    }

    /// The humidity resolution to configure.
    pub closed spec fn spec_hres(&self) -> HumidityResolution {
        self.hres
    }

    /// The temperature resolution to configure.
    pub closed spec fn spec_tres(&self) -> TemperatureResolution {
        self.tres
    }

    /// Sets the address.
    pub fn with_address(self, address: SlaveAddress) -> (b: Hdc1010Builder)
        ensures
            b.spec_address() == address,
            b.spec_hres() == self.spec_hres(),
            b.spec_tres() == self.spec_tres(),
    {
        Hdc1010Builder { address, ..self }
    }

    /// Sets the humidity resolution.
    pub fn with_humidity_resolution(self, resolution: HumidityResolution) -> (b: Hdc1010Builder)
        ensures
            b.spec_address() == self.spec_address(),
            b.spec_hres() == resolution,
            b.spec_tres() == self.spec_tres(),
    {
        Hdc1010Builder { hres: resolution, ..self }
    }

    /// Sets the temperature resolution.
    pub fn with_temperature_resolution(self, resolution: TemperatureResolution) -> (b:
        Hdc1010Builder)
        ensures
            b.spec_address() == self.spec_address(),
            b.spec_hres() == self.spec_hres(),
            b.spec_tres() == resolution,
    {
        Hdc1010Builder { tres: resolution, ..self }
    }

    /// Checks the device and configures it to acquire both values with one
    /// trigger.
    pub fn build_mode_both<I: I2cBus>(self, i2c: &mut I) -> (r: Result<Hdc1010<Both>, Error>)
        ensures
            r is Ok ==> identified_and_configured(old(i2c).ops(), final(i2c).ops(), self.spec_address().spec_bits()),
            (r is Err && r->Err_0 == Error::InvalidId) ==> refused_id(old(i2c).ops(), final(i2c).ops(), self.spec_address().spec_bits()),
            r is Ok ==> {
                &&& r->Ok_0.spec_address() == self.spec_address().spec_bits()
                &&& r->Ok_0.spec_hres() == self.spec_hres()
                &&& r->Ok_0.spec_tres() == self.spec_tres()
            },
    {
        let address = self.address.into_bits();
        configure(address, AcquisitionModeEnum::Both, self.hres, self.tres, i2c)?;
        Ok(Hdc1010 { address, hres: self.hres, tres: self.tres, trig: Both })
    }

    /// Checks the device and configures it to acquire each value with its
    /// own trigger.
    pub fn build_mode_separate<I: I2cBus>(self, i2c: &mut I) -> (r: Result<Hdc1010<Separate>, Error>)
        ensures
            r is Ok ==> identified_and_configured(old(i2c).ops(), final(i2c).ops(), self.spec_address().spec_bits()),
            (r is Err && r->Err_0 == Error::InvalidId) ==> refused_id(old(i2c).ops(), final(i2c).ops(), self.spec_address().spec_bits()),
            r is Ok ==> {
                &&& r->Ok_0.spec_address() == self.spec_address().spec_bits()
                &&& r->Ok_0.spec_hres() == self.spec_hres()
                &&& r->Ok_0.spec_tres() == self.spec_tres()
                &&& r->Ok_0.spec_trig() == Trigger::Temperature
            },
    {
        let address = self.address.into_bits();
        configure(address, AcquisitionModeEnum::Separate, self.hres, self.tres, i2c)?;
        Ok(Hdc1010 { address, hres: self.hres, tres: self.tres, trig: Separate(Trigger::Temperature) })
    }
}

impl<M: AcquisitionMode> Hdc1010<M> {
    /// The device's I2C address.
    pub closed spec fn spec_address(&self) -> u8 {
        self.address
    }

    /// The humidity resolution in use.
    pub closed spec fn spec_hres(&self) -> HumidityResolution {
        self.hres
    }

    /// The temperature resolution in use.
    pub closed spec fn spec_tres(&self) -> TemperatureResolution {
        self.tres
    }

    /// The humidity and temperature resolutions in use.
    pub fn get_resolution(&mut self) -> (r: (HumidityResolution, TemperatureResolution))
        ensures
            r == (old(self).spec_hres(), old(self).spec_tres()),
            *final(self) == *old(self),
    {
        (self.hres, self.tres)
    }

    /// The device's I2C address.
    pub fn get_address(&self) -> (a: u8)
        ensures
            a == self.spec_address(),
    {
        self.address
    }

    /// Writes new resolutions and keeps what the device reports back.
    pub fn set_resolution<I: I2cBus>(
        &mut self,
        i2c: &mut I,
        humidity_resolution: HumidityResolution,
        temperature_resolution: TemperatureResolution,
    ) -> (r: Result<(), Error>)
        ensures
            final(self).spec_address() == old(self).spec_address(),
            r is Ok ==> {
                &&& final(i2c).ops().last() is WriteRead
                &&& final(self).spec_hres().spec_into_bits() == field(reported_config(final(i2c).ops()), 8, 3)
                &&& final(self).spec_tres().spec_into_bits() == field(reported_config(final(i2c).ops()), 10, 1)
            },
    {
        let mut conf = Configuration::default();
        conf.set_humidity_resolution(humidity_resolution);
        conf.set_temperature_resolution(temperature_resolution);
        conf.write(self.address, i2c)?;
        conf.read(self.address, i2c)?;
        if !conf.is_valid() {
            return Err(Error::InvalidValue);
        }
        self.hres = conf.humidity_resolution();
        self.tres = conf.temperature_resolution();
        Ok(())
    }

    /// Turns the heater on or off, keeping the rest of the configuration.
    pub fn set_heater<I: I2cBus>(&mut self, i2c: &mut I, enable: bool) -> (r: Result<(), Error>)
        ensures
            *final(self) == *old(self),
    {
        let mut conf = Configuration::default();
        conf.read(self.address, i2c)?;
        conf.set_heater_enable(enable);
        conf.write(self.address, i2c)?;
        Ok(())
    }

    /// Whether the heater is on.
    pub fn get_heater<I: I2cBus>(&mut self, i2c: &mut I) -> (r: Result<bool, Error>)
        ensures
            *final(self) == *old(self),
            r is Ok ==> did_write_read(old(i2c).ops(), final(i2c).ops(), old(self).spec_address(), seq![CONFIGURATION_REG], 2)
                && r->Ok_0 == (field(be16(reply(final(i2c).ops())[0], reply(final(i2c).ops())[1]), 13, 1) == 1),
    {
        let mut conf = Configuration::default();
        conf.read(self.address, i2c)?;
        Ok(conf.heater_enable())
    }

    /// Whether the supply voltage is sufficient.
    pub fn get_power_status<I: I2cBus>(&mut self, i2c: &mut I) -> (r: Result<bool, Error>)
        ensures
            *final(self) == *old(self),
            r is Ok ==> did_write_read(old(i2c).ops(), final(i2c).ops(), old(self).spec_address(), seq![CONFIGURATION_REG], 2)
                && r->Ok_0 == (field(be16(reply(final(i2c).ops())[0], reply(final(i2c).ops())[1]), 11, 1) == 1),
    {
        let mut conf = Configuration::default();
        conf.read(self.address, i2c)?;
        Ok(conf.power_ok())
    }

    /// The device's serial number.
    pub fn get_serial<I: I2cBus>(&mut self, i2c: &mut I) -> (r: Result<u64, Error>)
        ensures
            *final(self) == *old(self),
            r is Ok ==> did_write_read(old(i2c).ops(), final(i2c).ops(), old(self).spec_address(), seq![SERIAL_ID_REG], 6)
                && r->Ok_0 == serial_from(reply(final(i2c).ops())),
    {
        let mut serial = SerialId(0);
        serial.read(self.address, i2c)?;
        Ok(serial.value())
    }

    /// Soft-resets the device: requests the reset, polls (ten times, 500 ms
    /// apart) until it is done, then writes back the mode and resolutions and
    /// keeps what the device reports. Fails with `Timeout` when the reset
    /// does not finish.
    pub fn reset<I: I2cBus, D: DelayUs>(&mut self, i2c: &mut I, delay: &mut D) -> (r: Result<
        (),
        Error,
    >)
        ensures
            final(self).spec_address() == old(self).spec_address(),
            r is Ok ==> {
                &&& final(i2c).ops().last() is WriteRead
                &&& final(self).spec_hres().spec_into_bits() == field(reported_config(final(i2c).ops()), 8, 3)
                &&& final(self).spec_tres().spec_into_bits() == field(reported_config(final(i2c).ops()), 10, 1)
            },
            r == Err::<(), Error>(Error::Timeout) ==> {
                &&& final(delay).waits().len() == old(delay).waits().len() + 10
                &&& forall|i: int|
                    old(delay).waits().len() <= i < final(delay).waits().len() ==> #[trigger] final(delay).waits()[i] == 500_000
                &&& final(i2c).ops().last() is WriteRead
                &&& final(i2c).ops().last()->WriteRead_1 == seq![CONFIGURATION_REG]
                &&& field(reported_config(final(i2c).ops()), 15, 1) == 1
                &&& *final(self) == *old(self)
            },
    {
        let mut conf = Configuration::default();
        conf.set_reset(true);
        conf.write(self.address, i2c)?;
        let mut tries: u32 = 0;
        let mut pending = true;
        while pending && tries < 10
            invariant
                tries <= 10,
                self.address == old(self).address,
                self.hres == old(self).hres,
                self.tres == old(self).tres,
                pending == (field(conf.spec_bits(), 15, 1) == 1),
                delay.waits().len() == old(delay).waits().len() + tries,
                forall|i: int|
                    old(delay).waits().len() <= i < delay.waits().len() ==> #[trigger] delay.waits()[i]
                        == 500_000,
                delay.waits().take(old(delay).waits().len() as int) == old(delay).waits(),
                tries > 0 ==> {
                    &&& i2c.ops().last() is WriteRead
                    &&& i2c.ops().last()->WriteRead_1 == seq![CONFIGURATION_REG]
                    &&& i2c.ops().last()->WriteRead_2.len() == 2
                    &&& conf.spec_bits() == reported_config(i2c.ops())
                },
            decreases 10 - tries,
        {
            let ghost w0 = delay.waits();
            delay.delay_us(500_000);
            proof {
                assert(delay.waits().take(old(delay).waits().len() as int) =~= w0.take(
                    old(delay).waits().len() as int,
                ));
            }
            conf.read(self.address, i2c)?;
            tries = tries + 1;
            pending = conf.reset();
        }
        if pending {
            return Err(Error::Timeout);
        }
        conf.set_reset(false);
        conf.set_mode(M::mode());
        conf.set_humidity_resolution(self.hres);
        conf.set_temperature_resolution(self.tres);
        conf.write(self.address, i2c)?;
        conf.read(self.address, i2c)?;
        if !conf.is_valid() {
            return Err(Error::InvalidValue);
        }
        self.hres = conf.humidity_resolution();
        self.tres = conf.temperature_resolution();
        Ok(())
    }

    /// A builder with this device's address and resolutions, to set it up in
    /// another acquisition mode.
    pub fn to_builder(self) -> (b: Hdc1010Builder)
        ensures
            b.spec_address().spec_bits() == self.spec_address(),
            b.spec_hres() == self.spec_hres(),
            b.spec_tres() == self.spec_tres(),
    {
        Hdc1010Builder { address: SlaveAddress::from_bits(self.address), hres: self.hres, tres: self.tres }
    }
}

impl Hdc1010<Both> {
    /// Triggers a combined measurement; returns how long to wait for it, in
    /// microseconds.
    pub fn trigger<I: I2cBus>(&mut self, i2c: &mut I) -> (r: Result<u32, Error>)
        ensures
            *final(self) == *old(self),
            final(i2c).ops() == old(i2c).ops().push(
                if r is Ok { I2cOp::Write(old(self).spec_address(), seq![TEMPERATURE_REG]) } else { I2cOp::Fault },
            ),
            r is Ok ==> r->Ok_0 == old(self).spec_hres().spec_delay_time() + old(self).spec_tres().spec_delay_time(),
    {
        let delay = self.hres.delay_time() + self.tres.delay_time();
        let mut cmd: Vec<u8> = Vec::new();
        cmd.push(TEMPERATURE_REG);
        proof {
            assert(cmd@ =~= seq![TEMPERATURE_REG]);
        }
        i2c.write(self.address, cmd.as_slice())?;
        Ok(delay)
    }

    /// Reads the temperature and humidity of a combined measurement.
    pub fn read_temperature_humidity<I: I2cBus>(&mut self, i2c: &mut I) -> (r: Result<
        (Temperature, Humidity),
        Error,
    >)
        ensures
            *final(self) == *old(self),
            match r {
                Ok((t, h)) => {
                    &&& final(i2c).ops().len() == old(i2c).ops().len() + 1
                    &&& final(i2c).ops().drop_last() == old(i2c).ops()
                    &&& final(i2c).ops().last() is Read
                    &&& final(i2c).ops().last()->Read_0 == old(self).spec_address()
                    &&& final(i2c).ops().last()->Read_1.len() == 4
                    &&& t.value == be16(final(i2c).ops().last()->Read_1[0], final(i2c).ops().last()->Read_1[1])
                    &&& h.value == be16(final(i2c).ops().last()->Read_1[2], final(i2c).ops().last()->Read_1[3])
                },
                Err(_) => final(i2c).ops() == old(i2c).ops().push(I2cOp::Fault),
            },
    {
        let buf = i2c.read(self.address, 4)?;
        proof {
            assert(i2c.ops().drop_last() =~= old(i2c).ops());
        }
        let temp = Temperature { value: from_be_bytes(buf[0], buf[1]) };
        let hum = Humidity { value: from_be_bytes(buf[2], buf[3]) };
        Ok((temp, hum))
    }
}

impl Hdc1010<Separate> {
    /// Which measurement was triggered last.
    pub closed spec fn spec_trig(&self) -> Trigger {
        self.trig.0
    }

    /// Triggers a temperature or humidity measurement; returns how long to
    /// wait for it, in microseconds.
    pub fn trigger<I: I2cBus>(&mut self, i2c: &mut I, kind: Trigger) -> (r: Result<u32, Error>)
        ensures
            final(self).spec_address() == old(self).spec_address(),
            final(self).spec_hres() == old(self).spec_hres(),
            final(self).spec_tres() == old(self).spec_tres(),
            final(self).spec_trig() == if r is Ok { kind } else { old(self).spec_trig() },
            final(i2c).ops() == old(i2c).ops().push(
                if r is Ok {
                    I2cOp::Write(
                        old(self).spec_address(),
                        seq![if kind == Trigger::Temperature { TEMPERATURE_REG } else { HUMIDITY_REG }],
                    )
                } else {
                    I2cOp::Fault
                },
            ),
            r is Ok ==> r->Ok_0 == if kind == Trigger::Temperature {
                old(self).spec_tres().spec_delay_time()
            } else {
                old(self).spec_hres().spec_delay_time()
            },
    {
        let (register, delay) = match kind {
            Trigger::Temperature => (TEMPERATURE_REG, self.tres.delay_time()),
            Trigger::Humidity => (HUMIDITY_REG, self.hres.delay_time()),
        };
        let mut cmd: Vec<u8> = Vec::new();
        cmd.push(register);
        proof {
            assert(cmd@ =~= seq![register]);
        }
        i2c.write(self.address, cmd.as_slice())?;
        self.trig = Separate(kind);
        Ok(delay)
    }

    /// Reads a temperature result; refused with `InvalidOperation` unless a
    /// temperature measurement was triggered last.
    pub fn read_temperature<I: I2cBus>(&mut self, i2c: &mut I) -> (r: Result<Temperature, Error>)
        ensures
            *final(self) == *old(self),
            old(self).spec_trig() != Trigger::Temperature ==> r == Err::<Temperature, Error>(Error::InvalidOperation)
                && final(i2c).ops() == old(i2c).ops(),
            r is Ok ==> old(self).spec_trig() == Trigger::Temperature && final(i2c).ops().drop_last() == old(i2c).ops()
                && final(i2c).ops().last() is Read && final(i2c).ops().last()->Read_0 == old(self).spec_address()
                && final(i2c).ops().last()->Read_1.len() == 2
                && r->Ok_0.value == be16(final(i2c).ops().last()->Read_1[0], final(i2c).ops().last()->Read_1[1]),
    {
        if self.trig.0 != Trigger::Temperature {
            return Err(Error::InvalidOperation);
        }
        let buf = i2c.read(self.address, 2)?;
        proof {
            assert(i2c.ops().drop_last() =~= old(i2c).ops());
        }
        Ok(Temperature { value: from_be_bytes(buf[0], buf[1]) })
    }

    /// Reads a humidity result; refused with `InvalidOperation` unless a
    /// humidity measurement was triggered last.
    pub fn read_humidity<I: I2cBus>(&mut self, i2c: &mut I) -> (r: Result<Humidity, Error>)
        ensures
            *final(self) == *old(self),
            old(self).spec_trig() != Trigger::Humidity ==> r == Err::<Humidity, Error>(Error::InvalidOperation)
                && final(i2c).ops() == old(i2c).ops(),
            r is Ok ==> old(self).spec_trig() == Trigger::Humidity && final(i2c).ops().drop_last() == old(i2c).ops()
                && final(i2c).ops().last() is Read && final(i2c).ops().last()->Read_0 == old(self).spec_address()
                && final(i2c).ops().last()->Read_1.len() == 2
                && r->Ok_0.value == be16(final(i2c).ops().last()->Read_1[0], final(i2c).ops().last()->Read_1[1]),
    {
        if self.trig.0 != Trigger::Humidity {
            return Err(Error::InvalidOperation);
        }
        let buf = i2c.read(self.address, 2)?;
        proof {
            assert(i2c.ops().drop_last() =~= old(i2c).ops());
        }
        Ok(Humidity { value: from_be_bytes(buf[0], buf[1]) })
    }
}

} // verus!
