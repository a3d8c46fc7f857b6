//! A group of DS28EA00 temperature sensors sharing one 1-Wire bus:
//! discovery, configuration, conversion and validated reads.

use vstd::prelude::*;

use crate::checksum::{crc8_check, crc8_trailer_ok};
use crate::onewire::{
    reports, byte_rows, le_bytes, lemma_outcome_then, outcome, reads,
    run_transaction, run_transactions, search_events, transaction, transactions, u64_le_bytes,
    BusEvent, DelayUs, OneWireBus, OneWireError, MATCH_ROM_CMD, MATCH_ROM_CMD_OD, SKIP_ROM_CMD,
    SKIP_ROM_CMD_OD,
};

verus! {

/// The DS28EA00 family code.
pub const FAMILY_CODE: u8 = 0x42;

/// Read Scratchpad.
pub const READ_SCRATCH: u8 = 0xbe;

/// Write Scratchpad (alarm thresholds and configuration byte follow).
pub const WRITE_SCRATCH: u8 = 0x4e;

/// Convert T: starts a temperature conversion.
pub const START_CONV: u8 = 0x44;

/// PIO Access Write: the new PIO state follows, then its complement.
pub const TOGGLE_PIO: u8 = 0xa5;

/// PIO state byte that drives the indicator pin.
pub const TOGGLE_PIO_ON: u8 = 0xfd;

/// PIO state byte that releases the indicator pin (complement of the other).
pub const TOGGLE_PIO_OFF: u8 = 0x02;

/// The value stored for a device whose read failed: -85 °C in 1/16 °C.
pub const ERROR_BITS: i16 = -1360;

/// A temperature in the sensor's fixed-point format: 12 integer bits and 4
/// fraction bits, i.e. a signed count of 1/16 °C.
#[derive(Debug, Clone, Copy, PartialEq, Eq, Structural)]
pub struct Temperature {
    /// The raw value, in 1/16 °C.
    pub bits: i16,
}

/// The signed 16-bit value whose little-endian bytes are `lo`, `hi`.
pub open spec fn i16_from_le(lo: u8, hi: u8) -> i16 {
    let u = hi as int * 256 + lo as int;
    (if u >= 32768 { u - 65536 } else { u }) as i16
}

impl Temperature {
    /// Zero degrees.
    pub fn zero() -> (t: Temperature)
        ensures
            t.bits == 0,
    {
        Temperature { bits: 0 }
    }

    /// The value marking a failed read (-85 °C).
    pub fn error_value() -> (t: Temperature)
        ensures
            t.bits == ERROR_BITS,
    {
        Temperature { bits: ERROR_BITS }
    }

    /// The temperature with raw value `bits` (1/16 °C).
    pub fn from_bits(bits: i16) -> (t: Temperature)
        ensures
            t.bits == bits,
    {
        Temperature { bits }
    }

    /// The raw value, in 1/16 °C.
    pub fn to_bits(&self) -> (b: i16)
        ensures
            b == self.bits,
    {
        self.bits
    }

    /// The temperature held in two little-endian bytes.
    pub fn from_le_bytes(lo: u8, hi: u8) -> (t: Temperature)
        ensures
            t.bits == i16_from_le(lo, hi),
    {
        let u: u16 = (hi as u16) * 256 + (lo as u16);
        let bits: i16 = if u >= 32768 {
            (u as i32 - 65536) as i16
        } else {
            u as i16
        };
        Temperature { bits }
    }
}

/// Conversion resolution of the sensors; it sets both the precision of a
/// reading and how long a conversion takes.
#[derive(Debug, Clone, Copy, PartialEq, Eq, Structural)]
pub enum ReadoutResolution {
    /// 9 bits, 93.75 ms.
    Resolution9bit,
    /// 10 bits, 187.5 ms.
    Resolution10bit,
    /// 11 bits, 375 ms.
    Resolution11bit,
    /// 12 bits, 750 ms.
    Resolution12bit,
}

impl ReadoutResolution {
    /// The configuration register byte for this resolution.
    pub open spec fn spec_code(self) -> u8 {
        match self {
            ReadoutResolution::Resolution9bit => 0x1f,
            ReadoutResolution::Resolution10bit => 0x3f,
            ReadoutResolution::Resolution11bit => 0x5f,
            ReadoutResolution::Resolution12bit => 0x7f,
        }
    }

    /// How long a conversion takes, in microseconds.
    pub open spec fn spec_delay_us(self) -> u32 {
        match self {
            ReadoutResolution::Resolution9bit => 93750,
            ReadoutResolution::Resolution10bit => 187500,
            ReadoutResolution::Resolution11bit => 375000,
            ReadoutResolution::Resolution12bit => 750000,
        }
    }

    /// The mask that clears the undefined low bits of a reading.
    pub open spec fn spec_bitmask(self) -> u8 {
        match self {
            ReadoutResolution::Resolution9bit => 0xf8,
            ReadoutResolution::Resolution10bit => 0xfc,
            ReadoutResolution::Resolution11bit => 0xfe,
            ReadoutResolution::Resolution12bit => 0xff,
        }
    }

    /// The configuration register byte for this resolution.
    pub fn code(&self) -> (c: u8)
        ensures
            c == self.spec_code(),
    {
        match self {
            ReadoutResolution::Resolution9bit => 0x1f,
            ReadoutResolution::Resolution10bit => 0x3f,
            ReadoutResolution::Resolution11bit => 0x5f,
            ReadoutResolution::Resolution12bit => 0x7f,
        }
    }

    /// How long a conversion takes, in microseconds.
    pub fn delay_us(&self) -> (d: u32)
        ensures
            d == self.spec_delay_us(),
    {
        match self {
            ReadoutResolution::Resolution9bit => 93750,
            ReadoutResolution::Resolution10bit => 187500,
            ReadoutResolution::Resolution11bit => 375000,
            ReadoutResolution::Resolution12bit => 750000,
        }
    }

    /// The mask that clears the undefined low bits of a reading.
    pub fn bitmask(&self) -> (m: u8)
        ensures
            m == self.spec_bitmask(),
    {
        match self {
            ReadoutResolution::Resolution9bit => 0xf8,
            ReadoutResolution::Resolution10bit => 0xfc,
            ReadoutResolution::Resolution11bit => 0xfe,
            ReadoutResolution::Resolution12bit => 0xff,
        }
    }

    /// The resolution whose configuration byte is `value`.
    pub fn try_from(value: u8) -> (r: Result<ReadoutResolution, &'static str>)
        ensures
            match r {
                Ok(res) => res.spec_code() == value,
                Err(msg) => value != 0x1f && value != 0x3f && value != 0x5f && value != 0x7f
                    && msg == "Invalid readout resolution",
            },
    {
        match value {
            0x1f => Ok(ReadoutResolution::Resolution9bit),
            0x3f => Ok(ReadoutResolution::Resolution10bit),
            0x5f => Ok(ReadoutResolution::Resolution11bit),
            0x7f => Ok(ReadoutResolution::Resolution12bit),
            _ => Err("Invalid readout resolution"),
        }
    }
}

impl Default for ReadoutResolution {
    fn default() -> (r: ReadoutResolution)
        ensures
            r == ReadoutResolution::Resolution12bit,
    {
        ReadoutResolution::Resolution12bit
    }
}

/// The command that addresses every device at the given speed.
pub open spec fn skip_cmd(overdrive: bool) -> u8 {
    if overdrive { SKIP_ROM_CMD_OD } else { SKIP_ROM_CMD }
}

/// The command that addresses one device at the given speed.
pub open spec fn match_cmd(overdrive: bool) -> u8 {
    if overdrive { MATCH_ROM_CMD_OD } else { MATCH_ROM_CMD }
}

/// Transaction bytes that address every device and then send `data`.
pub open spec fn to_all(overdrive: bool, data: Seq<u8>) -> Seq<u8> {
    seq![skip_cmd(overdrive)] + data
}

/// Transaction bytes that address the device `rom` and then send `data`.
pub open spec fn to_one(overdrive: bool, rom: u64, data: Seq<u8>) -> Seq<u8> {
    seq![match_cmd(overdrive)] + le_bytes(rom) + data
}

/// The PIO write that lights (`true`) or clears the indicator pin.
pub open spec fn pulse(enable: bool) -> Seq<u8> {
    if enable {
        seq![TOGGLE_PIO, TOGGLE_PIO_OFF, TOGGLE_PIO_ON]
    } else {
        seq![TOGGLE_PIO, TOGGLE_PIO_ON, TOGGLE_PIO_OFF]
    }
}

/// The transactions that configure every device after a search.
pub open spec fn config_txs(
    overdrive: bool,
    low: i8,
    high: i8,
    resolution: ReadoutResolution,
    toggle_pio: bool,
) -> Seq<Seq<u8>> {
    let write = seq![
        to_all(overdrive, seq![WRITE_SCRATCH, low as u8, high as u8, resolution.spec_code()]),
    ];
    if toggle_pio {
        seq![to_all(overdrive, pulse(true))] + write + seq![to_all(overdrive, pulse(false))]
    } else {
        write
    }
}

/// The transactions that start a conversion on every device.
pub open spec fn trigger_txs(overdrive: bool, toggle_pio: bool) -> Seq<Seq<u8>> {
    let start = seq![to_all(overdrive, seq![START_CONV])];
    if toggle_pio {
        start + seq![to_all(overdrive, pulse(true))]
    } else {
        start
    }
}

/// Transaction bytes addressing every device, then `data`.
fn all_tx(overdrive: bool, data: &[u8]) -> (v: Vec<u8>)
    ensures
        v@ == to_all(overdrive, data@),
{
    let mut v: Vec<u8> = Vec::new();
    v.push(if overdrive { SKIP_ROM_CMD_OD } else { SKIP_ROM_CMD });
    let mut i: usize = 0;
    while i < data.len()
        invariant
            i <= data.len(),
            v@ == seq![skip_cmd(overdrive)] + data@.take(i as int),
        decreases data.len() - i,
    {
        v.push(data[i]);
        proof {
            assert(data@.take(i + 1) =~= data@.take(i as int).push(data@[i as int]));
            assert(v@ =~= seq![skip_cmd(overdrive)] + data@.take(i + 1));
        }
        i = i + 1;
    }
    proof {
        assert(data@.take(i as int) =~= data@);
    }
    v
}

/// Transaction bytes addressing the device `rom`, then `data`.
fn one_tx(overdrive: bool, rom: u64, data: &[u8]) -> (v: Vec<u8>)
    ensures
        v@ == to_one(overdrive, rom, data@),
{
    let mut v: Vec<u8> = Vec::new();
    v.push(if overdrive { MATCH_ROM_CMD_OD } else { MATCH_ROM_CMD });
    let mut address = u64_le_bytes(rom);
    v.append(&mut address);
    let mut i: usize = 0;
    while i < data.len()
        invariant
            i <= data.len(),
            v@ == seq![match_cmd(overdrive)] + le_bytes(rom) + data@.take(i as int),
        decreases data.len() - i,
    {
        v.push(data[i]);
        proof {
            assert(data@.take(i + 1) =~= data@.take(i as int).push(data@[i as int]));
            assert(v@ =~= seq![match_cmd(overdrive)] + le_bytes(rom) + data@.take(i + 1));
        }
        i = i + 1;
    }
    proof {
        assert(data@.take(i as int) =~= data@);
    }
    v
}

/// The bytes of a PIO write that lights (`true`) or clears the pin.
fn pulse_bytes(enable: bool) -> (v: Vec<u8>)
    ensures
        v@ == pulse(enable),
{
    let mut v: Vec<u8> = Vec::new();
    v.push(TOGGLE_PIO);
    if enable {
        v.push(TOGGLE_PIO_OFF);
        v.push(TOGGLE_PIO_ON);
    } else {
        v.push(TOGGLE_PIO_ON);
        v.push(TOGGLE_PIO_OFF);
    }
    proof {
        assert(v@ =~= pulse(enable));
    }
    v
}

/// How many scratchpad bytes a read takes: the whole block (with its CRC)
/// when the CRC is checked, else the two temperature bytes.
pub open spec fn scratch_len(crc: bool) -> nat {
    if crc { 9 } else { 2 }
}

/// The events of asking the device `rom` for its scratchpad.
pub open spec fn read_request(overdrive: bool, rom: u64) -> Seq<BusEvent> {
    transaction(to_one(overdrive, rom, seq![READ_SCRATCH]))
}

/// The events of clearing the indicator pin of the device `rom`.
pub open spec fn clear_pin(overdrive: bool, rom: u64) -> Seq<BusEvent> {
    transaction(to_one(overdrive, rom, pulse(false)))
}

/// The events of a read of the device `rom` that received `data`.
pub open spec fn read_events(overdrive: bool, rom: u64, data: Seq<u8>, toggle_pio: bool) -> Seq<
    BusEvent,
> {
    read_request(overdrive, rom) + reads(data) + if toggle_pio {
        clear_pin(overdrive, rom)
    } else {
        Seq::empty()
    }
}

/// The scratchpad bytes that the events `seg` of one read received.
pub open spec fn read_data(seg: Seq<BusEvent>, n: nat) -> Seq<u8> {
    Seq::new(
        n,
        |i: int|
            match seg[11 + i] {
                BusEvent::Read(v) => v,
                _ => 0,
            },
    )
}

/// The temperature held in the first two scratchpad bytes, with the low
/// byte masked for the resolution.
pub open spec fn decode(data: Seq<u8>, mask: u8) -> Temperature {
    Temperature { bits: i16_from_le(data[0] & mask, data[1]) }
}

/// `r` is what a read of the device `rom` returns when its events on the bus
/// were `seg`: the decoded temperature when every step succeeded and the CRC
/// (if checked) matched; `InvalidCrc` when the CRC did not match; otherwise
/// the failure of the bus operation that ended the read.
pub open spec fn device_read(
    seg: Seq<BusEvent>,
    overdrive: bool,
    rom: u64,
    crc: bool,
    toggle_pio: bool,
    mask: u8,
    r: Result<Temperature, OneWireError>,
) -> bool {
    let data = read_data(seg, scratch_len(crc));
    let full = read_events(overdrive, rom, data, toggle_pio);
    match r {
        Ok(t) => {
            &&& seg == full
            &&& crc ==> crc8_trailer_ok(data)
            &&& t == decode(data, mask)
        },
        Err(e) => {
            ||| {
                &&& 0 < seg.len() <= full.len()
                &&& seg.last() == BusEvent::Fault(e)
                &&& seg.drop_last() == full.take(seg.len() - 1)
            }
            ||| {
                &&& e == OneWireError::InvalidCrc
                &&& crc
                &&& seg == read_request(overdrive, rom) + reads(data)
                &&& !crc8_trailer_ok(data)
            }
        },
    }
}

/// The data of a read is what followed its request.
proof fn lemma_read_data(overdrive: bool, rom: u64, buf: Seq<u8>, rest: Seq<BusEvent>)
    ensures
        read_data(read_request(overdrive, rom) + reads(buf) + rest, buf.len()) == buf,
        read_request(overdrive, rom).len() == 11,
        clear_pin(overdrive, rom).len() == 13,
{
    let seg = read_request(overdrive, rom) + reads(buf) + rest;
    assert(to_one(overdrive, rom, seq![READ_SCRATCH]).len() == 10);
    assert(to_one(overdrive, rom, pulse(false)).len() == 12);
    assert forall|i: int| 0 <= i < buf.len() implies seg[11 + i] == BusEvent::Read(buf[i]) by {}
    assert(read_data(seg, buf.len()) =~= buf);
}

/// A read whose request failed.
proof fn lemma_request_failed(
    start: Seq<BusEvent>,
    after: Seq<BusEvent>,
    overdrive: bool,
    rom: u64,
    crc: bool,
    toggle_pio: bool,
    mask: u8,
    e: OneWireError,
)
    requires
        outcome(start, after, read_request(overdrive, rom), false),
        after.last() == BusEvent::Fault(e),
    ensures
        after.len() >= start.len(),
        after.take(start.len() as int) == start,
        device_read(after.skip(start.len() as int), overdrive, rom, crc, toggle_pio, mask, Err(e)),
{
    let request = read_request(overdrive, rom);
    lemma_read_data(overdrive, rom, Seq::empty(), Seq::empty());
    let seg = after.skip(start.len() as int);
    let data = read_data(seg, scratch_len(crc));
    let full = read_events(overdrive, rom, data, toggle_pio);
    assert(seg =~= request.take(seg.len() - 1).push(seg.last()));
    assert(full.take(seg.len() - 1) =~= request.take(seg.len() - 1));
    assert(seg.drop_last() =~= full.take(seg.len() - 1));
    assert(after.take(start.len() as int) =~= start);
}

/// A read that failed while receiving the scratchpad.
proof fn lemma_read_failed(
    start: Seq<BusEvent>,
    after: Seq<BusEvent>,
    overdrive: bool,
    rom: u64,
    crc: bool,
    toggle_pio: bool,
    mask: u8,
    buf: Seq<u8>,
    e: OneWireError,
)
    requires
        buf.len() < scratch_len(crc),
        after == (start + read_request(overdrive, rom) + reads(buf)).push(BusEvent::Fault(e)),
    ensures
        after.len() >= start.len(),
        after.take(start.len() as int) == start,
        device_read(after.skip(start.len() as int), overdrive, rom, crc, toggle_pio, mask, Err(e)),
{
    let request = read_request(overdrive, rom);
    let seg = after.skip(start.len() as int);
    assert(seg =~= request + reads(buf) + seq![seg.last()]);
    lemma_read_data(overdrive, rom, buf, seq![seg.last()]);
    let data = read_data(seg, scratch_len(crc));
    let full = read_events(overdrive, rom, data, toggle_pio);
    assert forall|j: int| 0 <= j < buf.len() implies data[j] == buf[j] by {
        assert(seg[11 + j] == BusEvent::Read(buf[j]));
    }
    assert(full.take(seg.len() - 1) =~= request + reads(buf));
    assert(seg.drop_last() =~= full.take(seg.len() - 1));
    assert(after.take(start.len() as int) =~= start);
}

/// A read that failed while clearing the indicator pin.
proof fn lemma_clear_failed(
    start: Seq<BusEvent>,
    mid: Seq<BusEvent>,
    after: Seq<BusEvent>,
    overdrive: bool,
    rom: u64,
    crc: bool,
    mask: u8,
    buf: Seq<u8>,
    e: OneWireError,
)
    requires
        buf.len() == scratch_len(crc),
        crc ==> crc8_trailer_ok(buf),
        mid == start + read_request(overdrive, rom) + reads(buf),
        outcome(mid, after, clear_pin(overdrive, rom), false),
        after.last() == BusEvent::Fault(e),
    ensures
        after.len() >= start.len(),
        after.take(start.len() as int) == start,
        device_read(after.skip(start.len() as int), overdrive, rom, crc, true, mask, Err(e)),
{
    let request = read_request(overdrive, rom);
    let seg = after.skip(start.len() as int);
    let clear = clear_pin(overdrive, rom);
    let k = after.len() - mid.len() - 1;
    assert(seg =~= request + reads(buf) + (clear.take(k).push(seg.last())));
    lemma_read_data(overdrive, rom, buf, clear.take(k).push(seg.last()));
    let full = read_events(overdrive, rom, buf, true);
    assert(full.take(seg.len() - 1) =~= request + reads(buf) + clear.take(k));
    assert(seg.drop_last() =~= full.take(seg.len() - 1));
    assert(after.take(start.len() as int) =~= start);
}

/// Reads the device `rom`: asks for its scratchpad, receives two bytes (or
/// the whole block when `crc` is set, refusing it when its CRC does not
/// match), decodes the temperature, and clears the indicator pin when
/// `toggle_pio` is set.
fn read_device<B: OneWireBus>(
    bus: &mut B,
    rom: u64,
    crc: bool,
    toggle_pio: bool,
    overdrive: bool,
    mask: u8,
) -> (r: Result<Temperature, OneWireError>)
    ensures
        final(bus).events().len() >= old(bus).events().len(),
        final(bus).events().take(old(bus).events().len() as int) == old(bus).events(),
        device_read(
            final(bus).events().skip(old(bus).events().len() as int),
            overdrive,
            rom,
            crc,
            toggle_pio,
            mask,
            r,
        ),
{
    let ghost start = bus.events();
    let ghost request = read_request(overdrive, rom);
    let mut cmd: Vec<u8> = Vec::new();
    cmd.push(READ_SCRATCH);
    proof {
        assert(cmd@ =~= seq![READ_SCRATCH]);
        lemma_read_data(overdrive, rom, Seq::empty(), Seq::empty());
    }
    let req = one_tx(overdrive, rom, cmd.as_slice());
    let r0 = run_transaction(bus, req.as_slice());
    if let Err(e) = r0 {
        proof {
            lemma_request_failed(start, bus.events(), overdrive, rom, crc, toggle_pio, mask, e);
        }
        return Err(e);
    }
    let n: usize = if crc { 9 } else { 2 };
    let mut buf: Vec<u8> = Vec::new();
    while buf.len() < n
        invariant
            n == scratch_len(crc),
            buf@.len() <= n,
            start == old(bus).events(),
            request == read_request(overdrive, rom),
            request.len() == 11,
            bus.events() == start + request + reads(buf@),
        decreases n - buf.len(),
    {
        match bus.read_byte() {
            Ok(b) => {
                proof {
                    assert(reads(buf@.push(b)) =~= reads(buf@).push(BusEvent::Read(b)));
                }
                buf.push(b);
            },
            Err(e) => {
                proof {
                    lemma_read_failed(start, bus.events(), overdrive, rom, crc, toggle_pio, mask, buf@, e);
                }
                return Err(e);
            },
        }
    }
    if crc && !crc8_check(buf.as_slice()) {
        proof {
            let seg = bus.events().skip(start.len() as int);
            assert(seg =~= request + reads(buf@));
            assert(seg =~= request + reads(buf@) + Seq::empty());
            lemma_read_data(overdrive, rom, buf@, Seq::empty());
            assert(bus.events().take(start.len() as int) =~= start);
        }
        return Err(OneWireError::InvalidCrc);
    }
    let t = Temperature::from_le_bytes(buf[0] & mask, buf[1]);
    let ghost mid = bus.events();
    if toggle_pio {
        let off = one_tx(overdrive, rom, pulse_bytes(false).as_slice());
        let r1 = run_transaction(bus, off.as_slice());
        if let Err(e) = r1 {
            proof {
                lemma_clear_failed(start, mid, bus.events(), overdrive, rom, crc, mask, buf@, e);
            }
            return Err(e);
        }
    }
    proof {
        let seg = bus.events().skip(start.len() as int);
        let tail = if toggle_pio { clear_pin(overdrive, rom) } else { Seq::empty() };
        assert(seg =~= request + reads(buf@) + tail);
        lemma_read_data(overdrive, rom, buf@, tail);
        assert(bus.events().take(start.len() as int) =~= start);
    }
    Ok(t)
}

/// The temperature a read leaves in the group: the value read, or the
/// error marker (-85 °C) when the read failed.
pub open spec fn settled(out: Result<Temperature, OneWireError>) -> Temperature {
    match out {
        Ok(t) => t,
        Err(_) => Temperature { bits: ERROR_BITS },
    }
}

/// The error of a failed result (`Other` for a success).
pub open spec fn error_of<T>(r: Result<T, OneWireError>) -> OneWireError {
    match r {
        Ok(_) => OneWireError::Other,
        Err(e) => e,
    }
}

/// `ev`, from position `cuts[0]` to its end, is a run of device reads: the
/// `i`-th took the events between `cuts[i]` and `cuts[i + 1]`, read the
/// device `roms[i]` and returned `outs[i]`.
pub open spec fn split_reads(
    ev: Seq<BusEvent>,
    cuts: Seq<int>,
    outs: Seq<Result<Temperature, OneWireError>>,
    roms: Seq<u64>,
    overdrive: bool,
    crc: bool,
    toggle_pio: bool,
    mask: u8,
) -> bool {
    &&& cuts.len() == outs.len() + 1
    &&& outs.len() <= roms.len()
    &&& 0 <= cuts[0]
    &&& cuts.last() == ev.len()
    &&& forall|j: int| 0 <= j < cuts.len() ==> cuts[0] <= #[trigger] cuts[j] <= ev.len()
    &&& forall|i: int|
        0 <= i < outs.len() ==> {
            &&& cuts[i] <= cuts[i + 1]
            &&& device_read(
                ev.subrange(cuts[i], cuts[i + 1]),
                overdrive,
                roms[i],
                crc,
                toggle_pio,
                mask,
                #[trigger] outs[i],
            )
        }
}

/// What a read of the whole group did: starting at position `start` of the
/// bus events `ev`, it read the devices `roms` in order (`split_reads`), and
/// the readings went from `before` to `after`. With `ignore_errors` every
/// device is read and a failed one gets the error marker; without it the
/// first failure (`err`) ends the run and the devices not reached keep
/// their readings.
pub open spec fn group_read(
    ev: Seq<BusEvent>,
    cuts: Seq<int>,
    outs: Seq<Result<Temperature, OneWireError>>,
    start: int,
    roms: Seq<u64>,
    before: Seq<(u64, Temperature)>,
    after: Seq<(u64, Temperature)>,
    overdrive: bool,
    crc: bool,
    toggle_pio: bool,
    mask: u8,
    ignore_errors: bool,
    ok: bool,
    err: OneWireError,
) -> bool {
    &&& split_reads(ev, cuts, outs, roms, overdrive, crc, toggle_pio, mask)
    &&& cuts[0] == start
    &&& before.len() == roms.len()
    &&& after.len() == roms.len()
    &&& if ok {
        &&& outs.len() == roms.len()
        &&& forall|i: int|
            0 <= i < roms.len() ==> #[trigger] after[i] == (roms[i], settled(outs[i]))
        &&& !ignore_errors ==> forall|i: int| 0 <= i < outs.len() ==> #[trigger] outs[i] is Ok
    } else {
        &&& !ignore_errors
        &&& outs.len() >= 1
        &&& outs.last() == Err::<Temperature, OneWireError>(err)
        &&& forall|i: int|
            0 <= i < outs.len() - 1 ==> #[trigger] outs[i] is Ok && after[i] == (
                roms[i],
                settled(outs[i]),
            )
        &&& forall|i: int| outs.len() - 1 <= i < roms.len() ==> #[trigger] after[i] == before[i]
    }
}

/// With CRC checking and no tolerance, a group read on which no bus
/// operation failed succeeds exactly when every scratchpad it received ends
/// with the CRC-8 of its first eight bytes; otherwise it fails with
/// `InvalidCrc`.
pub proof fn lemma_group_crc_check(
    ev: Seq<BusEvent>,
    cuts: Seq<int>,
    outs: Seq<Result<Temperature, OneWireError>>,
    start: int,
    roms: Seq<u64>,
    before: Seq<(u64, Temperature)>,
    after: Seq<(u64, Temperature)>,
    overdrive: bool,
    toggle_pio: bool,
    mask: u8,
    ok: bool,
    err: OneWireError,
)
    requires
        group_read(ev, cuts, outs, start, roms, before, after, overdrive, true, toggle_pio, mask, false, ok, err),
        forall|i: int| start <= i < ev.len() ==> !(#[trigger] ev[i] is Fault),
    ensures
        ok <==> forall|j: int|
            0 <= j < outs.len() ==> crc8_trailer_ok(
                read_data(#[trigger] ev.subrange(cuts[j], cuts[j + 1]), 9),
            ),
        ok ==> outs.len() == roms.len(),
        !ok ==> err == OneWireError::InvalidCrc,
{
    assert forall|j: int| 0 <= j < outs.len() implies (outs[j] is Ok <==> crc8_trailer_ok(
        read_data(#[trigger] ev.subrange(cuts[j], cuts[j + 1]), 9),
    )) && (outs[j] is Err ==> outs[j] == Err::<Temperature, OneWireError>(OneWireError::InvalidCrc)) by {
        let seg = ev.subrange(cuts[j], cuts[j + 1]);
        assert(device_read(seg, overdrive, roms[j], true, toggle_pio, mask, outs[j]));
        assert(start <= cuts[j] <= cuts[j + 1] <= ev.len());
        if seg.len() > 0 {
            assert(seg.last() == ev[cuts[j + 1] - 1]);
        }
    }
    if !ok {
        let l = outs.len() - 1;
        assert(outs[l] == Err::<Temperature, OneWireError>(err));
    } else {
        assert forall|j: int| 0 <= j < outs.len() implies crc8_trailer_ok(
            read_data(#[trigger] ev.subrange(cuts[j], cuts[j + 1]), 9),
        ) by {
            assert(outs[j] is Ok);
        }
    }
}

/// A tolerant group read always succeeds and keeps a reading for every
/// device, in discovery order: the error marker (-85 °C) where the read
/// failed, the decoded scratchpad elsewhere.
pub proof fn lemma_tolerant_read(
    ev: Seq<BusEvent>,
    cuts: Seq<int>,
    outs: Seq<Result<Temperature, OneWireError>>,
    start: int,
    roms: Seq<u64>,
    before: Seq<(u64, Temperature)>,
    after: Seq<(u64, Temperature)>,
    overdrive: bool,
    crc: bool,
    toggle_pio: bool,
    mask: u8,
    ok: bool,
    err: OneWireError,
)
    requires
        group_read(ev, cuts, outs, start, roms, before, after, overdrive, crc, toggle_pio, mask, true, ok, err),
    ensures
        ok,
        after.len() == roms.len(),
        forall|i: int|
            0 <= i < roms.len() ==> {
                &&& (#[trigger] after[i]).0 == roms[i]
                &&& outs[i] is Err ==> after[i].1.bits == ERROR_BITS
                &&& outs[i] is Ok ==> after[i].1 == decode(
                    read_data(ev.subrange(cuts[i], cuts[i + 1]), scratch_len(crc)),
                    mask,
                )
            },
{
    assert forall|i: int| 0 <= i < roms.len() implies {
        &&& (#[trigger] after[i]).0 == roms[i]
        &&& outs[i] is Err ==> after[i].1.bits == ERROR_BITS
        &&& outs[i] is Ok ==> after[i].1 == decode(
            read_data(ev.subrange(cuts[i], cuts[i + 1]), scratch_len(crc)),
            mask,
        )
    } by {
        assert(after[i] == (roms[i], settled(outs[i])));
        assert(device_read(ev.subrange(cuts[i], cuts[i + 1]), overdrive, roms[i], crc, toggle_pio, mask, outs[i]));
    }
}

/// Without tolerance, a failed group read returns the error of the device
/// read that failed; the devices before it were read, nothing happened on
/// the bus after it, and the devices after it keep their readings.
pub proof fn lemma_strict_read_stops(
    ev: Seq<BusEvent>,
    cuts: Seq<int>,
    outs: Seq<Result<Temperature, OneWireError>>,
    start: int,
    roms: Seq<u64>,
    before: Seq<(u64, Temperature)>,
    after: Seq<(u64, Temperature)>,
    overdrive: bool,
    crc: bool,
    toggle_pio: bool,
    mask: u8,
    err: OneWireError,
)
    requires
        group_read(ev, cuts, outs, start, roms, before, after, overdrive, crc, toggle_pio, mask, false, false, err),
    ensures
        outs.len() >= 1,
        outs.last() == Err::<Temperature, OneWireError>(err),
        cuts[outs.len() as int] == ev.len(),
        forall|j: int| 0 <= j < outs.len() - 1 ==> #[trigger] outs[j] is Ok,
        forall|j: int| outs.len() - 1 <= j < roms.len() ==> #[trigger] after[j] == before[j],
{
}

/// Enumeration keeps what the search found, in the order it was found: when
/// the run succeeded, the search event is followed by one `Found` event per
/// stored address, in the order of `roms`, and there are at most `limit`.
pub proof fn lemma_enumerate_follows_search(
    before: Seq<BusEvent>,
    after: Seq<BusEvent>,
    limit: usize,
    roms: Seq<u64>,
    config: Seq<BusEvent>,
)
    requires
        roms.len() <= limit,
        outcome(before, after, search_events(FAMILY_CODE, limit, roms) + config, true),
    ensures
        after[before.len() as int] == BusEvent::Search(FAMILY_CODE, limit),
        forall|i: int|
            0 <= i < roms.len() ==> after[before.len() + 1 + i] == BusEvent::Found(#[trigger] roms[i]),
        roms.len() <= limit,
{
    assert forall|i: int| 0 <= i < roms.len() implies after[before.len() + 1 + i] == BusEvent::Found(
        #[trigger] roms[i],
    ) by {
        assert(after[before.len() + (1 + i)] == search_events(FAMILY_CODE, limit, roms)[1 + i]);
    }
    assert(after[before.len() as int] == search_events(FAMILY_CODE, limit, roms)[0]);
}

/// Switching to standard speed when already there changes nothing: whether
/// or not the bus accepted the switch, the group stays at standard speed and
/// its next transactions use the standard addressing commands.
pub proof fn lemma_disable_overdrive_idempotent<const N: usize>(
    before: Ds28ea00Group<N>,
    after: Ds28ea00Group<N>,
    accepted: bool,
    rom: u64,
    data: Seq<u8>,
)
    requires
        !before.spec_overdrive(),
        after.has_state(
            before.readings_view(),
            before.spec_resolution(),
            before.spec_t_low(),
            before.spec_t_high(),
            before.spec_toggle_pio(),
            if accepted { false } else { before.spec_overdrive() },
        ),
    ensures
        !after.spec_overdrive(),
        to_all(after.spec_overdrive(), data)[0] == SKIP_ROM_CMD,
        to_one(after.spec_overdrive(), rom, data)[0] == MATCH_ROM_CMD,
{
}

/// With CRC checking, a complete read (no bus failure) is accepted exactly
/// when the ninth scratchpad byte is the CRC-8 of the eight before it, and
/// is otherwise refused with `InvalidCrc`.
pub proof fn lemma_crc_check(
    seg: Seq<BusEvent>,
    overdrive: bool,
    rom: u64,
    toggle_pio: bool,
    mask: u8,
    r: Result<Temperature, OneWireError>,
)
    requires
        device_read(seg, overdrive, rom, true, toggle_pio, mask, r),
        forall|i: int| 0 <= i < seg.len() ==> !(#[trigger] seg[i] is Fault),
    ensures
        r is Ok <==> crc8_trailer_ok(read_data(seg, 9)),
        r is Err ==> r == Err::<Temperature, OneWireError>(OneWireError::InvalidCrc),
{
    if seg.len() > 0 {
        assert(seg.last() == seg[seg.len() - 1]);
    }
}

/// A group of up to `N` DS28EA00 sensors on one bus, with the configuration
/// written to them and the last reading of each.
#[derive(Debug)]
pub struct Ds28ea00Group<const N: usize> {
    readings: Vec<(u64, Temperature)>,
    resolution: ReadoutResolution,
    low: i8,
    high: i8,
    toggle_pio: bool,
    overdrive: bool,
}

impl<const N: usize> Ds28ea00Group<N> {
    /// The discovered devices in discovery order, each with its last reading.
    pub closed spec fn readings_view(&self) -> Seq<(u64, Temperature)> {
        self.readings@
    }

    /// The addresses of the discovered devices, in discovery order.
    pub open spec fn rom_list(&self) -> Seq<u64> {
        self.readings_view().map_values(|p: (u64, Temperature)| p.0)
    }

    /// The configured resolution.
    pub closed spec fn spec_resolution(&self) -> ReadoutResolution {
        self.resolution
    }

    /// The configured low alarm threshold, in °C.
    pub closed spec fn spec_t_low(&self) -> i8 {
        self.low
    }

    /// The configured high alarm threshold, in °C.
    pub closed spec fn spec_t_high(&self) -> i8 {
        self.high
    }

    /// Whether the indicator pins are pulsed around conversions and reads.
    pub closed spec fn spec_toggle_pio(&self) -> bool {
        self.toggle_pio
    }

    /// Whether addressing uses the overdrive commands.
    pub closed spec fn spec_overdrive(&self) -> bool {
        self.overdrive
    }

    /// The group never holds more than `N` devices.
    pub open spec fn wf(&self) -> bool {
        self.readings_view().len() <= N
    }

    /// `self` holds exactly the given devices and configuration.
    pub open spec fn has_state(
        &self,
        readings: Seq<(u64, Temperature)>,
        resolution: ReadoutResolution,
        low: i8,
        high: i8,
        toggle_pio: bool,
        overdrive: bool,
    ) -> bool {
        &&& self.readings_view() == readings
        &&& self.spec_resolution() == resolution
        &&& self.spec_t_low() == low
        &&& self.spec_t_high() == high
        &&& self.spec_toggle_pio() == toggle_pio
        &&& self.spec_overdrive() == overdrive
    }

    /// The configuration of `self` and `other` agree.
    pub open spec fn same_config(&self, other: Self) -> bool {
        &&& self.spec_resolution() == other.spec_resolution()
        &&& self.spec_t_low() == other.spec_t_low()
        &&& self.spec_t_high() == other.spec_t_high()
        &&& self.spec_toggle_pio() == other.spec_toggle_pio()
        &&& self.spec_overdrive() == other.spec_overdrive()
    }

    /// The family code that the device search selects.
    pub fn family() -> (f: u8)
        ensures
            f == FAMILY_CODE,
    {
        FAMILY_CODE
    }

    /// A group with no devices, 12-bit resolution, thresholds -40 °C and
    /// 85 °C, no indicator pulses, at standard speed.
    pub fn new() -> (g: Self)
        ensures
            g.wf(),
            g.readings_view().len() == 0,
            g.spec_resolution() == ReadoutResolution::Resolution12bit,
            g.spec_t_low() == -40,
            g.spec_t_high() == 85,
            !g.spec_toggle_pio(),
            !g.spec_overdrive(),
    {
        Ds28ea00Group {
            readings: Vec::new(),
            resolution: ReadoutResolution::Resolution12bit,
            low: -40,
            high: 85,
            toggle_pio: false,
            overdrive: false,
        }
    }

    /// Sets the conversion resolution.
    pub fn with_resolution(self, resolution: ReadoutResolution) -> (g: Self)
        ensures
            g.has_state(
                self.readings_view(),
                resolution,
                self.spec_t_low(),
                self.spec_t_high(),
                self.spec_toggle_pio(),
                self.spec_overdrive(),
            ),
    {
        Ds28ea00Group { resolution, ..self }
    }

    /// Sets the low alarm threshold, in °C.
    pub fn with_t_low(self, temp: i8) -> (g: Self)
        ensures
            g.has_state(
                self.readings_view(),
                self.spec_resolution(),
                temp,
                self.spec_t_high(),
                self.spec_toggle_pio(),
                self.spec_overdrive(),
            ),
    {
        Ds28ea00Group { low: temp, ..self }
    }

    /// Sets the high alarm threshold, in °C.
    pub fn with_t_high(self, temp: i8) -> (g: Self)
        ensures
            g.has_state(
                self.readings_view(),
                self.spec_resolution(),
                self.spec_t_low(),
                temp,
                self.spec_toggle_pio(),
                self.spec_overdrive(),
            ),
    {
        Ds28ea00Group { high: temp, ..self }
    }

    /// Chooses whether the indicator pins are pulsed around conversions and
    /// reads.
    pub fn with_toggle_pio(self, toggle_pio: bool) -> (g: Self)
        ensures
            g.has_state(
                self.readings_view(),
                self.spec_resolution(),
                self.spec_t_low(),
                self.spec_t_high(),
                toggle_pio,
                self.spec_overdrive(),
            ),
    {
        Ds28ea00Group { toggle_pio, ..self }
    }

    /// The transactions that configure every device.
    fn config_transactions(&self) -> (v: Vec<Vec<u8>>)
        ensures
            byte_rows(v@) == config_txs(
                self.overdrive,
                self.low,
                self.high,
                self.resolution,
                self.toggle_pio,
            ),
    {
        let mut v: Vec<Vec<u8>> = Vec::new();
        if self.toggle_pio {
            v.push(all_tx(self.overdrive, pulse_bytes(true).as_slice()));
        }
        let mut data: Vec<u8> = Vec::new();
        data.push(WRITE_SCRATCH);
        data.push(self.low as u8);
        data.push(self.high as u8);
        data.push(self.resolution.code());
        v.push(all_tx(self.overdrive, data.as_slice()));
        if self.toggle_pio {
            v.push(all_tx(self.overdrive, pulse_bytes(false).as_slice()));
        }
        proof {
            assert(data@ =~= seq![
                WRITE_SCRATCH,
                self.low as u8,
                self.high as u8,
                self.resolution.spec_code(),
            ]);
            assert(byte_rows(v@) =~= config_txs(
                self.overdrive,
                self.low,
                self.high,
                self.resolution,
                self.toggle_pio,
            ));
        }
        v
    }

    /// Discovers the devices of the DS28EA00 family (at most `N`, in the
    /// order the search finds them), then writes the alarm thresholds and
    /// the resolution to all of them, pulsing the indicator pins around the
    /// write when that is enabled. Returns the number of devices found.
    /// A bus failure stops the work where it happened.
    pub fn enumerate<B: OneWireBus>(&mut self, bus: &mut B) -> (r: Result<usize, OneWireError>)
        requires
            old(self).wf(),
        ensures
            final(self).wf(),
            final(self).same_config(*old(self)),
            final(self).rom_list().len() <= N,
            forall|i: int|
                0 <= i < final(self).readings_view().len() ==> (
                #[trigger] final(self).readings_view()[i]).1.bits == 0,
            outcome(
                old(bus).events(),
                final(bus).events(),
                search_events(FAMILY_CODE, N, final(self).rom_list()) + transactions(
                    config_txs(
                        old(self).spec_overdrive(),
                        old(self).spec_t_low(),
                        old(self).spec_t_high(),
                        old(self).spec_resolution(),
                        old(self).spec_toggle_pio(),
                    ),
                ),
                r is Ok,
            ),
            r is Ok ==> r == Ok::<usize, OneWireError>(final(self).rom_list().len() as usize),
            reports(final(bus).events(), r),
    {
        let ghost start = bus.events();
        let ghost cfg = config_txs(self.overdrive, self.low, self.high, self.resolution, self.toggle_pio);
        self.readings = Vec::new();
        let found = match bus.search(FAMILY_CODE, N) {
            Ok(found) => found,
            Err(e) => {
                proof {
                    let expected = search_events(FAMILY_CODE, N, self.rom_list()) + transactions(cfg);
                    assert(expected.take(0) =~= Seq::<BusEvent>::empty());
                    assert(bus.events() =~= start + expected.take(0).push(bus.events().last()));
                }
                return Err(e);
            },
        };
        let mut i: usize = 0;
        while i < found.len()
            invariant
                i <= found.len(),
                found@.len() <= N,
                self.readings@.len() == i,
                forall|j: int| 0 <= j < i ==> #[trigger] self.readings@[j] == (found@[j], Temperature { bits: 0 }),
                start == old(bus).events(),
                bus.events() == start + search_events(FAMILY_CODE, N, found@),
                cfg == config_txs(self.overdrive, self.low, self.high, self.resolution, self.toggle_pio),
                self.resolution == old(self).resolution,
                self.low == old(self).low,
                self.high == old(self).high,
                self.toggle_pio == old(self).toggle_pio,
                self.overdrive == old(self).overdrive,
            decreases found.len() - i,
        {
            self.readings.push((found[i], Temperature::zero()));
            i = i + 1;
        }
        proof {
            assert(self.rom_list() =~= found@);
        }
        let ghost mid = bus.events();
        let txs = self.config_transactions();
        let r = run_transactions(bus, &txs);
        proof {
            lemma_outcome_then(
                start,
                mid,
                bus.events(),
                search_events(FAMILY_CODE, N, found@),
                transactions(cfg),
                r is Ok,
            );
        }
        match r {
            Ok(()) => Ok(self.readings.len()),
            Err(e) => Err(e),
        }
    }

    /// The addresses of the discovered devices, in discovery order.
    pub fn roms(&self) -> (v: Vec<u64>)
        ensures
            v@ == self.rom_list(),
    {
        let mut v: Vec<u64> = Vec::new();
        let mut i: usize = 0;
        while i < self.readings.len()
            invariant
                i <= self.readings@.len(),
                v@ == self.rom_list().take(i as int),
            decreases self.readings.len() - i,
        {
            v.push(self.readings[i].0);
            proof {
                assert(v@ =~= self.rom_list().take(i + 1));
            }
            i = i + 1;
        }
        proof {
            assert(v@ =~= self.rom_list());
        }
        v
    }

    /// Whether addressing uses the overdrive commands.
    pub fn overdrive(&self) -> (b: bool)
        ensures
            b == self.spec_overdrive(),
    {
        self.overdrive
    }

    /// Switches the bus to overdrive; on success later addressing uses the
    /// overdrive commands.
    pub fn enable_overdrive<B: OneWireBus>(&mut self, bus: &mut B) -> (r: Result<(), OneWireError>)
        ensures
            final(bus).events() == old(bus).events().push(
                match r {
                    Ok(_) => BusEvent::Speed(true),
                    Err(e) => BusEvent::Fault(e),
                },
            ),
            final(self).has_state(
                old(self).readings_view(),
                old(self).spec_resolution(),
                old(self).spec_t_low(),
                old(self).spec_t_high(),
                old(self).spec_toggle_pio(),
                if r is Ok { true } else { old(self).spec_overdrive() },
            ),
    {
        bus.set_overdrive_mode(true)?;
        self.overdrive = true;
        Ok(())
    }

    /// Switches the bus to standard speed; on success later addressing uses
    /// the standard commands.
    pub fn disable_overdrive<B: OneWireBus>(&mut self, bus: &mut B) -> (r: Result<(), OneWireError>)
        ensures
            final(bus).events() == old(bus).events().push(
                match r {
                    Ok(_) => BusEvent::Speed(false),
                    Err(e) => BusEvent::Fault(e),
                },
            ),
            final(self).has_state(
                old(self).readings_view(),
                old(self).spec_resolution(),
                old(self).spec_t_low(),
                old(self).spec_t_high(),
                old(self).spec_toggle_pio(),
                if r is Ok { false } else { old(self).spec_overdrive() },
            ),
    {
        bus.set_overdrive_mode(false)?;
        self.overdrive = false;
        Ok(())
    }

    /// Starts a conversion on every device (lighting the indicator pins when
    /// that is enabled), then waits as long as the resolution requires.
    pub fn trigger_temperature_conversion<B: OneWireBus, D: DelayUs>(
        &self,
        bus: &mut B,
        delay: &mut D,
    ) -> (r: Result<(), OneWireError>)
        ensures
            outcome(
                old(bus).events(),
                final(bus).events(),
                transactions(trigger_txs(self.spec_overdrive(), self.spec_toggle_pio())),
                r is Ok,
            ),
            final(delay).waits() == (if r is Ok {
                old(delay).waits().push(self.spec_resolution().spec_delay_us())
            } else {
                old(delay).waits()
            }),
            reports(final(bus).events(), r),
    {
        let mut v: Vec<Vec<u8>> = Vec::new();
        let mut start: Vec<u8> = Vec::new();
        start.push(START_CONV);
        v.push(all_tx(self.overdrive, start.as_slice()));
        if self.toggle_pio {
            v.push(all_tx(self.overdrive, pulse_bytes(true).as_slice()));
        }
        proof {
            assert(start@ =~= seq![START_CONV]);
            assert(byte_rows(v@) =~= trigger_txs(self.overdrive, self.toggle_pio));
        }
        run_transactions(bus, &v)?;
        delay.delay_us(self.resolution.delay_us());
        Ok(())
    }

    /// Reads every discovered device in discovery order (see `read_device`)
    /// and stores the readings. With `ignore_errors`, a device whose read
    /// fails gets the error marker (-85 °C) and the others are still read;
    /// without it the first failure is returned at once. On success returns
    /// the devices with their new readings.
    pub fn read_temperatures<B: OneWireBus>(
        &mut self,
        bus: &mut B,
        crc: bool,
        ignore_errors: bool,
    ) -> (r: Result<Vec<(u64, Temperature)>, OneWireError>)
        requires
            old(self).wf(),
        ensures
            final(self).wf(),
            final(self).same_config(*old(self)),
            final(self).rom_list() == old(self).rom_list(),
            final(bus).events().len() >= old(bus).events().len(),
            final(bus).events().take(old(bus).events().len() as int) == old(bus).events(),
            exists|cuts: Seq<int>, outs: Seq<Result<Temperature, OneWireError>>|
                #[trigger] group_read(
                    final(bus).events(),
                    cuts,
                    outs,
                    old(bus).events().len() as int,
                    old(self).rom_list(),
                    old(self).readings_view(),
                    final(self).readings_view(),
                    old(self).spec_overdrive(),
                    crc,
                    old(self).spec_toggle_pio(),
                    old(self).spec_resolution().spec_bitmask(),
                    ignore_errors,
                    r is Ok,
                    error_of(r),
                ),
            r is Ok ==> r->Ok_0@ == final(self).readings_view(),
    {
        let ghost start = bus.events();
        let ghost before = self.readings@;
        let ghost roms = self.rom_list();
        let ghost mut cuts: Seq<int> = seq![start.len() as int];
        let ghost mut outs: Seq<Result<Temperature, OneWireError>> = Seq::empty();
        let mask = self.resolution.bitmask();
        let mut i: usize = 0;
        while i < self.readings.len()
            invariant
                i <= self.readings@.len(),
                self.readings@.len() == before.len(),
                before.len() <= N,
                roms == before.map_values(|p: (u64, Temperature)| p.0),
                self.resolution == old(self).resolution,
                self.low == old(self).low,
                self.high == old(self).high,
                self.toggle_pio == old(self).toggle_pio,
                self.overdrive == old(self).overdrive,
                mask == self.resolution.spec_bitmask(),
                start == old(bus).events(),
                before == old(self).readings@,
                bus.events().len() >= start.len(),
                bus.events().take(start.len() as int) == start,
                outs.len() == i,
                cuts[0] == start.len(),
                forall|j: int| 0 <= j < cuts.len() ==> start.len() <= #[trigger] cuts[j] <= bus.events().len(),
                split_reads(bus.events(), cuts, outs, roms, self.overdrive, crc, self.toggle_pio, mask),
                forall|j: int| 0 <= j < i ==> #[trigger] self.readings@[j] == (roms[j], settled(outs[j])),
                forall|j: int| i <= j < before.len() ==> #[trigger] self.readings@[j] == before[j],
                !ignore_errors ==> forall|j: int| 0 <= j < i ==> #[trigger] outs[j] is Ok,
            decreases self.readings@.len() - i,
        {
            let rom = self.readings[i].0;
            let ghost ev0 = bus.events();
            let res = read_device(bus, rom, crc, self.toggle_pio, self.overdrive, mask);
            proof {
                let ev1 = bus.events();
                let old_cuts = cuts;
                let old_outs = outs;
                cuts = cuts.push(ev1.len() as int);
                outs = outs.push(res);
                assert(roms[i as int] == rom);
                assert forall|j: int| 0 <= j < outs.len() implies device_read(
                    ev1.subrange(cuts[j], cuts[j + 1]),
                    self.overdrive,
                    roms[j],
                    crc,
                    self.toggle_pio,
                    mask,
                    #[trigger] outs[j],
                ) by {
                    if j < i {
                        assert(old_outs[j] == outs[j]);
                        assert(start.len() <= old_cuts[j] <= ev0.len());
                        assert(start.len() <= old_cuts[j + 1] <= ev0.len());
                        assert(ev1.take(ev0.len() as int) == ev0);
                        assert forall|m: int| 0 <= m < ev0.len() implies ev1[m] == ev0[m] by {
                            assert(ev1.take(ev0.len() as int)[m] == ev1[m]);
                        }
                        assert(ev1.subrange(cuts[j], cuts[j + 1]) =~= ev0.subrange(cuts[j], cuts[j + 1]));
                    } else {
                        assert(cuts[j] == old_cuts.last());
                        assert(cuts[j] == ev0.len());
                        assert(cuts[j + 1] == ev1.len());
                        assert(ev1.subrange(cuts[j], cuts[j + 1]) =~= ev1.skip(ev0.len() as int));
                    }
                }
                assert forall|j: int| 0 <= j < outs.len() implies #[trigger] cuts[j] <= cuts[j + 1] by {
                    if j < i {
                        assert(old_outs[j] == outs[j]);
                        assert(old_cuts[j] <= old_cuts[j + 1]);
                    } else {
                        assert(cuts[j] == ev0.len());
                    }
                }
                assert(split_reads(ev1, cuts, outs, roms, self.overdrive, crc, self.toggle_pio, mask));
                assert(bus.events().take(start.len() as int) =~= start);
                assert forall|j: int| 0 <= j < cuts.len() implies start.len() <= #[trigger] cuts[j] <= ev1.len() by {
                    if j < old_cuts.len() {
                        assert(start.len() <= old_cuts[j] <= ev0.len());
                    }
                }
            }
            match res {
                Ok(t) => {
                    self.readings.set(i, (rom, t));
                },
                Err(e) => {
                    if !ignore_errors {
                        proof {
                            assert(self.rom_list() =~= roms);
                            assert(group_read(
                                bus.events(),
                                cuts,
                                outs,
                                old(bus).events().len() as int,
                                old(self).rom_list(),
                                old(self).readings_view(),
                                self.readings_view(),
                                old(self).spec_overdrive(),
                                crc,
                                old(self).spec_toggle_pio(),
                                old(self).spec_resolution().spec_bitmask(),
                                ignore_errors,
                                false,
                                e,
                            ));
                        }
                        return Err(e);
                    }
                    self.readings.set(i, (rom, Temperature::error_value()));
                },
            }
            i = i + 1;
        }
        let mut out: Vec<(u64, Temperature)> = Vec::new();
        let mut k: usize = 0;
        while k < self.readings.len()
            invariant
                k <= self.readings@.len(),
                out@ == self.readings@.take(k as int),
            decreases self.readings@.len() - k,
        {
            out.push(self.readings[k]);
            proof {
                assert(out@ =~= self.readings@.take(k + 1));
            }
            k = k + 1;
        }
        proof {
            assert(out@ =~= self.readings@);
            assert(self.rom_list() =~= roms);
            assert(group_read(
                bus.events(),
                cuts,
                outs,
                old(bus).events().len() as int,
                old(self).rom_list(),
                old(self).readings_view(),
                self.readings_view(),
                old(self).spec_overdrive(),
                crc,
                old(self).spec_toggle_pio(),
                old(self).spec_resolution().spec_bitmask(),
                ignore_errors,
                true,
                OneWireError::Other,
            ));
        }
        Ok(out)
    }

    /// Starts a conversion on every device, waits for it, then reads the
    /// device `rom` alone (see `read_device`).
    pub fn read_temperature<B: OneWireBus, D: DelayUs>(
        &self,
        bus: &mut B,
        delay: &mut D,
        rom: u64,
        crc: bool,
    ) -> (r: Result<Temperature, OneWireError>)
        ensures
            ({
                let before = old(bus).events();
                let after = final(bus).events();
                let conv = transactions(trigger_txs(self.spec_overdrive(), self.spec_toggle_pio()));
                ||| {
                    &&& r is Err
                    &&& outcome(before, after, conv, false)
                    &&& reports(after, r)
                    &&& final(delay).waits() == old(delay).waits()
                }
                ||| {
                    &&& after.len() >= before.len() + conv.len()
                    &&& after.take((before.len() + conv.len()) as int) == before + conv
                    &&& final(delay).waits() == old(delay).waits().push(
                        self.spec_resolution().spec_delay_us(),
                    )
                    &&& device_read(
                        after.skip((before.len() + conv.len()) as int),
                        self.spec_overdrive(),
                        rom,
                        crc,
                        self.spec_toggle_pio(),
                        self.spec_resolution().spec_bitmask(),
                        r,
                    )
                }
            }),
    {
        let ghost start = bus.events();
        let ghost conv = transactions(trigger_txs(self.overdrive, self.toggle_pio));
        self.trigger_temperature_conversion(bus, delay)?;
        let ghost mid = bus.events();
        let r = read_device(bus, rom, crc, self.toggle_pio, self.overdrive, self.resolution.bitmask());
        proof {
            assert(mid == start + conv);
            assert(bus.events().take((start.len() + conv.len()) as int) =~= mid.take(mid.len() as int));
            assert(bus.events().skip((start.len() + conv.len()) as int) == bus.events().skip(mid.len() as int));
        }
        r
    }

    /// Lights (`enable`) or clears the indicator pin of the device `rom`.
    pub fn led_toggle<B: OneWireBus>(&self, bus: &mut B, rom: u64, enable: bool) -> (r: Result<
        (),
        OneWireError,
    >)
        ensures
            outcome(
                old(bus).events(),
                final(bus).events(),
                transaction(to_one(self.spec_overdrive(), rom, pulse(enable))),
                r is Ok,
            ),
            reports(final(bus).events(), r),
    {
        let tx = one_tx(self.overdrive, rom, pulse_bytes(enable).as_slice());
        run_transaction(bus, tx.as_slice())
    }

    /// Lights (`enable`) or clears the indicator pins of every device.
    pub fn led_toggle_all<B: OneWireBus>(&self, bus: &mut B, enable: bool) -> (r: Result<
        (),
        OneWireError,
    >)
        ensures
            outcome(
                old(bus).events(),
                final(bus).events(),
                transaction(to_all(self.spec_overdrive(), pulse(enable))),
                r is Ok,
            ),
            reports(final(bus).events(), r),
    {
        let tx = all_tx(self.overdrive, pulse_bytes(enable).as_slice());
        run_transaction(bus, tx.as_slice())
    }
}

impl<const N: usize> Default for Ds28ea00Group<N> {
    fn default() -> (g: Self)
        ensures
            g.wf(),
            g.readings_view().len() == 0,
            g.spec_resolution() == ReadoutResolution::Resolution12bit,
            g.spec_t_low() == -40,
            g.spec_t_high() == 85,
            !g.spec_toggle_pio(),
            !g.spec_overdrive(),
    {
        Self::new()
    }
}

} // verus!
