//! Fingerprints: the 32-bit identity of a sensor, the CRC-32 of the serial
//! number bytes of its address; and the batches built from them.

use vstd::prelude::*;

use crate::checksum::{crc32, crc32_of};
use crate::ds28ea00::Temperature;
use crate::onewire::{le_bytes, u64_le_bytes};

verus! {

/// The serial number of an address: the family byte and the check byte
/// removed.
pub open spec fn serial_of(rom: u64) -> u64 {
    (rom & 0x00ff_ffff_ffff_ffff) >> 8u64
}

/// The fingerprint of an address: the CRC-32 of the eight little-endian
/// bytes of its 48-bit serial number, the top two of which are zero.
pub open spec fn fingerprint_of(rom: u64) -> u32 {
    crc32_of(le_bytes(serial_of(rom)))
}

/// The fingerprint of the device at address `rom`.
pub fn fingerprint(rom: u64) -> (r: u32)
    ensures
        r == fingerprint_of(rom),
{
    let serial = (rom & 0x00ff_ffff_ffff_ffff) >> 8u64;
    let bytes = u64_le_bytes(serial);
    crc32(bytes.as_slice())
}

/// The batch for `readings`: each device's fingerprint with its reading,
/// in order, leaving out the devices whose fingerprint is in `exclude`.
pub open spec fn batch_of(readings: Seq<(u64, Temperature)>, exclude: Seq<u32>) -> Seq<
    (u32, Temperature),
>
    decreases readings.len(),
{
    if readings.len() == 0 {
        Seq::empty()
    } else {
        let rest = batch_of(readings.drop_last(), exclude);
        let (rom, t) = readings.last();
        if exclude.contains(fingerprint_of(rom)) {
            rest
        } else {
            rest.push((fingerprint_of(rom), t))
        }
    }
}

/// Whether `x` is in `list`.
fn contains(list: &[u32], x: u32) -> (r: bool)
    ensures
        r == list@.contains(x),
{
    let mut i: usize = 0;
    while i < list.len()
        invariant
            i <= list@.len(),
            forall|j: int| 0 <= j < i ==> list@[j] != x,
        decreases list.len() - i,
    {
        if list[i] == x {
            return true;
        }
        i = i + 1;
    }
    false
}

/// Turns a group's readings into a batch keyed by fingerprint, leaving out
/// the excluded sensors.
pub fn fingerprint_batch(readings: &[(u64, Temperature)], exclude: &[u32]) -> (r: Vec<
    (u32, Temperature),
>)
    ensures
        r@ == batch_of(readings@, exclude@),
{
    let mut out: Vec<(u32, Temperature)> = Vec::new();
    let mut i: usize = 0;
    while i < readings.len()
        invariant
            i <= readings@.len(),
            out@ == batch_of(readings@.take(i as int), exclude@),
        decreases readings.len() - i,
    {
        let (rom, t) = readings[i];
        let id = fingerprint(rom);
        proof {
            assert(readings@.take(i + 1).drop_last() =~= readings@.take(i as int));
        }
        if !contains(exclude, id) {
            out.push((id, t));
        }
        i = i + 1;
    }
    proof {
        assert(readings@.take(i as int) =~= readings@);
    }
    out
}

/// No entry of a batch carries an excluded fingerprint, whatever the
/// readings were.
pub proof fn lemma_batch_excludes(readings: Seq<(u64, Temperature)>, exclude: Seq<u32>)
    ensures
        forall|i: int|
            0 <= i < batch_of(readings, exclude).len() ==> !exclude.contains(
                #[trigger] batch_of(readings, exclude)[i].0,
            ),
    decreases readings.len(),
{
    if readings.len() > 0 {
        let prev = readings.drop_last();
        lemma_batch_excludes(prev, exclude);
        let b = batch_of(readings, exclude);
        assert forall|i: int| 0 <= i < b.len() implies !exclude.contains(#[trigger] b[i].0) by {
            if i < batch_of(prev, exclude).len() {
                assert(b[i] == batch_of(prev, exclude)[i]);
            }
        }
    }
}

/// Every device that is not excluded appears in the batch with its reading.
pub proof fn lemma_batch_keeps(readings: Seq<(u64, Temperature)>, exclude: Seq<u32>, j: int)
    requires
        0 <= j < readings.len(),
        !exclude.contains(fingerprint_of(readings[j].0)),
    ensures
        batch_of(readings, exclude).contains((fingerprint_of(readings[j].0), readings[j].1)),
    decreases readings.len(),
{
    let b = batch_of(readings, exclude);
    if j == readings.len() - 1 {
        assert(b.last() == (fingerprint_of(readings[j].0), readings[j].1));
    } else {
        let prev = readings.drop_last();
        lemma_batch_keeps(prev, exclude, j);
        let e = (fingerprint_of(readings[j].0), readings[j].1);
        let k = choose|k: int| 0 <= k < batch_of(prev, exclude).len() && batch_of(prev, exclude)[k] == e;
        assert(b[k] == e);
    }
}

} // verus!
