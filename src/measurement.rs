//! Measurement batches and their wire format: each record is an 8-byte tag
//! naming the kind, then the 4-byte little-endian fingerprint and the 4-byte
//! little-endian value (the bit pattern of an IEEE-754 single).

use vstd::prelude::*;

verus! {

/// Tag that starts every temperature record.
pub const TEMPERATURE_TAG: [u8; 8] = [0x43, 0x48, 0x52, 0x49, 0x53, 0x2c, 0x54, 0x2c];

/// Tag that starts every humidity record.
pub const HUMIDITY_TAG: [u8; 8] = [0x43, 0x48, 0x52, 0x49, 0x53, 0x2c, 0x48, 0x2c];

/// A batch of readings of one kind: pairs of a sensor fingerprint and the
/// bit pattern of a single-precision value.
#[derive(Debug, Clone, PartialEq, Eq)]
pub enum Measurement {
    /// Temperatures, in °C.
    Temperature(Vec<(u32, u32)>),
    /// Relative humidities, in %.
    Humidity(Vec<(u32, u32)>),
}

/// The tag of a record: temperature (`true`) or humidity.
pub open spec fn tag(temperature: bool) -> Seq<u8> {
    if temperature {
        seq![0x43u8, 0x48, 0x52, 0x49, 0x53, 0x2c, 0x54, 0x2c]
    } else {
        seq![0x43u8, 0x48, 0x52, 0x49, 0x53, 0x2c, 0x48, 0x2c]
    }
}

/// Byte `k` (0 is the least significant) of `x`.
pub open spec fn byte_of(x: u32, k: int) -> u8 {
    ((x >> ((8 * k) as u32)) & 0xff) as u8
}

/// The four bytes of `x`, least significant first.
pub open spec fn le32(x: u32) -> Seq<u8> {
    seq![byte_of(x, 0), byte_of(x, 1), byte_of(x, 2), byte_of(x, 3)]
}

/// The value whose little-endian bytes are `b[at..at + 4]`.
pub open spec fn from_le32(b: Seq<u8>, at: int) -> u32 {
    (b[at] as u32) | ((b[at + 1] as u32) << 8u32) | ((b[at + 2] as u32) << 16u32) | ((
    b[at + 3] as u32) << 24u32)
}

/// One record on the wire.
pub open spec fn record(temperature: bool, entry: (u32, u32)) -> Seq<u8> {
    tag(temperature) + le32(entry.0) + le32(entry.1)
}

/// The records of `entries`, one after the other.
pub open spec fn encode(temperature: bool, entries: Seq<(u32, u32)>) -> Seq<u8>
    decreases entries.len(),
{
    if entries.len() == 0 {
        Seq::empty()
    } else {
        encode(temperature, entries.drop_last()) + record(temperature, entries.last())
    }
}

/// Reads a batch back from its wire bytes: there must be at least one
/// record, all records whole, and all of them carrying the same known tag.
pub open spec fn decode(b: Seq<u8>) -> Option<(bool, Seq<(u32, u32)>)> {
    let n = b.len() / 16;
    let temperature = b.take(8) == tag(true);
    if b.len() == 0 || b.len() % 16 != 0 {
        None
    } else if b.take(8) != tag(true) && b.take(8) != tag(false) {
        None
    } else if exists|i: int| 0 <= i < n && #[trigger] b.subrange(16 * i, 16 * i + 8) != tag(temperature) {
        None
    } else {
        Some((temperature, Seq::new(n as nat, |i: int| (from_le32(b, 16 * i + 8), from_le32(b, 16 * i + 12)))))
    }
}

impl Measurement {
    /// Whether this is a temperature batch.
    pub open spec fn is_temperature(&self) -> bool {
        self is Temperature
    }

    /// The (fingerprint, value bits) pairs of the batch.
    pub open spec fn entries(&self) -> Seq<(u32, u32)> {
        match self {
            Measurement::Temperature(v) => v@,
            Measurement::Humidity(v) => v@,
        }
    }

    /// The wire bytes of the batch: one tagged record per entry.
    pub fn to_le_bytes(&self) -> (out: Vec<u8>)
        ensures
            out@ == encode(self.is_temperature(), self.entries()),
    {
        let (temperature, data) = match self {
            Measurement::Temperature(d) => (true, d),
            Measurement::Humidity(d) => (false, d),
        };
        let mut out: Vec<u8> = Vec::new();
        let mut i: usize = 0;
        while i < data.len()
            invariant
                i <= data@.len(),
                data@ == self.entries(),
                temperature == self.is_temperature(),
                out@ == encode(temperature, data@.take(i as int)),
            decreases data.len() - i,
        {
            let (id, value) = data[i];
            let ghost before = out@;
            let mut k: usize = 0;
            while k < 8
                invariant
                    k <= 8,
                    out@ == before + tag(temperature).take(k as int),
                decreases 8 - k,
            {
                out.push(if temperature { TEMPERATURE_TAG[k] } else { HUMIDITY_TAG[k] });
                proof {
                    assert(out@ =~= before + tag(temperature).take(k + 1));
                }
                k = k + 1;
            }
            push_le32(&mut out, id);
            push_le32(&mut out, value);
            proof {
                assert(data@.take(i + 1).drop_last() =~= data@.take(i as int));
                assert(out@ =~= encode(temperature, data@.take(i + 1)));
            }
            i = i + 1;
        }
        proof {
            assert(data@.take(i as int) =~= data@);
        }
        out
    }

    /// Reads a batch back from wire bytes; `None` unless `decode` accepts
    /// them.
    pub fn from_le_bytes(bytes: &[u8]) -> (r: Option<Measurement>)
        ensures
            match r {
                Some(m) => decode(bytes@) == Some((m.is_temperature(), m.entries())),
                None => decode(bytes@) is None,
            },
    {
        let n = bytes.len();
        if n == 0 || n % 16 != 0 {
            return None;
        }
        let temperature = if tag_at(bytes, 0, true) {
            true
        } else if tag_at(bytes, 0, false) {
            false
        } else {
            proof {
                assert(bytes@.subrange(0, 8) =~= bytes@.take(8));
            }
            return None;
        };
        proof {
            assert(bytes@.subrange(0, 8) =~= bytes@.take(8));
        }
        let count = n / 16;
        let mut entries: Vec<(u32, u32)> = Vec::new();
        let mut i: usize = 0;
        while i < count
            invariant
                count == bytes@.len() / 16,
                n == bytes@.len(),
                bytes@.len() % 16 == 0,
                bytes@.len() > 0,
                temperature == (bytes@.take(8) == tag(true)),
                bytes@.take(8) == tag(true) || bytes@.take(8) == tag(false),
                i <= count,
                entries@ == Seq::new(
                    i as nat,
                    |j: int| (from_le32(bytes@, 16 * j + 8), from_le32(bytes@, 16 * j + 12)),
                ),
                forall|j: int| 0 <= j < i ==> #[trigger] bytes@.subrange(16 * j, 16 * j + 8) == tag(temperature),
            decreases count - i,
        {
            assert(16 * i + 16 <= n) by (nonlinear_arith)
                requires
                    i < count,
                    count == n / 16,
                    n % 16 == 0,
            ;
            let at = 16 * i;
            if !tag_at(bytes, at, temperature) {
                proof {
                    let ii = i as int;
                    assert(bytes@.subrange(16 * ii, 16 * ii + 8) != tag(temperature));
                }
                return None;
            }
            let id = le32_at(bytes, at + 8);
            let value = le32_at(bytes, at + 12);
            entries.push((id, value));
            proof {
                assert(entries@ =~= Seq::new(
                    (i + 1) as nat,
                    |j: int| (from_le32(bytes@, 16 * j + 8), from_le32(bytes@, 16 * j + 12)),
                ));
            }
            i = i + 1;
        }
        if temperature {
            Some(Measurement::Temperature(entries))
        } else {
            Some(Measurement::Humidity(entries))
        }
    }
}

/// Whether `bytes[at..at + 8]` is the tag of the given kind.
fn tag_at(bytes: &[u8], at: usize, temperature: bool) -> (r: bool)
    requires
        at + 8 <= bytes@.len(),
    ensures
        r == (bytes@.subrange(at as int, at + 8) == tag(temperature)),
{
    let len = bytes.len();
    let mut k: usize = 0;
    while k < 8
        invariant
            k <= 8,
            len == bytes@.len(),
            at + 8 <= bytes@.len(),
            bytes@.subrange(at as int, at + k) == tag(temperature).take(k as int),
        decreases 8 - k,
    {
        let expected = if temperature { TEMPERATURE_TAG[k] } else { HUMIDITY_TAG[k] };
        if bytes[at + k] != expected {
            proof {
                assert(bytes@.subrange(at as int, at + 8)[k as int] != tag(temperature)[k as int]);
            }
            return false;
        }
        proof {
            assert(bytes@.subrange(at as int, at + k + 1) =~= tag(temperature).take(k + 1));
        }
        k = k + 1;
    }
    proof {
        assert(tag(temperature).take(8) =~= tag(temperature));
    }
    true
}

/// The value whose little-endian bytes are `bytes[at..at + 4]`.
fn le32_at(bytes: &[u8], at: usize) -> (r: u32)
    requires
        at + 4 <= bytes@.len(),
    ensures
        r == from_le32(bytes@, at as int),
{
    let len = bytes.len();
    (bytes[at] as u32) | ((bytes[at + 1] as u32) << 8u32) | ((bytes[at + 2] as u32) << 16u32) | ((
    bytes[at + 3] as u32) << 24u32)
}

/// Four bytes taken apart and put back together give the same value.
proof fn lemma_le32_round_trip(x: u32)
    ensures
        from_le32(le32(x), 0) == x,
{
    let b0 = ((x >> 0u32) & 0xff) as u8;
    let b1 = ((x >> 8u32) & 0xff) as u8;
    let b2 = ((x >> 16u32) & 0xff) as u8;
    let b3 = ((x >> 24u32) & 0xff) as u8;
    assert(le32(x) == seq![b0, b1, b2, b3]);
    assert((b0 as u32) | ((b1 as u32) << 8u32) | ((b2 as u32) << 16u32) | ((b3 as u32) << 24u32)
        == x) by (bit_vector)
        requires
            b0 == ((x >> 0u32) & 0xff) as u8,
            b1 == ((x >> 8u32) & 0xff) as u8,
            b2 == ((x >> 16u32) & 0xff) as u8,
            b3 == ((x >> 24u32) & 0xff) as u8,
    ;
}

/// Where each record of an encoded batch lies.
proof fn lemma_encode_layout(temperature: bool, entries: Seq<(u32, u32)>)
    ensures
        encode(temperature, entries).len() == 16 * entries.len(),
        forall|i: int, k: int|
            0 <= i < entries.len() && 0 <= k < 16 ==> #[trigger] encode(temperature, entries)[16 * i
                + k] == record(temperature, entries[i])[k],
    decreases entries.len(),
{
    if entries.len() > 0 {
        let prev = entries.drop_last();
        lemma_encode_layout(temperature, prev);
        assert forall|i: int, k: int|
            0 <= i < entries.len() && 0 <= k < 16 implies #[trigger] encode(temperature, entries)[16
                * i + k] == record(temperature, entries[i])[k] by {
            if i < prev.len() {
                assert(encode(temperature, prev)[16 * i + k] == record(temperature, prev[i])[k]);
            }
        }
    }
}

/// Decoding the wire bytes of a batch gives the batch back. An empty batch
/// has no bytes, so it carries no kind and is left out.
pub proof fn lemma_wire_round_trip(temperature: bool, entries: Seq<(u32, u32)>)
    requires
        entries.len() > 0,
    ensures
        decode(encode(temperature, entries)) == Some((temperature, entries)),
{
    let b = encode(temperature, entries);
    lemma_encode_layout(temperature, entries);
    let n = entries.len();
    assert(b.len() / 16 == n);
    assert forall|i: int| 0 <= i < n implies #[trigger] b.subrange(16 * i, 16 * i + 8) == tag(temperature) by {
        assert forall|k: int| 0 <= k < 8 implies b.subrange(16 * i, 16 * i + 8)[k] == tag(temperature)[k] by {
            assert(b[16 * i + k] == record(temperature, entries[i])[k]);
        }
        assert(b.subrange(16 * i, 16 * i + 8) =~= tag(temperature));
    }
    assert(b.take(8) =~= b.subrange(0, 8));
    assert(b.subrange(16 * 0int, 16 * 0int + 8) == tag(temperature));
    assert(tag(true) != tag(false)) by {
        assert(tag(true)[6] != tag(false)[6]);
    }
    let decoded = Seq::new(n, |i: int| (from_le32(b, 16 * i + 8), from_le32(b, 16 * i + 12)));
    assert forall|i: int| 0 <= i < n implies #[trigger] decoded[i] == entries[i] by {
        let r = record(temperature, entries[i]);
        assert forall|k: int| 0 <= k < 4 implies b[16 * i + 8 + k] == le32(entries[i].0)[k] && b[16 * i
            + 12 + k] == le32(entries[i].1)[k] by {
            assert(b[16 * i + (8 + k)] == r[8 + k]);
            assert(b[16 * i + (12 + k)] == r[12 + k]);
        }
        lemma_le32_round_trip(entries[i].0);
        lemma_le32_round_trip(entries[i].1);
    }
    assert(decoded =~= entries);
}

/// Appends the four bytes of `x`, least significant first.
fn push_le32(out: &mut Vec<u8>, x: u32)
    ensures
        final(out)@ == old(out)@ + le32(x),
{
    assert((x & 0xff) < 256 && ((x >> 8) & 0xff) < 256 && ((x >> 16) & 0xff) < 256 && ((x >> 24)
        & 0xff) < 256) by (bit_vector);
    assert(x == x >> 0u32) by (bit_vector);
    out.push((x & 0xff) as u8);
    out.push(((x >> 8) & 0xff) as u8);
    out.push(((x >> 16) & 0xff) as u8);
    out.push(((x >> 24) & 0xff) as u8);
    proof {
        assert(out@ =~= old(out)@ + le32(x));
    }
}

} // verus!
