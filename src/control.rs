//! The inbound control channel: detecting the reboot request in whatever
//! bytes arrive on the serial line, and the boot configuration rewrite that
//! it triggers.

use vstd::prelude::*;

verus! {

/// The command (`tmu_bootloader`) that asks the host to reboot into the other USB gadget mode.
pub const REBOOT_TOKEN: [u8; 14] = [0x74, 0x6d, 0x75, 0x5f, 0x62, 0x6f, 0x6f, 0x74, 0x6c, 0x6f, 0x61, 0x64, 0x65, 0x72];

/// The boot configuration marker (`g_serial`) that selects the serial gadget.
pub const SERIAL_GADGET: [u8; 8] = [0x67, 0x5f, 0x73, 0x65, 0x72, 0x69, 0x61, 0x6c];

/// The marker (`g_ether`) that replaces it, selecting the network gadget.
pub const ETHER_GADGET: [u8; 7] = [0x67, 0x5f, 0x65, 0x74, 0x68, 0x65, 0x72];

/// The UTF-8 bytes of `bytes` decoded lossily (each invalid sequence
/// replaced by U+FFFD).
pub uninterp spec fn lossy_utf8(bytes: Seq<u8>) -> Seq<u8>;

/// Relies on `String::from_utf8_lossy`: the text of the bytes, with invalid
/// sequences replaced, here as its UTF-8 bytes.
#[verifier::external_body]
fn from_utf8_lossy_bytes(bytes: &[u8]) -> (r: Vec<u8>)
    ensures
        r@ == lossy_utf8(bytes@),
        bytes@.len() == 0 ==> r@.len() == 0,
{
    String::from_utf8_lossy(bytes).into_owned().into_bytes()
}

/// Whether `needle` occurs in `hay` starting at `at`.
pub open spec fn occurs_at(hay: Seq<u8>, needle: Seq<u8>, at: int) -> bool {
    0 <= at && at + needle.len() <= hay.len() && hay.subrange(at, at + needle.len()) == needle
}

/// Whether `needle` occurs anywhere in `hay`.
pub open spec fn occurs(hay: Seq<u8>, needle: Seq<u8>) -> bool {
    exists|at: int| #[trigger] occurs_at(hay, needle, at)
}

/// `s` with every occurrence of `from` replaced by `to`, scanning from the
/// left and never overlapping.
pub open spec fn replace_all(s: Seq<u8>, from: Seq<u8>, to: Seq<u8>) -> Seq<u8>
    recommends
        from.len() > 0,
    decreases s.len(),
{
    if from.len() == 0 || s.len() < from.len() {
        s
    } else if s.take(from.len() as int) == from {
        to + replace_all(s.skip(from.len() as int), from, to)
    } else {
        seq![s[0]] + replace_all(s.skip(1), from, to)
    }
}

/// Whether `needle` occurs in `hay` starting at `at`.
fn matches_at(hay: &[u8], needle: &[u8], at: usize) -> (r: bool)
    requires
        at <= hay@.len(),
    ensures
        r == occurs_at(hay@, needle@, at as int),
{
    let hay_len = hay.len();
    if needle.len() > hay_len - at {
        return false;
    }
    let mut k: usize = 0;
    while k < needle.len()
        invariant
            hay_len == hay@.len(),
            at + needle@.len() <= hay@.len(),
            k <= needle@.len(),
            hay@.subrange(at as int, at + k) == needle@.take(k as int),
        decreases needle.len() - k,
    {
        if hay[at + k] != needle[k] {
            proof {
                assert(hay@.subrange(at as int, at + needle@.len())[k as int] != needle@[k as int]);
            }
            return false;
        }
        proof {
            assert(hay@.subrange(at as int, at + k + 1) =~= needle@.take(k + 1));
        }
        k = k + 1;
    }
    proof {
        assert(needle@.take(k as int) =~= needle@);
    }
    true
}

/// Whether `needle` occurs anywhere in `hay`.
pub fn contains_bytes(hay: &[u8], needle: &[u8]) -> (r: bool)
    ensures
        r == occurs(hay@, needle@),
{
    let mut at: usize = 0;
    while at < hay.len()
        invariant
            at <= hay@.len(),
            forall|j: int| 0 <= j < at ==> !#[trigger] occurs_at(hay@, needle@, j),
        decreases hay@.len() - at,
    {
        if matches_at(hay, needle, at) {
            return true;
        }
        at = at + 1;
    }
    if matches_at(hay, needle, at) {
        return true;
    }
    proof {
        assert forall|j: int| !#[trigger] occurs_at(hay@, needle@, j) by {
            if 0 <= j < at {
            }
        }
    }
    false
}

/// `text` with every occurrence of `from` replaced by `to`, scanning from
/// the left and never overlapping.
pub fn replace_bytes(text: &[u8], from: &[u8], to: &[u8]) -> (r: Vec<u8>)
    requires
        from@.len() > 0,
    ensures
        r@ == replace_all(text@, from@, to@),
{
    let mut out: Vec<u8> = Vec::new();
    let mut i: usize = 0;
    proof {
        assert(text@.skip(0) =~= text@);
        assert(out@ + replace_all(text@, from@, to@) =~= replace_all(text@, from@, to@));
    }
    while i < text.len()
        invariant
            i <= text@.len(),
            from@.len() > 0,
            out@ + replace_all(text@.skip(i as int), from@, to@) == replace_all(text@, from@, to@),
        decreases text@.len() - i,
    {
        let ghost rest = text@.skip(i as int);
        if matches_at(text, from, i) {
            let mut k: usize = 0;
            let ghost before = out@;
            while k < to.len()
                invariant
                    k <= to@.len(),
                    out@ == before + to@.take(k as int),
                decreases to.len() - k,
            {
                out.push(to[k]);
                proof {
                    assert(out@ =~= before + to@.take(k + 1));
                }
                k = k + 1;
            }
            proof {
                assert(rest.take(from@.len() as int) =~= text@.subrange(i as int, i + from@.len()));
                assert(rest.skip(from@.len() as int) =~= text@.skip(i + from@.len()));
                assert(to@.take(k as int) =~= to@);
                assert(out@ + replace_all(text@.skip(i + from@.len()), from@, to@) =~= before
                    + replace_all(rest, from@, to@));
            }
            i = i + from.len();
        } else {
            proof {
                if rest.len() >= from@.len() {
                    assert(rest.take(from@.len() as int) =~= text@.subrange(i as int, i + from@.len()));
                }
                assert(rest.skip(1) =~= text@.skip(i + 1));
                assert(out@.push(text@[i as int]) + replace_all(text@.skip(i + 1), from@, to@) =~= out@
                    + replace_all(rest, from@, to@));
            }
            out.push(text[i]);
            i = i + 1;
        }
    }
    proof {
        assert(text@.skip(i as int) =~= Seq::<u8>::empty());
        assert(out@ + Seq::<u8>::empty() =~= out@);
    }
    out
}

/// Whether bytes received on the control channel ask for a reboot: the
/// token occurs in their lossy UTF-8 decoding.
pub fn is_reboot_request(received: &[u8]) -> (r: bool)
    ensures
        r == occurs(lossy_utf8(received@), REBOOT_TOKEN@),
{
    let text = from_utf8_lossy_bytes(received);
    let token = REBOOT_TOKEN;
    contains_bytes(text.as_slice(), token.as_slice())
}

/// The boot configuration with the serial gadget swapped for the network
/// gadget.
pub fn rewrite_boot_config(content: &[u8]) -> (r: Vec<u8>)
    ensures
        r@ == replace_all(content@, SERIAL_GADGET@, ETHER_GADGET@),
{
    let from = SERIAL_GADGET;
    let to = ETHER_GADGET;
    replace_bytes(content, from.as_slice(), to.as_slice())
}

} // verus!
