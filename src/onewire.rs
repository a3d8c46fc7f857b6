//! The 1-Wire bus capability that the sensor engine drives, and the event
//! trace through which contracts describe what was sent over the bus.

use vstd::prelude::*;

verus! {

/// Match ROM: addresses one device by its 64-bit ROM (standard speed).
pub const MATCH_ROM_CMD: u8 = 0x55;

/// Overdrive Match ROM: addresses one device at overdrive speed.
pub const MATCH_ROM_CMD_OD: u8 = 0x69;

/// Skip ROM: addresses every device on the bus (standard speed).
pub const SKIP_ROM_CMD: u8 = 0xcc;

/// Overdrive Skip ROM: addresses every device at overdrive speed.
pub const SKIP_ROM_CMD_OD: u8 = 0x3c;

/// The eight bytes of `x`, least significant first.
pub open spec fn le_bytes(x: u64) -> Seq<u8> {
    Seq::new(8, |i: int| (x >> ((8 * i) as u64)) as u8)
}

/// The eight bytes of `x`, least significant first.
pub fn u64_le_bytes(x: u64) -> (r: Vec<u8>)
    ensures
        r@ == le_bytes(x),
{
    let mut v: Vec<u8> = Vec::new();
    let mut i: u64 = 0;
    while i < 8
        invariant
            i <= 8,
            v@ == le_bytes(x).take(i as int),
        decreases 8 - i,
    {
        v.push((x >> (8 * i)) as u8);
        proof {
            assert(v@ =~= le_bytes(x).take(i + 1));
        }
        i = i + 1;
    }
    proof {
        assert(le_bytes(x).take(8) =~= le_bytes(x));
    }
    v
}

/// Errors reported by a 1-Wire bus or by the protocol above it.
#[derive(Debug, Clone, Copy, PartialEq, Eq, Structural)]
pub enum OneWireError {
    /// The bus adapter or its transport failed.
    Other,
    /// No device answered the reset pulse.
    NoDevicePresent,
    /// The bus is busy.
    BusInUse,
    /// The adapter's 1-Wire port is not configured.
    BusUninitialized,
    /// The bus speed does not allow the operation.
    BusInvalidSpeed,
    /// A short circuit was detected on the bus.
    ShortCircuit,
    /// The adapter does not implement the operation.
    Unimplemented,
    /// A block read from a device failed its CRC check.
    InvalidCrc,
    /// A value was out of range.
    InvalidValue,
}

/// One step in the life of a bus, as recorded by its event trace.
#[derive(Debug, Clone, Copy, PartialEq, Eq, Structural)]
pub enum BusEvent {
    /// A reset pulse that succeeded.
    Reset,
    /// A byte written to the bus.
    Write(u8),
    /// A byte read from the bus.
    Read(u8),
    /// The bus speed was switched (`true`: overdrive).
    Speed(bool),
    /// A device search for a family code, bounded by a number of results.
    Search(u8, usize),
    /// One address produced by the preceding search.
    Found(u64),
    /// An operation that failed, with the error it reported.
    Fault(OneWireError),
}

/// A 1-Wire bus: reset, byte writes and reads, the speed mode, and the
/// family-filtered device search. Every operation appends to `events`.
pub trait OneWireBus {
    /// Everything that happened on this bus so far, oldest first.
    spec fn events(&self) -> Seq<BusEvent>;

    /// Sends a reset pulse.
    fn reset(&mut self) -> (r: Result<(), OneWireError>)
        ensures
            final(self).events() == old(self).events().push(
                match r {
                    Ok(_) => BusEvent::Reset,
                    Err(e) => BusEvent::Fault(e),
                },
            ),
    ;

    /// Writes one byte.
    fn write_byte(&mut self, byte: u8) -> (r: Result<(), OneWireError>)
        ensures
            final(self).events() == old(self).events().push(
                match r {
                    Ok(_) => BusEvent::Write(byte),
                    Err(e) => BusEvent::Fault(e),
                },
            ),
    ;

    /// Reads one byte.
    fn read_byte(&mut self) -> (r: Result<u8, OneWireError>)
        ensures
            final(self).events() == old(self).events().push(
                match r {
                    Ok(v) => BusEvent::Read(v),
                    Err(e) => BusEvent::Fault(e),
                },
            ),
    ;

    /// Switches the bus between standard speed and overdrive.
    fn set_overdrive_mode(&mut self, enable: bool) -> (r: Result<(), OneWireError>)
        ensures
            final(self).events() == old(self).events().push(
                match r {
                    Ok(_) => BusEvent::Speed(enable),
                    Err(e) => BusEvent::Fault(e),
                },
            ),
    ;

    /// Searches the bus for devices of one family and returns at most
    /// `limit` of their addresses, in the order the search finds them.
    fn search(&mut self, family: u8, limit: usize) -> (r: Result<Vec<u64>, OneWireError>)
        ensures
            match r {
                Ok(found) => {
                    &&& found@.len() <= limit
                    &&& final(self).events() == old(self).events() + search_events(
                        family,
                        limit,
                        found@,
                    )
                },
                Err(e) => final(self).events() == old(self).events().push(BusEvent::Fault(e)),
            },
    ;
}

/// The events of a search that returned `found`.
pub open spec fn search_events(family: u8, limit: usize, found: Seq<u64>) -> Seq<BusEvent> {
    seq![BusEvent::Search(family, limit)] + found.map_values(|a: u64| BusEvent::Found(a))
}

/// The events of writing `bytes` one after the other.
pub open spec fn writes(bytes: Seq<u8>) -> Seq<BusEvent> {
    bytes.map_values(|b: u8| BusEvent::Write(b))
}

/// The events of reading `bytes` one after the other.
pub open spec fn reads(bytes: Seq<u8>) -> Seq<BusEvent> {
    bytes.map_values(|b: u8| BusEvent::Read(b))
}

/// The events of one transaction: a reset followed by `bytes`, which start
/// with the addressing command.
pub open spec fn transaction(bytes: Seq<u8>) -> Seq<BusEvent> {
    seq![BusEvent::Reset] + writes(bytes)
}

/// Whether a failed result is the error of the last event of `after`: the
/// failure that ended the run is reported unchanged.
pub open spec fn reports<T>(after: Seq<BusEvent>, r: Result<T, OneWireError>) -> bool {
    r is Err ==> after.len() > 0 && after.last() == BusEvent::Fault(r->Err_0)
}

/// How a run of operations that was meant to produce `expected` ended: all
/// of it (`ok`), or a prefix of it followed by the failed operation.
pub open spec fn outcome(
    before: Seq<BusEvent>,
    after: Seq<BusEvent>,
    expected: Seq<BusEvent>,
    ok: bool,
) -> bool {
    if ok {
        after == before + expected
    } else {
        &&& before.len() < after.len() <= before.len() + expected.len()
        &&& after == before + expected.take(after.len() - before.len() - 1).push(after.last())
        &&& after.last() is Fault
    }
}

/// A run that succeeded, followed by another run, is a run of both.
pub proof fn lemma_outcome_then(
    before: Seq<BusEvent>,
    mid: Seq<BusEvent>,
    after: Seq<BusEvent>,
    first: Seq<BusEvent>,
    second: Seq<BusEvent>,
    ok: bool,
)
    requires
        outcome(before, mid, first, true),
        outcome(mid, after, second, ok),
    ensures
        outcome(before, after, first + second, ok),
{
    if ok {
        assert(after =~= before + (first + second));
    } else {
        let k = after.len() - mid.len() - 1;
        assert((first + second).take(first.len() + k) =~= first + second.take(k));
        assert(after =~= before + (first + second).take(after.len() - before.len() - 1).push(
            after.last(),
        ));
    }
}

/// A run that failed stays a failed run when more was meant to follow.
pub proof fn lemma_outcome_failed_early(
    before: Seq<BusEvent>,
    after: Seq<BusEvent>,
    first: Seq<BusEvent>,
    second: Seq<BusEvent>,
)
    requires
        outcome(before, after, first, false),
    ensures
        outcome(before, after, first + second, false),
{
    let k = after.len() - before.len() - 1;
    assert((first + second).take(k) =~= first.take(k));
}

/// Writes `bytes` in order, stopping at the first failure.
pub fn write_bytes<B: OneWireBus>(bus: &mut B, bytes: &[u8]) -> (r: Result<(), OneWireError>)
    ensures
        outcome(old(bus).events(), final(bus).events(), writes(bytes@), r is Ok),
        reports(final(bus).events(), r),
{
    let ghost start = bus.events();
    let mut i: usize = 0;
    while i < bytes.len()
        invariant
            i <= bytes.len(),
            start == old(bus).events(),
            bus.events() == start + writes(bytes@.take(i as int)),
        decreases bytes.len() - i,
    {
        let r = bus.write_byte(bytes[i]);
        if r.is_err() {
            proof {
                assert(writes(bytes@).take(i as int) =~= writes(bytes@.take(i as int)));
                assert(bus.events() =~= start + writes(bytes@).take(i as int).push(
                    bus.events().last(),
                ));
            }
            return r;
        }
        proof {
            assert(writes(bytes@.take(i + 1)) =~= writes(bytes@.take(i as int)).push(
                BusEvent::Write(bytes@[i as int]),
            ));
        }
        i = i + 1;
    }
    proof {
        assert(bytes@.take(i as int) =~= bytes@);
    }
    Ok(())
}

/// Runs one transaction: a reset, then `bytes`.
pub fn run_transaction<B: OneWireBus>(bus: &mut B, bytes: &[u8]) -> (r: Result<(), OneWireError>)
    ensures
        outcome(old(bus).events(), final(bus).events(), transaction(bytes@), r is Ok),
        reports(final(bus).events(), r),
{
    let ghost start = bus.events();
    let r = bus.reset();
    if r.is_err() {
        proof {
            assert(transaction(bytes@).take(0) =~= Seq::<BusEvent>::empty());
            assert(bus.events() =~= start + transaction(bytes@).take(0).push(bus.events().last()));
        }
        return r;
    }
    let ghost mid = bus.events();
    proof {
        assert(mid =~= start + seq![BusEvent::Reset]);
    }
    let r = write_bytes(bus, bytes);
    proof {
        lemma_outcome_then(start, mid, bus.events(), seq![BusEvent::Reset], writes(bytes@), r is Ok);
    }
    r
}

/// The events of several transactions run one after the other.
pub open spec fn transactions(txs: Seq<Seq<u8>>) -> Seq<BusEvent>
    decreases txs.len(),
{
    if txs.len() == 0 {
        Seq::empty()
    } else {
        transactions(txs.drop_last()) + transaction(txs.last())
    }
}

/// The byte contents of a list of byte vectors.
pub open spec fn byte_rows(rows: Seq<Vec<u8>>) -> Seq<Seq<u8>> {
    rows.map_values(|r: Vec<u8>| r@)
}

/// Running two lists of transactions is running their concatenation.
pub proof fn lemma_transactions_concat(a: Seq<Seq<u8>>, b: Seq<Seq<u8>>)
    ensures
        transactions(a + b) == transactions(a) + transactions(b),
    decreases b.len(),
{
    if b.len() == 0 {
        assert(a + b =~= a);
        assert(transactions(a) + transactions(b) =~= transactions(a));
    } else {
        lemma_transactions_concat(a, b.drop_last());
        assert((a + b).drop_last() =~= a + b.drop_last());
        assert(transactions(a + b) =~= transactions(a) + transactions(b));
    }
}

/// Runs `txs` in order, stopping at the first failure.
pub fn run_transactions<B: OneWireBus>(bus: &mut B, txs: &Vec<Vec<u8>>) -> (r: Result<
    (),
    OneWireError,
>)
    ensures
        outcome(old(bus).events(), final(bus).events(), transactions(byte_rows(txs@)), r is Ok),
        reports(final(bus).events(), r),
{
    let ghost start = bus.events();
    let ghost rows = byte_rows(txs@);
    let mut i: usize = 0;
    while i < txs.len()
        invariant
            i <= txs.len(),
            start == old(bus).events(),
            rows == byte_rows(txs@),
            bus.events() == start + transactions(rows.take(i as int)),
        decreases txs.len() - i,
    {
        let ghost mid = bus.events();
        let r = run_transaction(bus, txs[i].as_slice());
        proof {
            assert(rows.take(i + 1).drop_last() =~= rows.take(i as int));
            assert(rows.take(i + 1).last() == txs@[i as int]@);
            assert(mid == start + transactions(rows.take(i as int)));
            assert(outcome(start, mid, transactions(rows.take(i as int)), true)) by {
                assert(mid =~= start + transactions(rows.take(i as int)));
            }
            lemma_outcome_then(
                start,
                mid,
                bus.events(),
                transactions(rows.take(i as int)),
                transaction(txs@[i as int]@),
                r is Ok,
            );
        }
        if r.is_err() {
            proof {
                lemma_transactions_concat(rows.take(i + 1), rows.skip(i + 1));
                assert(rows.take(i + 1) + rows.skip(i + 1) =~= rows);
                lemma_outcome_failed_early(
                    start,
                    bus.events(),
                    transactions(rows.take(i + 1)),
                    transactions(rows.skip(i + 1)),
                );
            }
            return r;
        }
        i = i + 1;
    }
    proof {
        assert(rows.take(i as int) =~= rows);
    }
    Ok(())
}

/// A way to wait: the engine suspends through it while a conversion runs.
pub trait DelayUs {
    /// Every wait so far, in microseconds, oldest first.
    spec fn waits(&self) -> Seq<u32>;

    /// Suspends the caller for `us` microseconds.
    fn delay_us(&mut self, us: u32)
        ensures
            final(self).waits() == old(self).waits().push(us),
    ;
}

/// The raw operations of a 1-Wire bus master, as hardware drivers provide
/// them. `TracedBus` turns one into a `OneWireBus`.
pub trait OneWireMaster {
    /// Sends a reset pulse.
    fn reset(&mut self) -> Result<(), OneWireError>;

    /// Writes one byte.
    fn write_byte(&mut self, byte: u8) -> Result<(), OneWireError>;

    /// Reads one byte.
    fn read_byte(&mut self) -> Result<u8, OneWireError>;

    /// Switches between standard speed and overdrive.
    fn set_overdrive_mode(&mut self, enable: bool) -> Result<(), OneWireError>;

    /// Searches for devices of one family, returning at most `limit` of their
    /// addresses in the order found.
    fn search(&mut self, family: u8, limit: usize) -> Result<Vec<u64>, OneWireError>;
}

/// A bus master together with the record of everything done through it.
pub struct TracedBus<M> {
    master: M,
    log: Ghost<Seq<BusEvent>>,
}

impl<M: OneWireMaster> TracedBus<M> {
    /// Starts recording the operations on `master`.
    pub fn new(master: M) -> (b: TracedBus<M>)
        ensures
            b.events() == Seq::<BusEvent>::empty(),
    {
        TracedBus { master, log: Ghost(Seq::empty()) }
    }
}

impl<M: OneWireMaster> OneWireBus for TracedBus<M> {
    closed spec fn events(&self) -> Seq<BusEvent> {
        self.log@
    }

    fn reset(&mut self) -> (r: Result<(), OneWireError>) {
        let r = self.master.reset();
        self.log = Ghost(
            self.log@.push(
                match r {
                    Ok(_) => BusEvent::Reset,
                    Err(e) => BusEvent::Fault(e),
                },
            ),
        );
        r
    }

    fn write_byte(&mut self, byte: u8) -> (r: Result<(), OneWireError>) {
        let r = self.master.write_byte(byte);
        self.log = Ghost(
            self.log@.push(
                match r {
                    Ok(_) => BusEvent::Write(byte),
                    Err(e) => BusEvent::Fault(e),
                },
            ),
        );
        r
    }

    fn read_byte(&mut self) -> (r: Result<u8, OneWireError>) {
        let r = self.master.read_byte();
        self.log = Ghost(
            self.log@.push(
                match r {
                    Ok(v) => BusEvent::Read(v),
                    Err(e) => BusEvent::Fault(e),
                },
            ),
        );
        r
    }

    fn set_overdrive_mode(&mut self, enable: bool) -> (r: Result<(), OneWireError>) {
        let r = self.master.set_overdrive_mode(enable);
        self.log = Ghost(
            self.log@.push(
                match r {
                    Ok(_) => BusEvent::Speed(enable),
                    Err(e) => BusEvent::Fault(e),
                },
            ),
        );
        r
    }

    fn search(&mut self, family: u8, limit: usize) -> (r: Result<Vec<u64>, OneWireError>) {
        match self.master.search(family, limit) {
            Ok(all) => {
                let mut found: Vec<u64> = Vec::new();
                let mut i: usize = 0;
                while i < all.len() && i < limit
                    invariant
                        i <= all@.len(),
                        i <= limit,
                        found@ == all@.take(i as int),
                    decreases all.len() - i,
                {
                    found.push(all[i]);
                    proof {
                        assert(found@ =~= all@.take(i + 1));
                    }
                    i = i + 1;
                }
                self.log = Ghost(self.log@ + search_events(family, limit, found@));
                Ok(found)
            },
            Err(e) => {
                self.log = Ghost(self.log@.push(BusEvent::Fault(e)));
                Err(e)
            },
        }
    }
}

/// A blocking wait, as hardware drivers provide it. `TracedDelay` turns one
/// into a `DelayUs`.
pub trait BlockingDelay {
    /// Suspends the caller for `us` microseconds.
    fn delay_us(&mut self, us: u32);
}

/// A blocking wait together with the record of every wait made through it.
pub struct TracedDelay<D> {
    inner: D,
    log: Ghost<Seq<u32>>,
}

impl<D: BlockingDelay> TracedDelay<D> {
    /// Starts recording the waits made through `inner`.
    pub fn new(inner: D) -> (d: TracedDelay<D>)
        ensures
            d.waits() == Seq::<u32>::empty(),
    {
        TracedDelay { inner, log: Ghost(Seq::empty()) }
    }
}

impl<D: BlockingDelay> DelayUs for TracedDelay<D> {
    closed spec fn waits(&self) -> Seq<u32> {
        self.log@
    }

    fn delay_us(&mut self, us: u32) {
        self.inner.delay_us(us);
        self.log = Ghost(self.log@.push(us));
    }
}

} // verus!
