//! A simulated 1-Wire bus and a recording delay, for exercising the sensor
//! engine without hardware.

use vstd::prelude::*;

use crate::onewire::{search_events, BusEvent, DelayUs, OneWireBus, OneWireError};

verus! {

/// The addresses a search for `family` finds among `devices`, at most
/// `limit` of them, in bus order.
pub open spec fn sim_found(devices: Seq<u64>, family: u8, limit: nat) -> Seq<u64> {
    let matching = devices.filter(|a: u64| (a % 256) as u8 == family);
    if matching.len() <= limit {
        matching
    } else {
        matching.take(limit as int)
    }
}

/// A bus with a fixed set of devices. Reads are served from a script of
/// bytes (0xff once it runs out, as on an idle bus), and the operations at
/// chosen positions of the trace fail.
pub struct SimBus {
    devices: Vec<u64>,
    responses: Vec<u8>,
    next_response: usize,
    faults: Vec<usize>,
    log: Vec<BusEvent>,
    overdrive: bool,
}

impl SimBus {
    /// A bus holding `devices` (in search order) that answers reads with
    /// `responses` and fails the operations whose position in the trace is
    /// listed in `faults`.
    pub fn new(devices: Vec<u64>, responses: Vec<u8>, faults: Vec<usize>) -> (b: SimBus)
        ensures
            b.events() == Seq::<BusEvent>::empty(),
            b.spec_devices() == devices@,
    {
        SimBus { devices, responses, next_response: 0, faults, log: Vec::new(), overdrive: false }
    }

    /// The devices on the bus, in search order.
    pub closed spec fn spec_devices(&self) -> Seq<u64> {
        self.devices@
    }

    /// Everything that happened on the bus so far.
    pub fn log(&self) -> (r: &Vec<BusEvent>)
        ensures
            r@ == self.events(),
    {
        &self.log
    }

    /// Whether the bus is at overdrive speed.
    pub fn overdrive_mode(&self) -> bool {
        self.overdrive
    }

    /// Whether the next operation is one of those chosen to fail.
    fn fails_now(&self) -> bool {
        let at = self.log.len();
        let mut i: usize = 0;
        while i < self.faults.len()
            decreases self.faults.len() - i,
        {
            if self.faults[i] == at {
                return true;
            }
            i = i + 1;
        }
        false
    }

    /// The devices a search for `family` finds, at most `limit`, in order.
    pub fn matching(&self, family: u8, limit: usize) -> (r: Vec<u64>)
        ensures
            r@ == sim_found(self.spec_devices(), family, limit as nat),
    {
        let ghost all = self.devices@;
        let ghost pred = |a: u64| (a % 256) as u8 == family;
        let mut r: Vec<u64> = Vec::new();
        let mut i: usize = 0;
        while i < self.devices.len() && r.len() < limit
            invariant
                i <= self.devices@.len(),
                all == self.devices@,
                pred == (|a: u64| (a % 256) as u8 == family),
                r@.len() <= limit,
                r@ == all.take(i as int).filter(pred),
            decreases self.devices.len() - i,
        {
            let a = self.devices[i];
            proof {
                assert(all.take(i + 1) =~= all.take(i as int).push(a));
                all.take(i as int).lemma_filter_push(a, pred);
                assert(pred(a) == ((a % 256) as u8 == family));
            }
            if (a % 256) as u8 == family {
                r.push(a);
            }
            i = i + 1;
        }
        proof {
            let matching = all.filter(pred);
            assert(all =~= all.take(i as int) + all.skip(i as int));
            Seq::<u64>::filter_distributes_over_add(all.take(i as int), all.skip(i as int), pred);
            if r@.len() < limit {
                assert(all.take(i as int) =~= all);
            } else {
                assert(matching.take(limit as int) =~= r@);
            }
        }
        r
    }
}

impl OneWireBus for SimBus {
    closed spec fn events(&self) -> Seq<BusEvent> {
        self.log@
    }

    fn reset(&mut self) -> (r: Result<(), OneWireError>) {
        if self.fails_now() {
            self.log.push(BusEvent::Fault(OneWireError::NoDevicePresent));
            Err(OneWireError::NoDevicePresent)
        } else {
            self.log.push(BusEvent::Reset);
            Ok(())
        }
    }

    fn write_byte(&mut self, byte: u8) -> (r: Result<(), OneWireError>) {
        if self.fails_now() {
            self.log.push(BusEvent::Fault(OneWireError::Other));
            Err(OneWireError::Other)
        } else {
            self.log.push(BusEvent::Write(byte));
            Ok(())
        }
    }

    fn read_byte(&mut self) -> (r: Result<u8, OneWireError>) {
        if self.fails_now() {
            self.log.push(BusEvent::Fault(OneWireError::Other));
            Err(OneWireError::Other)
        } else {
            let v: u8 = if self.next_response < self.responses.len() {
                let v = self.responses[self.next_response];
                self.next_response = self.next_response + 1;
                v
            } else {
                0xff
            };
            self.log.push(BusEvent::Read(v));
            Ok(v)
        }
    }

    fn set_overdrive_mode(&mut self, enable: bool) -> (r: Result<(), OneWireError>) {
        if self.fails_now() {
            self.log.push(BusEvent::Fault(OneWireError::Other));
            Err(OneWireError::Other)
        } else {
            self.overdrive = enable;
            self.log.push(BusEvent::Speed(enable));
            Ok(())
        }
    }

    fn search(&mut self, family: u8, limit: usize) -> (r: Result<Vec<u64>, OneWireError>) {
        if self.fails_now() {
            self.log.push(BusEvent::Fault(OneWireError::NoDevicePresent));
            return Err(OneWireError::NoDevicePresent);
        }
        let found = self.matching(family, limit);
        let ghost start = self.log@;
        self.log.push(BusEvent::Search(family, limit));
        let mut i: usize = 0;
        while i < found.len()
            invariant
                i <= found@.len(),
                self.log@ == start + search_events(family, limit, found@.take(i as int)),
            decreases found.len() - i,
        {
            self.log.push(BusEvent::Found(found[i]));
            proof {
                assert(self.log@ =~= start + search_events(family, limit, found@.take(i + 1)));
            }
            i = i + 1;
        }
        proof {
            assert(found@.take(i as int) =~= found@);
            assert(sim_found(self.devices@, family, limit as nat).len() <= limit);
        }
        Ok(found)
    }
}

/// A delay that records each wait instead of sleeping.
pub struct SimDelay {
    waited: Vec<u32>,
}

impl SimDelay {
    /// A delay that has not waited yet.
    pub fn new() -> (d: SimDelay)
        ensures
            d.waits() == Seq::<u32>::empty(),
    {
        SimDelay { waited: Vec::new() }
    }

    /// Every wait so far, in microseconds.
    pub fn waited(&self) -> (r: &Vec<u32>)
        ensures
            r@ == self.waits(),
    {
        &self.waited
    }
}

impl DelayUs for SimDelay {
    closed spec fn waits(&self) -> Seq<u32> {
        self.waited@
    }

    fn delay_us(&mut self, us: u32) {
        self.waited.push(us);
    }
}

} // verus!
