//! What a bus producer decides: how a freshly opened bus is brought up, and
//! what one acquisition cycle turns into a batch.

use vstd::prelude::*;

use crate::ds28ea00::{
    config_txs, group_read, trigger_txs, Ds28ea00Group, ReadoutResolution, Temperature, FAMILY_CODE,
};
use crate::fingerprint::{batch_of, fingerprint_batch};
use crate::onewire::{
    outcome, reports, search_events, transactions, BusEvent, DelayUs, OneWireBus, OneWireError,
};

verus! {

/// How many sensors one bus producer handles.
pub const BUS_CAPACITY: usize = 16;

/// The sensor group a bus producer starts from: 12-bit resolution, alarm
/// thresholds -40 °C and 50 °C, indicator pins pulsed when `leds` is set.
pub fn producer_group(leds: bool) -> (g: Ds28ea00Group<16>)
    ensures
        g.wf(),
        g.has_state(Seq::empty(), ReadoutResolution::Resolution12bit, -40i8, 50i8, leds, false),
{
    let g = Ds28ea00Group::<16>::new().with_resolution(ReadoutResolution::Resolution12bit).with_t_low(
        -40,
    ).with_t_high(50).with_toggle_pio(leds);
    assert(g.readings_view() =~= Seq::empty());
    g
}

/// Whether a trial conversion at overdrive speed shows that the devices do
/// not follow the bus to overdrive: no device answered.
pub fn overdrive_failed(trial: Result<(), OneWireError>) -> (fall_back: bool)
    ensures
        fall_back == (trial == Err::<(), OneWireError>(OneWireError::NoDevicePresent)),
{
    match trial {
        Err(OneWireError::NoDevicePresent) => true,
        _ => false,
    }
}

/// The events of `ev` from position `p` on are an attempt at overdrive by a
/// group addressing at speed `od0`: the switch to overdrive (or its
/// failure), then a trial conversion (events `p + 1` to `k`, at the speed
/// the group then uses, succeeding when `trial_ok`), then, only when the
/// trial failed because no device answered, the switch back to standard
/// speed (or its failure). `od_final` is the speed the group ends at.
pub open spec fn overdrive_attempt(
    ev: Seq<BusEvent>,
    p: int,
    k: int,
    trial_ok: bool,
    od0: bool,
    toggle_pio: bool,
    od_final: bool,
) -> bool {
    let switched = ev[p] == BusEvent::Speed(true);
    let od1 = if switched { true } else { od0 };
    &&& 0 <= p < k <= ev.len()
    &&& switched || ev[p] is Fault
    &&& outcome(ev.take(p + 1), ev.take(k), transactions(trigger_txs(od1, toggle_pio)), trial_ok)
    &&& if !trial_ok && ev[k - 1] == BusEvent::Fault(OneWireError::NoDevicePresent) {
        &&& ev.len() == k + 1
        &&& (ev[k] == BusEvent::Speed(false) || ev[k] is Fault)
        &&& od_final == (ev[k] != BusEvent::Speed(false) && od1)
    } else {
        &&& ev.len() == k
        &&& od_final == od1
    }
}

/// The events of discovering and configuring the sensors of `group`, which
/// found `roms`.
pub open spec fn setup_events<const N: usize>(group: Ds28ea00Group<N>, roms: Seq<u64>) -> Seq<
    BusEvent,
> {
    search_events(FAMILY_CODE, N, roms) + transactions(
        config_txs(
            group.spec_overdrive(),
            group.spec_t_low(),
            group.spec_t_high(),
            group.spec_resolution(),
            group.spec_toggle_pio(),
        ),
    )
}

/// Brings up a freshly opened bus: discovers and configures the sensors;
/// then, unless `no_overdrive`, switches to overdrive and runs a trial
/// conversion, going back to standard speed when no device answers it.
/// Only the discovery can fail (with the bus's error); the overdrive
/// attempt is best effort.
#[verifier::rlimit(30)]
pub fn bring_up<B: OneWireBus, D: DelayUs, const N: usize>(
    group: &mut Ds28ea00Group<N>,
    bus: &mut B,
    delay: &mut D,
    no_overdrive: bool,
) -> (r: Result<usize, OneWireError>)
    requires
        old(group).wf(),
    ensures
        final(group).wf(),
        final(group).rom_list().len() <= N,
        final(group).spec_resolution() == old(group).spec_resolution(),
        final(group).spec_t_low() == old(group).spec_t_low(),
        final(group).spec_t_high() == old(group).spec_t_high(),
        final(group).spec_toggle_pio() == old(group).spec_toggle_pio(),
        ({
            let before = old(bus).events();
            let after = final(bus).events();
            let setup = setup_events(*old(group), final(group).rom_list());
            let p = (before.len() + setup.len()) as int;
            match r {
                Err(_) => {
                    &&& outcome(before, after, setup, false)
                    &&& reports(after, r)
                    &&& final(group).spec_overdrive() == old(group).spec_overdrive()
                    &&& final(delay).waits() == old(delay).waits()
                },
                Ok(n) => {
                    &&& n == final(group).rom_list().len()
                    &&& after.len() >= p
                    &&& after.take(p) == before + setup
                    &&& no_overdrive ==> {
                        &&& after.len() == p
                        &&& final(group).spec_overdrive() == old(group).spec_overdrive()
                        &&& final(delay).waits() == old(delay).waits()
                    }
                    &&& !no_overdrive ==> exists|k: int, trial_ok: bool|
                        #[trigger] overdrive_attempt(
                            after,
                            p,
                            k,
                            trial_ok,
                            old(group).spec_overdrive(),
                            old(group).spec_toggle_pio(),
                            final(group).spec_overdrive(),
                        ) && final(delay).waits() == if trial_ok {
                            old(delay).waits().push(old(group).spec_resolution().spec_delay_us())
                        } else {
                            old(delay).waits()
                        }
                },
            }
        }),
{
    let ghost before = bus.events();
    let ghost g0 = *group;
    let n = match group.enumerate(bus) {
        Ok(n) => n,
        Err(e) => {
            return Err(e);
        },
    };
    let ghost ev0 = bus.events();
    let ghost p = ev0.len() as int;
    proof {
        assert(ev0 == before + setup_events(g0, group.rom_list()));
    }
    if !no_overdrive {
        let _ = group.enable_overdrive(bus);
        let ghost ev1 = bus.events();
        let ghost od1 = group.spec_overdrive();
        let trial = group.trigger_temperature_conversion(bus, delay);
        let ghost ev2 = bus.events();
        let fall_back = overdrive_failed(trial);
        if fall_back {
            let _ = group.disable_overdrive(bus);
        }
        proof {
            let ev = bus.events();
            let k = ev2.len() as int;
            assert(ev.take(p + 1) =~= ev1);
            assert(ev.take(k) =~= ev2);
            assert(ev.take(p) =~= ev0);
            assert(ev[p] == ev1.last());
            if trial is Err {
                assert(ev2.last() == BusEvent::Fault(trial->Err_0));
                assert(ev[k - 1] == ev2.last());
            }
            let pp = (before.len() + setup_events(g0, group.rom_list()).len()) as int;
            assert(pp == p);
            assert(overdrive_attempt(
                ev,
                pp,
                k,
                trial is Ok,
                g0.spec_overdrive(),
                g0.spec_toggle_pio(),
                group.spec_overdrive(),
            ));
            assert(delay.waits() == if trial is Ok {
                old(delay).waits().push(g0.spec_resolution().spec_delay_us())
            } else {
                old(delay).waits()
            });
        }
    } else {
        proof {
            assert(bus.events().take(p) =~= ev0);
        }
    }
    Ok(n)
}

/// One acquisition cycle: starts a conversion on every sensor, reads them
/// all (a failed sensor reads -85 °C), and returns the batch keyed by
/// fingerprint without the excluded sensors. Fails only when the conversion
/// could not be started.
pub fn acquire<B: OneWireBus, D: DelayUs, const N: usize>(
    group: &mut Ds28ea00Group<N>,
    bus: &mut B,
    delay: &mut D,
    exclude: &[u32],
) -> (r: Result<Vec<(u32, Temperature)>, OneWireError>)
    requires
        old(group).wf(),
    ensures
        final(group).wf(),
        final(group).same_config(*old(group)),
        final(group).rom_list() == old(group).rom_list(),
        match r {
            Ok(batch) => {
                let before = old(bus).events();
                let after = final(bus).events();
                let conv = transactions(
                    trigger_txs(old(group).spec_overdrive(), old(group).spec_toggle_pio()),
                );
                let p = (before.len() + conv.len()) as int;
                &&& batch@ == batch_of(final(group).readings_view(), exclude@)
                &&& after.len() >= p
                &&& after.take(p) == before + conv
                &&& final(delay).waits() == old(delay).waits().push(
                    old(group).spec_resolution().spec_delay_us(),
                )
                &&& exists|cuts: Seq<int>, outs: Seq<Result<Temperature, OneWireError>>|
                    #[trigger] group_read(
                        after,
                        cuts,
                        outs,
                        p,
                        old(group).rom_list(),
                        old(group).readings_view(),
                        final(group).readings_view(),
                        old(group).spec_overdrive(),
                        false,
                        old(group).spec_toggle_pio(),
                        old(group).spec_resolution().spec_bitmask(),
                        true,
                        true,
                        OneWireError::Other,
                    )
            },
            Err(_) => {
                &&& outcome(
                    old(bus).events(),
                    final(bus).events(),
                    transactions(
                        trigger_txs(old(group).spec_overdrive(), old(group).spec_toggle_pio()),
                    ),
                    false,
                )
                &&& reports(final(bus).events(), r)
                &&& *final(group) == *old(group)
                &&& final(delay).waits() == old(delay).waits()
            },
        },
{
    group.trigger_temperature_conversion(bus, delay)?;
    let ghost mid = bus.events();
    let r = group.read_temperatures(bus, false, true);
    let readings = match r {
        Ok(readings) => readings,
        Err(e) => {
            proof {
                let (cuts, outs) = choose|cuts: Seq<int>, outs: Seq<Result<Temperature, OneWireError>>|
                    #[trigger] group_read(
                        bus.events(),
                        cuts,
                        outs,
                        mid.len() as int,
                        old(group).rom_list(),
                        old(group).readings_view(),
                        group.readings_view(),
                        old(group).spec_overdrive(),
                        false,
                        old(group).spec_toggle_pio(),
                        old(group).spec_resolution().spec_bitmask(),
                        true,
                        false,
                        e,
                    );
            }
            return Err(e);
        },
    };
    proof {
        let conv = transactions(trigger_txs(old(group).spec_overdrive(), old(group).spec_toggle_pio()));
        assert(mid == old(bus).events() + conv);
        assert(mid.len() == old(bus).events().len() + conv.len());
    }
    Ok(fingerprint_batch(readings.as_slice(), exclude))
}

/// Seconds a producer waits before reopening its bus after a failure.
pub const RETRY_BACKOFF_SECS: u64 = 1;

/// Where a bus producer is in its cycle.
#[derive(Debug, Clone, Copy, PartialEq, Eq, Structural)]
pub enum ProducerPhase {
    /// Opening the adapter and bringing the sensors up.
    Starting,
    /// Reading the sensors once per cycle.
    Reading,
}

/// What happened since the last action of a bus producer.
#[derive(Debug, Clone, Copy, PartialEq, Eq, Structural)]
pub enum ProducerEvent {
    /// The adapter could not be opened or configured.
    AdapterFailed,
    /// The adapter is open and configured.
    AdapterReady,
    /// Discovering the sensors failed.
    BringUpFailed,
    /// The sensors are discovered and configured.
    BroughtUp,
    /// A conversion could not be started.
    ConversionFailed,
    /// A batch was pushed to the channel.
    BatchSent,
    /// The channel refused the batch.
    BatchRefused,
}

/// What a bus producer does next.
#[derive(Debug, Clone, Copy, PartialEq, Eq, Structural)]
pub enum ProducerAction {
    /// Wait out the backoff, then reopen the adapter.
    Restart,
    /// Discover and configure the sensors (`bring_up`).
    BringUp,
    /// Wait out the rest of the cycle, then acquire (`acquire`).
    NextCycle,
    /// Acquire again at once.
    RetryCycle,
}

/// The transition table of a bus producer: a failure while starting, or a
/// conversion that cannot be started, restarts the bus from scratch; a
/// refused push only ends the current cycle.
pub open spec fn producer_next(phase: ProducerPhase, event: ProducerEvent) -> (ProducerPhase, ProducerAction) {
    match (phase, event) {
        (ProducerPhase::Starting, ProducerEvent::AdapterReady) => (ProducerPhase::Starting, ProducerAction::BringUp),
        (ProducerPhase::Starting, ProducerEvent::BroughtUp) => (ProducerPhase::Reading, ProducerAction::NextCycle),
        (ProducerPhase::Reading, ProducerEvent::BatchSent) => (ProducerPhase::Reading, ProducerAction::NextCycle),
        (ProducerPhase::Reading, ProducerEvent::BatchRefused) => (ProducerPhase::Reading, ProducerAction::RetryCycle),
        _ => (ProducerPhase::Starting, ProducerAction::Restart),
    }
}

/// The next phase and action of a bus producer after `event`.
pub fn producer_step(phase: ProducerPhase, event: ProducerEvent) -> (r: (ProducerPhase, ProducerAction))
    ensures
        r == producer_next(phase, event),
{
    match (phase, event) {
        (ProducerPhase::Starting, ProducerEvent::AdapterReady) => (ProducerPhase::Starting, ProducerAction::BringUp),
        (ProducerPhase::Starting, ProducerEvent::BroughtUp) => (ProducerPhase::Reading, ProducerAction::NextCycle),
        (ProducerPhase::Reading, ProducerEvent::BatchSent) => (ProducerPhase::Reading, ProducerAction::NextCycle),
        (ProducerPhase::Reading, ProducerEvent::BatchRefused) => (ProducerPhase::Reading, ProducerAction::RetryCycle),
        _ => (ProducerPhase::Starting, ProducerAction::Restart),
    }
}

} // verus!
