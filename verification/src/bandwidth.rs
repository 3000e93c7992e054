//! The sliding-window bandwidth aggregator.
//!
//! Times are nanoseconds since the Unix epoch and durations are nanoseconds.
//! A rate is kept exact, as the bytes counted and the window they were
//! counted over.

use std::collections::VecDeque;
use vstd::prelude::*;
use crate::capture::{PacketInfo, TrafficDirection};
use crate::clock::{elapsed_since_epoch, nanos_of};
use crate::error::ConfigError;

verus! {

/// The window of the live monitor: one second.
pub const MONITOR_WINDOW: u128 = 1_000_000_000;

/// The history bound of the live monitor: five minutes of one-second ticks.
pub const MONITOR_HISTORY: usize = 300;

/// Nanoseconds in a second.
pub const NANOS_PER_SECOND: u128 = 1_000_000_000;

/// A throughput: `bytes` per `window_nanos` nanoseconds. In bytes per second
/// it is `bytes * 10^9 / window_nanos`.
#[derive(Debug, Clone, Copy, PartialEq, Eq, Structural)]
pub struct ByteRate {
    pub bytes: u128,
    pub window_nanos: u128,
}

impl ByteRate {
    /// The rate in whole bytes per second, rounded down. There is none over
    /// a window of zero length, nor where it cannot be computed in 128 bits.
    pub open spec fn spec_bytes_per_second(&self) -> Option<u128> {
        if self.window_nanos > 0 && self.bytes * NANOS_PER_SECOND <= u128::MAX {
            Some((self.bytes * NANOS_PER_SECOND / (self.window_nanos as int)) as u128)
        } else {
            None
        }
    }

    /// The rate in whole bytes per second, rounded down.
    #[verifier::when_used_as_spec(spec_bytes_per_second)]
    pub fn bytes_per_second(&self) -> (rate: Option<u128>)
        ensures
            rate == self.spec_bytes_per_second(),
    {
        if self.window_nanos == 0 {
            return None;
        }
        match self.bytes.checked_mul(NANOS_PER_SECOND) {
            Some(scaled) => Some(scaled / self.window_nanos),
            None => None,
        }
    }
}

/// One sample of the history.
#[derive(Debug, Clone, Copy, PartialEq, Eq, Structural)]
pub struct BandwidthData {
    /// When the sample was taken.
    pub timestamp: u128,
    pub inbound_bps: ByteRate,
    pub outbound_bps: ByteRate,
}

/// The throughput of each direction.
#[derive(Debug, Clone, Copy, PartialEq, Eq, Structural)]
pub struct DirectionalBandwidth {
    pub inbound: ByteRate,
    pub outbound: ByteRate,
}

/// The bytes of a record that count towards `side`, which is inbound or
/// outbound: all of a record of that direction, none of a record of the
/// other, and half of an unknown one, rounded down.
pub open spec fn share(record: PacketInfo, side: TrafficDirection) -> nat {
    if record.direction == TrafficDirection::Unknown {
        (record.size / 2) as nat
    } else if record.direction == side {
        record.size as nat
    } else {
        0
    }
}

/// Whether a record lies in the window that ends at `now`.
pub open spec fn in_window(record: PacketInfo, now: nat, window: nat) -> bool {
    record.timestamp >= now - window
}

/// Whether a record is older than twice the window at `now`.
pub open spec fn is_stale(record: PacketInfo, now: nat, window: nat) -> bool {
    record.timestamp < now - 2 * window
}

/// What a record adds to the bytes of `side` in the window that ends at `now`.
pub open spec fn contribution(
    record: PacketInfo,
    now: nat,
    window: nat,
    side: TrafficDirection,
) -> nat {
    if in_window(record, now, window) {
        share(record, side)
    } else {
        0
    }
}

/// The bytes of `side` over the records in the window that ends at `now`.
pub open spec fn window_bytes(
    records: Seq<PacketInfo>,
    now: nat,
    window: nat,
    side: TrafficDirection,
) -> nat
    decreases records.len(),
{
    if records.len() == 0 {
        0
    } else {
        window_bytes(records.drop_last(), now, window, side) + contribution(
            records.last(),
            now,
            window,
            side,
        )
    }
}

/// How many records at the head of the buffer are stale at `now`.
pub open spec fn stale_prefix(records: Seq<PacketInfo>, now: nat, window: nat) -> nat
    decreases records.len(),
{
    if records.len() > 0 && is_stale(records[0], now, window) {
        1 + stale_prefix(records.skip(1), now, window)
    } else {
        0
    }
}

/// The buffer without its stale head. Records behind a record that is not
/// stale stay, whatever their age.
pub open spec fn pruned(records: Seq<PacketInfo>, now: nat, window: nat) -> Seq<PacketInfo> {
    records.skip(stale_prefix(records, now, window) as int)
}

/// A history that holds one sample too many loses its oldest.
pub open spec fn bounded(history: Seq<BandwidthData>, max_history: nat) -> Seq<BandwidthData> {
    if history.len() > max_history {
        history.skip(1)
    } else {
        history
    }
}

/// The mathematical content of a [`BandwidthCalculator`].
pub struct CalculatorState {
    /// Buffered records, oldest arrival first.
    pub buffer: Seq<PacketInfo>,
    /// Retained samples, oldest first.
    pub history: Seq<BandwidthData>,
    pub max_history: nat,
    /// The window duration in nanoseconds.
    pub window: nat,
}

impl CalculatorState {
    /// The window is not empty and the history is within its bound.
    pub open spec fn wf(self) -> bool {
        &&& self.window > 0
        &&& self.history.len() <= self.max_history
    }

    /// Every quantity fits the machine type that holds it.
    pub open spec fn fits(self) -> bool {
        &&& self.buffer.len() <= usize::MAX
        &&& self.history.len() <= usize::MAX
        &&& self.max_history <= usize::MAX
        &&& self.window <= u128::MAX
    }

    /// The state of a new calculator.
    pub open spec fn fresh(window: nat, max_history: nat) -> CalculatorState {
        CalculatorState { buffer: Seq::empty(), history: Seq::empty(), max_history, window }
    }

    /// The state after a record is appended and the stale head is dropped.
    pub open spec fn ingest(self, record: PacketInfo, now: nat) -> CalculatorState {
        CalculatorState { buffer: pruned(self.buffer.push(record), now, self.window), ..self }
    }

    /// The sample that is taken at `now`.
    pub open spec fn measure(self, now: nat) -> BandwidthData {
        BandwidthData {
            timestamp: now as u128,
            inbound_bps: ByteRate {
                bytes: window_bytes(
                    self.buffer,
                    now,
                    self.window,
                    TrafficDirection::Inbound,
                ) as u128,
                window_nanos: self.window as u128,
            },
            outbound_bps: ByteRate {
                bytes: window_bytes(
                    self.buffer,
                    now,
                    self.window,
                    TrafficDirection::Outbound,
                ) as u128,
                window_nanos: self.window as u128,
            },
        }
    }

    /// The state after a sample is taken at `now` and appended to the history.
    pub open spec fn sample(self, now: nat) -> CalculatorState {
        CalculatorState {
            history: bounded(self.history.push(self.measure(now)), self.max_history),
            ..self
        }
    }
}

/// One call on a calculator, with the clock reading it was made at.
pub enum Operation {
    /// A record is ingested.
    Ingest { record: PacketInfo, now: nat },
    /// A sample is taken.
    Sample { now: nat },
}

impl Operation {
    /// The clock reading of the operation.
    pub open spec fn at(self) -> nat {
        match self {
            Operation::Ingest { now, .. } => now,
            Operation::Sample { now } => now,
        }
    }
}

impl CalculatorState {
    /// The state after one operation.
    pub open spec fn apply(self, operation: Operation) -> CalculatorState {
        match operation {
            Operation::Ingest { record, now } => self.ingest(record, now),
            Operation::Sample { now } => self.sample(now),
        }
    }

    /// The state after a sequence of operations, first to last.
    pub open spec fn run(self, operations: Seq<Operation>) -> CalculatorState
        decreases operations.len(),
    {
        if operations.len() == 0 {
            self
        } else {
            self.run(operations.drop_last()).apply(operations.last())
        }
    }

    /// The samples that a sequence of operations takes, first to last.
    pub open spec fn samples(self, operations: Seq<Operation>) -> Seq<BandwidthData>
        decreases operations.len(),
    {
        if operations.len() == 0 {
            Seq::empty()
        } else {
            let before = self.run(operations.drop_last());
            let earlier = self.samples(operations.drop_last());
            match operations.last() {
                Operation::Ingest { .. } => earlier,
                Operation::Sample { now } => earlier.push(before.measure(now)),
            }
        }
    }
}

/// Whether `operations` ingests exactly `records`, in order, at any clock
/// readings.
pub open spec fn ingests(operations: Seq<Operation>, records: Seq<PacketInfo>) -> bool {
    &&& operations.len() == records.len()
    &&& forall|i: int|
        0 <= i < records.len() ==> (#[trigger] operations[i] matches Operation::Ingest {
            record,
            ..
        } && record == records[i])
}

/// Whether every operation was made at a reading that a clock can give.
pub open spec fn clocked(operations: Seq<Operation>) -> bool {
    forall|i: int| 0 <= i < operations.len() ==> (#[trigger] operations[i]).at() <= u128::MAX
}

/// Whether `after` is the state that `before` becomes when `record` is
/// ingested at the clock reading `now`.
pub open spec fn is_ingest_at(
    before: CalculatorState,
    record: PacketInfo,
    now: nat,
    after: CalculatorState,
) -> bool {
    &&& now <= u128::MAX
    &&& after == before.ingest(record, now)
}

/// Whether `after` and `rates` are the state and the rates that a sample of
/// `before` at the clock reading `now` gives: the sample is stamped `now`,
/// and the bytes of each rate are the exact sum over the window.
pub open spec fn is_sample_at(
    before: CalculatorState,
    now: nat,
    after: CalculatorState,
    rates: DirectionalBandwidth,
) -> bool {
    &&& now <= u128::MAX
    &&& after == before.sample(now)
    &&& rates == rates_of(before.measure(now))
    &&& before.measure(now).timestamp == now
    &&& rates.inbound.bytes == window_bytes(
        before.buffer,
        now,
        before.window,
        TrafficDirection::Inbound,
    )
    &&& rates.outbound.bytes == window_bytes(
        before.buffer,
        now,
        before.window,
        TrafficDirection::Outbound,
    )
    &&& rates.inbound.window_nanos == before.window
    &&& rates.outbound.window_nanos == before.window
}

/// The two rates of a sample.
pub open spec fn rates_of(sample: BandwidthData) -> DirectionalBandwidth {
    DirectionalBandwidth { inbound: sample.inbound_bps, outbound: sample.outbound_bps }
}

/// The stale head is a part of the buffer: each record in it is stale, and
/// the record behind it, if there is one, is not.
pub proof fn lemma_stale_prefix(records: Seq<PacketInfo>, now: nat, window: nat)
    ensures
        stale_prefix(records, now, window) <= records.len(),
        forall|i: int|
            0 <= i < stale_prefix(records, now, window) ==> is_stale(
                #[trigger] records[i],
                now,
                window,
            ),
        stale_prefix(records, now, window) < records.len() ==> !is_stale(
            records[stale_prefix(records, now, window) as int],
            now,
            window,
        ),
    decreases records.len(),
{
    if records.len() > 0 && is_stale(records[0], now, window) {
        let rest = records.skip(1);
        lemma_stale_prefix(rest, now, window);
        assert forall|i: int| 0 <= i < stale_prefix(records, now, window) implies is_stale(
            #[trigger] records[i],
            now,
            window,
        ) by {
            if i > 0 {
                assert(records[i] == rest[i - 1]);
            }
        }
        if stale_prefix(records, now, window) < records.len() {
            assert(records[stale_prefix(records, now, window) as int] == rest[stale_prefix(
                rest,
                now,
                window,
            ) as int]);
        }
    }
}

/// The byte counts of a window are bounded by the number of records.
pub proof fn lemma_window_bytes_bounded(
    records: Seq<PacketInfo>,
    now: nat,
    window: nat,
    side: TrafficDirection,
)
    ensures
        window_bytes(records, now, window, side) <= records.len() * u32::MAX,
    decreases records.len(),
{
    if records.len() > 0 {
        lemma_window_bytes_bounded(records.drop_last(), now, window, side);
    }
}

/// Keeps records in a window and samples the throughput over it.
#[derive(Debug)]
pub struct BandwidthCalculator {
    packet_buffer: VecDeque<PacketInfo>,
    bandwidth_history: VecDeque<BandwidthData>,
    max_history: usize,
    window_duration: u128,
}

impl View for BandwidthCalculator {
    type V = CalculatorState;

    closed spec fn view(&self) -> CalculatorState {
        CalculatorState {
            buffer: self.packet_buffer@,
            history: self.bandwidth_history@,
            max_history: self.max_history as nat,
            window: self.window_duration as nat,
        }
    }
}

impl BandwidthCalculator {
    /// The content of a calculator fits its machine types, so that the
    /// byte counts of its samples are the exact sums.
    pub proof fn lemma_view_fits(&self)
        ensures
            self@.fits(),
            forall|now: nat, side: TrafficDirection|
                #[trigger] window_bytes(self@.buffer, now, self@.window, side) <= u128::MAX,
    {
        broadcast use vstd::std_specs::vecdeque::axiom_spec_len;

        assert(self.packet_buffer.len() == self@.buffer.len());
        assert(self.bandwidth_history.len() == self@.history.len());
        assert forall|now: nat, side: TrafficDirection|
            #[trigger] window_bytes(self@.buffer, now, self@.window, side) <= u128::MAX by {
            lemma_window_bytes_bounded(self@.buffer, now, self@.window, side);
        }
    }

    /// A calculator with an empty buffer and an empty history. A window of
    /// zero length is rejected.
    pub fn new(window_duration: u128, max_history: usize) -> (result: Result<
        BandwidthCalculator,
        ConfigError,
    >)
        ensures
            window_duration == 0 <==> result == Err::<BandwidthCalculator, ConfigError>(
                ConfigError::ZeroWindow,
            ),
            window_duration > 0 ==> result.is_ok() && result.unwrap()@ == CalculatorState::fresh(
                window_duration as nat,
                max_history as nat,
            ) && result.unwrap()@.wf(),
    {
        if window_duration == 0 {
            return Err(ConfigError::ZeroWindow);
        }
        Ok(
            BandwidthCalculator {
                packet_buffer: VecDeque::new(),
                bandwidth_history: VecDeque::new(),
                max_history,
                window_duration,
            },
        )
    }

    /// The calculator of the live monitor: a window of one second and a
    /// history of 300 samples.
    pub fn for_monitor() -> (calculator: BandwidthCalculator)
        ensures
            calculator@ == CalculatorState::fresh(MONITOR_WINDOW as nat, MONITOR_HISTORY as nat),
            calculator@.wf(),
    {
        BandwidthCalculator {
            packet_buffer: VecDeque::new(),
            bandwidth_history: VecDeque::new(),
            max_history: MONITOR_HISTORY,
            window_duration: MONITOR_WINDOW,
        }
    }

    /// Appends a record, then drops the head of the buffer as far as it is
    /// older than twice the window at `now`.
    pub fn add_packet_at(&mut self, packet: PacketInfo, now: u128)
        ensures
            final(self)@ == old(self)@.ingest(packet, now as nat),
            old(self)@.wf() ==> final(self)@.wf(),
            final(self)@.fits(),
    {
        self.packet_buffer.push_back(packet);
        self.cleanup_old_packets(now);
        proof {
            self.lemma_view_fits();
        }
    }

    /// Appends a record and prunes the buffer at the present clock reading.
    ///
    /// Whatever the clock says, the result is that of [`Self::add_packet_at`]
    /// at some reading: the history and the configuration stay, and the
    /// buffer is the old one with the record appended, less a stale head.
    pub fn add_packet(&mut self, packet: PacketInfo)
        ensures
            exists|now: nat| #[trigger] is_ingest_at(old(self)@, packet, now, final(self)@),
            final(self)@.history == old(self)@.history,
            final(self)@.max_history == old(self)@.max_history,
            final(self)@.window == old(self)@.window,
            old(self)@.wf() ==> final(self)@.wf(),
    {
        let now = nanos_of(elapsed_since_epoch());
        self.add_packet_at(packet, now);
        assert(is_ingest_at(old(self)@, packet, now as nat, self@));
    }

    /// Drops the head of the buffer as far as it is stale at `now`.
    fn cleanup_old_packets(&mut self, now: u128)
        ensures
            final(self)@ == (CalculatorState {
                buffer: pruned(old(self)@.buffer, now as nat, old(self)@.window),
                ..old(self)@
            }),
    {
        let cutoff: u128 = now.saturating_sub(self.window_duration).saturating_sub(
            self.window_duration,
        );
        let ghost window = self.window_duration as nat;
        let ghost initial = self.packet_buffer@;
        let mut done = false;
        while !done
            invariant
                self@.window == window,
                self@.history == old(self)@.history,
                self@.max_history == old(self)@.max_history,
                cutoff as int == if now >= 2 * window { now - 2 * window } else { 0 },
                pruned(self@.buffer, now as nat, window) == pruned(initial, now as nat, window),
                done ==> pruned(self@.buffer, now as nat, window) == self@.buffer,
            decreases self@.buffer.len() + if done { 0int } else { 1int },
        {
            if self.packet_buffer.len() > 0 {
                let head = self.packet_buffer[0];
                if head.timestamp < cutoff {
                    let ghost before = self.packet_buffer@;
                    self.packet_buffer.pop_front();
                    assert(self.packet_buffer@ =~= before.skip(1));
                    assert(is_stale(before[0], now as nat, window));
                    let ghost rest = stale_prefix(before.skip(1), now as nat, window);
                    proof {
                        lemma_stale_prefix(before.skip(1), now as nat, window);
                    }
                    assert(before.skip(1).skip(rest as int) =~= before.skip(1 + rest as int));
                } else {
                    done = true;
                }
            } else {
                done = true;
            }
        }
    }

    /// Takes a sample at `now`: the bytes of each direction in the window
    /// that ends at `now`, over the window. The sample joins the history,
    /// which then loses its oldest entry if it holds more than its bound.
    pub fn calculate_bandwidth_at(&mut self, now: u128) -> (rates: DirectionalBandwidth)
        ensures
            final(self)@ == old(self)@.sample(now as nat),
            rates == rates_of(old(self)@.measure(now as nat)),
            is_sample_at(old(self)@, now as nat, final(self)@, rates),
            rates.inbound.bytes == window_bytes(
                old(self)@.buffer,
                now as nat,
                old(self)@.window,
                TrafficDirection::Inbound,
            ),
            rates.outbound.bytes == window_bytes(
                old(self)@.buffer,
                now as nat,
                old(self)@.window,
                TrafficDirection::Outbound,
            ),
            rates.inbound.window_nanos == old(self)@.window,
            rates.outbound.window_nanos == old(self)@.window,
            old(self)@.wf() ==> final(self)@.wf(),
            old(self)@.fits() && final(self)@.fits(),
    {
        proof {
            self.lemma_view_fits();
        }
        let cutoff: u128 = now.saturating_sub(self.window_duration);
        let ghost window = self.window_duration as nat;
        let mut inbound: u128 = 0;
        let mut outbound: u128 = 0;
        let mut i: usize = 0;
        while i < self.packet_buffer.len()
            invariant
                i <= self.packet_buffer@.len(),
                self@ == old(self)@,
                window == self@.window,
                cutoff as int == if now >= window { now - window } else { 0 },
                inbound == window_bytes(
                    self@.buffer.take(i as int),
                    now as nat,
                    window,
                    TrafficDirection::Inbound,
                ),
                outbound == window_bytes(
                    self@.buffer.take(i as int),
                    now as nat,
                    window,
                    TrafficDirection::Outbound,
                ),
            decreases self.packet_buffer@.len() - i,
        {
            let packet = self.packet_buffer[i];
            proof {
                let next = self@.buffer.take(i + 1);
                assert(next.drop_last() =~= self@.buffer.take(i as int));
                assert(next.last() == packet);
                lemma_window_bytes_bounded(next, now as nat, window, TrafficDirection::Inbound);
                lemma_window_bytes_bounded(next, now as nat, window, TrafficDirection::Outbound);
            }
            if packet.timestamp >= cutoff {
                match packet.direction {
                    TrafficDirection::Inbound => {
                        inbound = inbound + packet.size as u128;
                    },
                    TrafficDirection::Outbound => {
                        outbound = outbound + packet.size as u128;
                    },
                    TrafficDirection::Unknown => {
                        let half: u128 = (packet.size / 2) as u128;
                        inbound = inbound + half;
                        outbound = outbound + half;
                    },
                }
            }
            i = i + 1;
        }
        proof {
            assert(self@.buffer.take(i as int) =~= self@.buffer);
            lemma_window_bytes_bounded(
                self@.buffer,
                now as nat,
                window,
                TrafficDirection::Inbound,
            );
            lemma_window_bytes_bounded(
                self@.buffer,
                now as nat,
                window,
                TrafficDirection::Outbound,
            );
        }
        let sample = BandwidthData {
            timestamp: now,
            inbound_bps: ByteRate { bytes: inbound, window_nanos: self.window_duration },
            outbound_bps: ByteRate { bytes: outbound, window_nanos: self.window_duration },
        };
        let ghost history = self.bandwidth_history@;
        self.bandwidth_history.push_back(sample);
        if self.bandwidth_history.len() > self.max_history {
            self.bandwidth_history.pop_front();
        }
        assert(self.bandwidth_history@ =~= bounded(history.push(sample), self.max_history as nat));
        DirectionalBandwidth { inbound: sample.inbound_bps, outbound: sample.outbound_bps }
    }

    /// Takes a sample at the present clock reading.
    ///
    /// Whatever the clock says, the result is that of
    /// [`Self::calculate_bandwidth_at`] at some reading: the buffer and the
    /// configuration stay, both rates are over the configured window, and
    /// the history gains the sample and stays within its bound.
    pub fn calculate_bandwidth(&mut self) -> (rates: DirectionalBandwidth)
        ensures
            exists|now: nat| #[trigger] is_sample_at(old(self)@, now, final(self)@, rates),
            final(self)@.buffer == old(self)@.buffer,
            final(self)@.max_history == old(self)@.max_history,
            final(self)@.window == old(self)@.window,
            rates.inbound.window_nanos == old(self)@.window,
            rates.outbound.window_nanos == old(self)@.window,
            old(self)@.wf() ==> final(self)@.wf(),
    {
        let now = nanos_of(elapsed_since_epoch());
        let rates = self.calculate_bandwidth_at(now);
        assert(is_sample_at(old(self)@, now as nat, self@, rates));
        rates
    }

    /// One tick of the sampling loop: ingests the records that arrived since
    /// the last tick, each at the clock reading of its turn, then takes one
    /// sample.
    pub fn process_tick(&mut self, records: &Vec<PacketInfo>) -> (rates: DirectionalBandwidth)
        ensures
            exists|operations: Seq<Operation>, now: nat|
                ingests(operations, records@) && clocked(operations) && #[trigger] is_sample_at(
                    old(self)@.run(operations),
                    now,
                    final(self)@,
                    rates,
                ),
            final(self)@.max_history == old(self)@.max_history,
            final(self)@.window == old(self)@.window,
            old(self)@.wf() ==> final(self)@.wf(),
    {
        let ghost mut operations: Seq<Operation> = Seq::empty();
        let mut i: usize = 0;
        while i < records.len()
            invariant
                i <= records.len(),
                ingests(operations, records@.take(i as int)),
                clocked(operations),
                self@ == old(self)@.run(operations),
                self@.history == old(self)@.history,
                self@.max_history == old(self)@.max_history,
                self@.window == old(self)@.window,
            decreases records.len() - i,
        {
            let record = records[i];
            let ghost before = self@;
            self.add_packet(record);
            proof {
                let now = choose|now: nat| #[trigger] is_ingest_at(before, record, now, self@);
                let longer = operations.push(Operation::Ingest { record, now });
                assert(longer.drop_last() =~= operations);
                operations = longer;
            }
            i = i + 1;
        }
        assert(records@.take(i as int) =~= records@);
        let ghost before = self@;
        let rates = self.calculate_bandwidth();
        proof {
            let now = choose|now: nat| #[trigger] is_sample_at(before, now, self@, rates);
            assert(is_sample_at(old(self)@.run(operations), now, self@, rates));
        }
        rates
    }

    /// The history as two aligned series of chart points, oldest first: the
    /// index of each sample with its inbound rate, and with its outbound rate.
    pub fn get_chart_data(&self) -> (series: (Vec<(usize, ByteRate)>, Vec<(usize, ByteRate)>))
        ensures
            series.0@.len() == self@.history.len(),
            series.1@.len() == self@.history.len(),
            forall|i: int|
                0 <= i < self@.history.len() ==> #[trigger] series.0@[i] == (
                    i as usize,
                    self@.history[i].inbound_bps,
                ),
            forall|i: int|
                0 <= i < self@.history.len() ==> #[trigger] series.1@[i] == (
                    i as usize,
                    self@.history[i].outbound_bps,
                ),
    {
        let mut inbound: Vec<(usize, ByteRate)> = Vec::new();
        let mut outbound: Vec<(usize, ByteRate)> = Vec::new();
        let mut i: usize = 0;
        while i < self.bandwidth_history.len()
            invariant
                i <= self.bandwidth_history@.len(),
                inbound@.len() == i,
                outbound@.len() == i,
                forall|k: int|
                    0 <= k < i ==> #[trigger] inbound@[k] == (
                        k as usize,
                        self@.history[k].inbound_bps,
                    ),
                forall|k: int|
                    0 <= k < i ==> #[trigger] outbound@[k] == (
                        k as usize,
                        self@.history[k].outbound_bps,
                    ),
            decreases self.bandwidth_history@.len() - i,
        {
            let sample = self.bandwidth_history[i];
            inbound.push((i, sample.inbound_bps));
            outbound.push((i, sample.outbound_bps));
            i = i + 1;
        }
        (inbound, outbound)
    }

    /// The retained samples, oldest first.
    pub fn get_history(&self) -> (history: &VecDeque<BandwidthData>)
        ensures
            history@ == self@.history,
    {
        &self.bandwidth_history
    }
}

} // verus!
