//! What holds of the aggregator over all inputs, proved from its model.

use vstd::prelude::*;
use crate::bandwidth::{
    bounded, contribution, in_window, ingests, is_stale, lemma_stale_prefix,
    lemma_window_bytes_bounded, pruned, share, window_bytes, ByteRate, CalculatorState, Operation,
    NANOS_PER_SECOND,
};
use crate::capture::{PacketInfo, TrafficDirection};

verus! {

/// The sizes of all records, added up.
pub open spec fn total_size(records: Seq<PacketInfo>) -> nat
    decreases records.len(),
{
    if records.len() == 0 {
        0
    } else {
        total_size(records.drop_last()) + records.last().size as nat
    }
}

/// How many of the operations take a sample.
pub open spec fn sample_count(operations: Seq<Operation>) -> nat
    decreases operations.len(),
{
    if operations.len() == 0 {
        0
    } else {
        sample_count(operations.drop_last()) + if operations.last() is Sample {
            1nat
        } else {
            0nat
        }
    }
}

/// The records that are not older than twice the window at `now`, in order.
pub open spec fn fresh_records(records: Seq<PacketInfo>, now: nat, window: nat) -> Seq<
    PacketInfo,
> {
    records.filter(|record: PacketInfo| !is_stale(record, now, window))
}

/// The smaller of two numbers.
pub open spec fn least(a: nat, b: nat) -> nat {
    if a <= b {
        a
    } else {
        b
    }
}

/// The bytes of a window are those of its first record and those of the rest.
pub proof fn lemma_window_bytes_front(
    records: Seq<PacketInfo>,
    now: nat,
    window: nat,
    side: TrafficDirection,
)
    requires
        records.len() > 0,
    ensures
        window_bytes(records, now, window, side) == contribution(records[0], now, window, side)
            + window_bytes(records.skip(1), now, window, side),
    decreases records.len(),
{
    if records.len() == 1 {
        assert(records.drop_last() =~= Seq::<PacketInfo>::empty());
        assert(records.skip(1) =~= Seq::<PacketInfo>::empty());
    } else {
        lemma_window_bytes_front(records.drop_last(), now, window, side);
        assert(records.drop_last().skip(1) =~= records.skip(1).drop_last());
        assert(records.skip(1).last() == records.last());
    }
}

/// A record that is stale at one time lies outside the window at every
/// later time.
pub proof fn lemma_stale_stays_out(record: PacketInfo, earlier: nat, later: nat, window: nat)
    requires
        earlier <= later,
        is_stale(record, earlier, window),
    ensures
        !in_window(record, later, window),
{
}

/// Pruning at one time changes no sum of a later time.
pub proof fn lemma_pruning_keeps_later_sums(
    records: Seq<PacketInfo>,
    pruned_at: nat,
    sampled_at: nat,
    window: nat,
    side: TrafficDirection,
)
    requires
        pruned_at <= sampled_at,
    ensures
        window_bytes(pruned(records, pruned_at, window), sampled_at, window, side) == window_bytes(
            records,
            sampled_at,
            window,
            side,
        ),
    decreases records.len(),
{
    lemma_stale_prefix(records, pruned_at, window);
    if records.len() > 0 && is_stale(records[0], pruned_at, window) {
        let rest = records.skip(1);
        lemma_pruning_keeps_later_sums(rest, pruned_at, sampled_at, window, side);
        lemma_stale_prefix(rest, pruned_at, window);
        assert(pruned(records, pruned_at, window) =~= pruned(rest, pruned_at, window));
        lemma_window_bytes_front(records, sampled_at, window, side);
        lemma_stale_stays_out(records[0], pruned_at, sampled_at, window);
    } else {
        assert(pruned(records, pruned_at, window) =~= records);
    }
}

/// Leaving out the records that were stale at one time changes no sum of a
/// later time.
pub proof fn lemma_fresh_records_carry_later_sums(
    records: Seq<PacketInfo>,
    judged_at: nat,
    sampled_at: nat,
    window: nat,
    side: TrafficDirection,
)
    requires
        judged_at <= sampled_at,
    ensures
        window_bytes(fresh_records(records, judged_at, window), sampled_at, window, side)
            == window_bytes(records, sampled_at, window, side),
    decreases records.len(),
{
    reveal(Seq::filter);
    if records.len() > 0 {
        lemma_fresh_records_carry_later_sums(
            records.drop_last(),
            judged_at,
            sampled_at,
            window,
            side,
        );
        let kept = fresh_records(records.drop_last(), judged_at, window);
        if is_stale(records.last(), judged_at, window) {
            lemma_stale_stays_out(records.last(), judged_at, sampled_at, window);
            assert(fresh_records(records, judged_at, window) == kept);
        } else {
            assert(fresh_records(records, judged_at, window) == kept.push(records.last()));
            assert(kept.push(records.last()).drop_last() =~= kept);
        }
    }
}

/// Pruning: once a record is older than twice the window at an ingest, no
/// sample taken at that time or later counts it. The sample is the one
/// taken over the records that were not stale at the ingest.
///
/// The ingest must not be later than the sample: if the clock runs
/// backwards, a stale record that still stands behind a younger one can
/// come back into the window.
pub proof fn law_stale_records_are_excluded(
    state: CalculatorState,
    record: PacketInfo,
    ingested_at: nat,
    sampled_at: nat,
)
    requires
        ingested_at <= sampled_at,
    ensures
        state.ingest(record, ingested_at).measure(sampled_at) == (CalculatorState {
            buffer: fresh_records(state.buffer.push(record), ingested_at, state.window),
            ..state
        }).measure(sampled_at),
{
    let all = state.buffer.push(record);
    let window = state.window;
    lemma_pruning_keeps_later_sums(
        all,
        ingested_at,
        sampled_at,
        window,
        TrafficDirection::Inbound,
    );
    lemma_pruning_keeps_later_sums(
        all,
        ingested_at,
        sampled_at,
        window,
        TrafficDirection::Outbound,
    );
    lemma_fresh_records_carry_later_sums(
        all,
        ingested_at,
        sampled_at,
        window,
        TrafficDirection::Inbound,
    );
    lemma_fresh_records_carry_later_sums(
        all,
        ingested_at,
        sampled_at,
        window,
        TrafficDirection::Outbound,
    );
}

/// Records of one direction that all lie in the window count in full
/// towards that direction and not at all towards the other.
pub proof fn lemma_uniform_window_bytes(
    records: Seq<PacketInfo>,
    direction: TrafficDirection,
    now: nat,
    window: nat,
    side: TrafficDirection,
)
    requires
        direction != TrafficDirection::Unknown,
        side != TrafficDirection::Unknown,
        forall|i: int|
            0 <= i < records.len() ==> (#[trigger] records[i]).direction == direction
                && in_window(records[i], now, window),
    ensures
        window_bytes(records, now, window, side) == (if side == direction {
            total_size(records)
        } else {
            0
        }),
    decreases records.len(),
{
    if records.len() > 0 {
        let earlier = records.drop_last();
        assert forall|i: int| 0 <= i < earlier.len() implies (#[trigger] earlier[i]).direction
            == direction && in_window(earlier[i], now, window) by {
            assert(earlier[i] == records[i]);
        }
        lemma_uniform_window_bytes(earlier, direction, now, window, side);
        assert(records.last() == records[records.len() - 1]);
    }
}

/// Uniform rate: where every buffered record has the same timestamp and the
/// same direction, inbound or outbound, and that timestamp lies in the
/// window of the sample, the rate of that direction is the sum of the sizes
/// over the window, and the rate of the other direction is zero bytes over
/// the window.
pub proof fn law_uniform_records_give_their_sum(
    state: CalculatorState,
    timestamp: u128,
    direction: TrafficDirection,
    now: nat,
)
    requires
        state.buffer.len() <= usize::MAX,
        state.window <= u128::MAX,
        direction != TrafficDirection::Unknown,
        timestamp >= now - state.window,
        forall|i: int|
            0 <= i < state.buffer.len() ==> (#[trigger] state.buffer[i]).timestamp == timestamp
                && state.buffer[i].direction == direction,
    ensures
        total_size(state.buffer) <= u128::MAX,
        state.measure(now).inbound_bps == (ByteRate {
            bytes: if direction == TrafficDirection::Inbound {
                total_size(state.buffer) as u128
            } else {
                0
            },
            window_nanos: state.window as u128,
        }),
        state.measure(now).outbound_bps == (ByteRate {
            bytes: if direction == TrafficDirection::Outbound {
                total_size(state.buffer) as u128
            } else {
                0
            },
            window_nanos: state.window as u128,
        }),
{
    lemma_uniform_window_bytes(
        state.buffer,
        direction,
        now,
        state.window,
        TrafficDirection::Inbound,
    );
    lemma_uniform_window_bytes(
        state.buffer,
        direction,
        now,
        state.window,
        TrafficDirection::Outbound,
    );
    lemma_window_bytes_bounded(state.buffer, now, state.window, direction);
}

/// Uniform rate, from ingest to sample: records of one timestamp and one
/// direction, inbound or outbound, that enter an empty buffer while none of
/// them is older than twice the window all stay in it, and a sample whose
/// window holds their timestamp gives that direction the sum of their sizes
/// over the window and the other direction nothing.
pub proof fn law_ingested_uniform_records_give_their_sum(
    start: CalculatorState,
    operations: Seq<Operation>,
    records: Seq<PacketInfo>,
    timestamp: u128,
    direction: TrafficDirection,
    now: nat,
)
    requires
        start.buffer.len() == 0,
        start.window <= u128::MAX,
        records.len() <= usize::MAX,
        ingests(operations, records),
        direction != TrafficDirection::Unknown,
        forall|i: int|
            0 <= i < records.len() ==> (#[trigger] records[i]).timestamp == timestamp
                && records[i].direction == direction,
        forall|i: int|
            0 <= i < operations.len() ==> (#[trigger] operations[i]).at() <= timestamp + 2
                * start.window,
        now <= timestamp + start.window,
    ensures
        start.run(operations).buffer == records,
        start.run(operations).measure(now).inbound_bps == (ByteRate {
            bytes: if direction == TrafficDirection::Inbound {
                total_size(records) as u128
            } else {
                0
            },
            window_nanos: start.window as u128,
        }),
        start.run(operations).measure(now).outbound_bps == (ByteRate {
            bytes: if direction == TrafficDirection::Outbound {
                total_size(records) as u128
            } else {
                0
            },
            window_nanos: start.window as u128,
        }),
{
    lemma_uniform_ingests_fill_buffer(start, operations, records, timestamp);
    lemma_run_keeps_configuration(start, operations);
    law_uniform_records_give_their_sum(start.run(operations), timestamp, direction, now);
}

/// Records of one timestamp that enter an empty buffer while none of them
/// is stale make up the buffer, in their order.
proof fn lemma_uniform_ingests_fill_buffer(
    start: CalculatorState,
    operations: Seq<Operation>,
    records: Seq<PacketInfo>,
    timestamp: u128,
)
    requires
        start.buffer.len() == 0,
        ingests(operations, records),
        forall|i: int| 0 <= i < records.len() ==> (#[trigger] records[i]).timestamp == timestamp,
        forall|i: int|
            0 <= i < operations.len() ==> (#[trigger] operations[i]).at() <= timestamp + 2
                * start.window,
    ensures
        start.run(operations).buffer == records,
    decreases operations.len(),
{
    if operations.len() == 0 {
        assert(start.buffer =~= records);
    } else {
        let earlier = operations.drop_last();
        let held = records.drop_last();
        assert forall|i: int| 0 <= i < held.len() implies (#[trigger] earlier[i] matches Operation::Ingest {
            record,
            ..
        } && record == held[i]) by {
            assert(earlier[i] == operations[i]);
            assert(held[i] == records[i]);
        }
        assert forall|i: int| 0 <= i < held.len() implies (#[trigger] held[i]).timestamp
            == timestamp by {
            assert(held[i] == records[i]);
        }
        assert forall|i: int| 0 <= i < earlier.len() implies (#[trigger] earlier[i]).at()
            <= timestamp + 2 * start.window by {
            assert(earlier[i] == operations[i]);
        }
        lemma_uniform_ingests_fill_buffer(start, earlier, held, timestamp);
        lemma_run_keeps_configuration(start, earlier);
        let last = operations[operations.len() - 1];
        assert(last == operations.last());
        assert(last matches Operation::Ingest { record, .. } && record == records[records.len()
            - 1]);
        let grown = held.push(records.last());
        assert(grown =~= records);
        assert(records[0].timestamp == timestamp);
        assert(!is_stale(records[0], last.at(), start.window));
        assert(pruned(records, last.at(), start.window) =~= records);
    }
}

/// Over a window of one second the rate in bytes per second is the byte
/// count itself, and over any window no bytes are a rate of zero.
pub proof fn law_rate_per_second(rate: ByteRate)
    ensures
        rate.window_nanos == NANOS_PER_SECOND && rate.bytes * NANOS_PER_SECOND <= u128::MAX
            ==> rate.spec_bytes_per_second() == Some(rate.bytes),
        rate.window_nanos > 0 && rate.bytes == 0 ==> rate.spec_bytes_per_second() == Some(0u128),
{
    if rate.window_nanos > 0 && rate.bytes == 0 {
        assert(0int / (rate.window_nanos as int) == 0) by (nonlinear_arith)
            requires
                rate.window_nanos > 0,
        ;
    }
}

/// An empty buffer samples as zero bytes in both directions, at any time.
pub proof fn law_empty_buffer_samples_zero(state: CalculatorState, now: nat)
    requires
        state.buffer.len() == 0,
    ensures
        state.measure(now).inbound_bps.bytes == 0,
        state.measure(now).outbound_bps.bytes == 0,
{
}

/// An unknown record gives each direction the same half of its size; what
/// the two halves leave over is at most one byte.
pub proof fn law_unknown_bytes_split_evenly(record: PacketInfo)
    requires
        record.direction == TrafficDirection::Unknown,
    ensures
        share(record, TrafficDirection::Inbound) == share(record, TrafficDirection::Outbound),
        share(record, TrafficDirection::Inbound) + share(record, TrafficDirection::Outbound)
            == record.size - record.size % 2,
{
}

/// Operations change neither the window nor the bound of the history.
pub proof fn lemma_run_keeps_configuration(state: CalculatorState, operations: Seq<Operation>)
    ensures
        state.run(operations).window == state.window,
        state.run(operations).max_history == state.max_history,
    decreases operations.len(),
{
    if operations.len() > 0 {
        lemma_run_keeps_configuration(state, operations.drop_last());
    }
}

/// History bound: after any operations on a calculator whose history is
/// within its bound, the history holds the newest of all samples, those it
/// held before and those taken since, as many as the bound allows, oldest
/// first.
pub proof fn law_history_holds_newest_samples(state: CalculatorState, operations: Seq<Operation>)
    requires
        state.wf(),
    ensures
        state.run(operations).wf(),
        state.samples(operations).len() == sample_count(operations),
        ({
            let all = state.history + state.samples(operations);
            let kept = least(all.len(), state.max_history);
            &&& state.run(operations).history.len() == kept
            &&& state.run(operations).history == all.skip(all.len() - kept)
        }),
    decreases operations.len(),
{
    let all = state.history + state.samples(operations);
    let kept = least(all.len(), state.max_history);
    if operations.len() == 0 {
        assert(state.history =~= all.skip(all.len() - kept));
    } else {
        let earlier = operations.drop_last();
        law_history_holds_newest_samples(state, earlier);
        lemma_run_keeps_configuration(state, earlier);
        let before = state.run(earlier);
        let all_before = state.history + state.samples(earlier);
        let kept_before = least(all_before.len(), state.max_history);
        match operations.last() {
            Operation::Ingest { record, now } => {
                assert(all =~= all_before);
            },
            Operation::Sample { now } => {
                let sample = before.measure(now);
                assert(all =~= all_before.push(sample));
                let grown = before.history.push(sample);
                assert(state.run(operations).history == bounded(grown, state.max_history));
                assert(bounded(grown, state.max_history) =~= all.skip(all.len() - kept));
            },
        }
    }
}

/// After `n` samples on a new calculator with a history bound of `h`, the
/// history holds the newest `min(n, h)` of them, oldest first.
pub proof fn law_new_calculator_history(window: nat, max_history: nat, operations: Seq<Operation>)
    requires
        window > 0,
    ensures
        ({
            let start = CalculatorState::fresh(window, max_history);
            let taken = start.samples(operations);
            let kept = least(sample_count(operations), max_history);
            &&& taken.len() == sample_count(operations)
            &&& start.run(operations).history.len() == kept
            &&& start.run(operations).history == taken.skip(taken.len() - kept)
        }),
{
    let start = CalculatorState::fresh(window, max_history);
    law_history_holds_newest_samples(start, operations);
    assert(start.history + start.samples(operations) =~= start.samples(operations));
}

} // verus!
