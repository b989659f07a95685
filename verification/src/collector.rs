//! The collector: the single consumer of probe outcomes. It counts successes
//! and failures, keeps the latency samples, recomputes the running
//! throughput, discards ramp-up successes from the steady-state count exactly
//! once, and decides when the run terminates. The channel it reads and the
//! terminal it draws on live outside this crate's library, which receives
//! each outcome and the elapsed wall time as plain values.

use crate::math::Ratio;
use crate::math::percentile;
use crate::math::percentile_of_sorted;
use crate::math::sort_u64;
use crate::math::sorted;
use crate::math::sum;
use crate::math::avg;
use crate::math::lemma_percentile_permutation;
use crate::probe::Outcome;
use vstd::prelude::*;

verus! {

/// Live counters of a run. `handshakes_count` and `err_count` count the
/// outcomes seen so far (less any ramp-up reset), the two vectors hold each
/// successful probe's latencies in milliseconds, `throughput_hps` is the
/// running handshakes-per-second estimate, and `ramp_up_reset_done` records
/// whether the one-time discard of ramp-up successes has happened.
pub struct CollectorState {
    pub handshakes_count: u128,
    pub err_count: u128,
    pub handshake_latencies_ms: Vec<u64>,
    pub tcp_connect_latencies_ms: Vec<u64>,
    pub throughput_hps: u128,
    pub ramp_up_reset_done: bool,
}

/// Mathematical image of `CollectorState`.
pub ghost struct CollectorModel {
    pub handshakes_count: int,
    pub err_count: int,
    pub handshake_latencies_ms: Seq<u64>,
    pub tcp_connect_latencies_ms: Seq<u64>,
    pub throughput_hps: int,
    pub ramp_up_reset_done: bool,
}

impl View for CollectorState {
    type V = CollectorModel;

    open spec fn view(&self) -> CollectorModel {
        CollectorModel {
            handshakes_count: self.handshakes_count as int,
            err_count: self.err_count as int,
            handshake_latencies_ms: self.handshake_latencies_ms@,
            tcp_connect_latencies_ms: self.tcp_connect_latencies_ms@,
            throughput_hps: self.throughput_hps as int,
            ramp_up_reset_done: self.ramp_up_reset_done,
        }
    }
}

/// The state of a collector that has seen nothing yet.
pub open spec fn initial_collector() -> CollectorModel {
    CollectorModel {
        handshakes_count: 0,
        err_count: 0,
        handshake_latencies_ms: Seq::empty(),
        tcp_connect_latencies_ms: Seq::empty(),
        throughput_hps: 0,
        ramp_up_reset_done: false,
    }
}

/// When the run ends. `elapsed_ms` is wall time since start less the ramp-up
/// window (so it is negative or zero during ramp-up). A duration-bounded run
/// ends once the steady-state clock reaches the duration; a count-bounded run
/// (no duration, no ramp-up) ends once the outcomes seen reach the worker
/// count; a ramp-up-only run ends the instant steady state would begin.
pub open spec fn terminate_spec(
    duration: int,
    ramp_up_sec: int,
    concurrently: int,
    handshakes: int,
    errs: int,
    elapsed_ms: int,
) -> bool {
    ||| (duration > 0 && elapsed_ms >= duration * 1000)
    ||| (duration == 0 && ramp_up_sec == 0 && handshakes + errs >= concurrently)
    ||| (duration == 0 && ramp_up_sec > 0 && elapsed_ms >= 0)
}

/// The time base of the running throughput: the steady-state clock once it is
/// positive, else wall time since start (the steady-state clock plus the
/// ramp-up window).
pub open spec fn throughput_elapsed_ms(elapsed_ms: int, ramp_up_sec: int) -> int {
    if elapsed_ms > 0 {
        elapsed_ms
    } else {
        elapsed_ms + ramp_up_sec * 1000
    }
}

/// Division rounding up.
pub open spec fn ceil_div(a: int, b: int) -> int
    recommends
        b > 0,
{
    (a + b - 1) / b
}

/// Handshakes per second, rounded up: `ceil(handshakes / (te_ms / 1000))`.
/// With no positive time base yet there is no estimate, and the throughput is
/// zero.
pub open spec fn throughput_spec(handshakes: int, te_ms: int) -> int {
    if te_ms <= 0 {
        0
    } else {
        ceil_div(handshakes * 1000, te_ms)
    }
}

/// One outcome's effect on the collector. A failure only bumps the error
/// count. A success bumps the handshake count, recomputes the throughput from
/// the bumped count, then — exactly once per run, at the first success on or
/// after the steady-state instant of a duration-bounded run — resets the
/// handshake count so that it reflects steady state only, and finally records
/// the two latency samples.
pub open spec fn collector_step(
    m: CollectorModel,
    outcome: Outcome,
    elapsed_ms: int,
    duration: int,
    ramp_up_sec: int,
) -> CollectorModel {
    match outcome {
        Outcome::Failure(_) => CollectorModel { err_count: m.err_count + 1, ..m },
        Outcome::Success(t) => {
            let counted = m.handshakes_count + 1;
            let tp = throughput_spec(counted, throughput_elapsed_ms(elapsed_ms, ramp_up_sec));
            let reset = duration > 0 && elapsed_ms >= 0 && !m.ramp_up_reset_done;
            CollectorModel {
                handshakes_count: if reset {
                    0
                } else {
                    counted
                },
                err_count: m.err_count,
                handshake_latencies_ms: m.handshake_latencies_ms.push(t.handshake),
                tcp_connect_latencies_ms: m.tcp_connect_latencies_ms.push(t.tcp_connect),
                throughput_hps: tp,
                ramp_up_reset_done: m.ramp_up_reset_done || reset,
            }
        },
    }
}

/// The collector after a whole run of outcomes, each paired with the
/// steady-state clock at which it was received.
pub open spec fn run_collector(
    events: Seq<(Outcome, int)>,
    duration: int,
    ramp_up_sec: int,
) -> CollectorModel
    decreases events.len(),
{
    if events.len() == 0 {
        initial_collector()
    } else {
        collector_step(
            run_collector(events.drop_last(), duration, ramp_up_sec),
            events.last().0,
            events.last().1,
            duration,
            ramp_up_sec,
        )
    }
}

/// In count-bounded mode (no duration, no ramp-up) every outcome advances the
/// two counters by exactly one and the ramp-up reset never fires, so after
/// any run the counters add up to the number of outcomes, and the run is due
/// to terminate exactly when that number has reached the worker count: the
/// run accepts exactly `concurrently` outcomes before terminating.
pub proof fn lemma_count_bounded_termination(
    events: Seq<(Outcome, int)>,
    concurrently: int,
    elapsed_ms: int,
)
    ensures
        ({
            let m = run_collector(events, 0, 0);
            &&& m.handshakes_count + m.err_count == events.len()
            &&& (terminate_spec(
                0,
                0,
                concurrently,
                m.handshakes_count,
                m.err_count,
                elapsed_ms,
            ) <==> events.len() >= concurrently)
        }),
    decreases events.len(),
{
    if events.len() > 0 {
        lemma_count_bounded_termination(events.drop_last(), concurrently, elapsed_ms);
    }
}

/// A run with no duration but a ramp-up terminates the instant the
/// steady-state clock reaches zero, whatever the counters hold.
pub proof fn lemma_ramp_up_only_termination(
    ramp_up_sec: int,
    concurrently: int,
    handshakes: int,
    errs: int,
    elapsed_ms: int,
)
    requires
        ramp_up_sec > 0,
    ensures
        terminate_spec(0, ramp_up_sec, concurrently, handshakes, errs, elapsed_ms) <==> elapsed_ms
            >= 0,
{
}

/// The counters never exceed the outcomes produced: each outcome advances
/// them by at most one, and a ramp-up reset only lowers the total. Together
/// with the controller's bound — no more admissions than timer ticks — this
/// bounds the counted outcomes of any run by what the pacing timer admitted.
pub proof fn lemma_counts_bounded(events: Seq<(Outcome, int)>, duration: int, ramp_up_sec: int)
    ensures
        ({
            let m = run_collector(events, duration, ramp_up_sec);
            &&& 0 <= m.handshakes_count
            &&& 0 <= m.err_count
            &&& m.handshakes_count + m.err_count <= events.len()
        }),
    decreases events.len(),
{
    if events.len() > 0 {
        lemma_counts_bounded(events.drop_last(), duration, ramp_up_sec);
    }
}

impl CollectorState {
    /// A collector that has seen nothing yet.
    pub fn new() -> (r: CollectorState)
        ensures
            r@ == initial_collector(),
    {
        CollectorState {
            handshakes_count: 0,
            err_count: 0,
            handshake_latencies_ms: Vec::new(),
            tcp_connect_latencies_ms: Vec::new(),
            throughput_hps: 0,
            ramp_up_reset_done: false,
        }
    }

    /// Whether the run is due to terminate, checked before each outcome is
    /// counted.
    pub fn should_terminate(
        &self,
        duration: u64,
        ramp_up_sec: u64,
        concurrently: u64,
        elapsed_ms: i64,
    ) -> (r: bool)
        ensures
            r == terminate_spec(
                duration as int,
                ramp_up_sec as int,
                concurrently as int,
                self.handshakes_count as int,
                self.err_count as int,
                elapsed_ms as int,
            ),
    {
        if duration > 0 {
            (elapsed_ms as i128) >= (duration as i128) * 1000
        } else if ramp_up_sec == 0 {
            let c = concurrently as u128;
            self.handshakes_count >= c || self.err_count >= c - self.handshakes_count
        } else {
            elapsed_ms >= 0
        }
    }

    /// Count one outcome. `elapsed_ms` is the steady-state clock at which it
    /// was received. The counter bounds keep every intermediate product
    /// within machine range; they hold throughout any run a machine can
    /// perform.
    pub fn on_outcome(&mut self, outcome: &Outcome, elapsed_ms: i64, duration: u64, ramp_up_sec: u64)
        requires
            old(self).handshakes_count < u64::MAX as u128,
            old(self).err_count < u64::MAX as u128,
        ensures
            final(self)@ == collector_step(
                old(self)@,
                *outcome,
                elapsed_ms as int,
                duration as int,
                ramp_up_sec as int,
            ),
    {
        match outcome {
            Outcome::Failure(_) => {
                self.err_count = self.err_count + 1;
            },
            Outcome::Success(t) => {
                self.handshakes_count = self.handshakes_count + 1;
                let te_ms: i128 = if elapsed_ms > 0 {
                    elapsed_ms as i128
                } else {
                    (elapsed_ms as i128) + (ramp_up_sec as i128) * 1000
                };
                if te_ms <= 0 {
                    self.throughput_hps = 0;
                } else {
                    let num: u128 = self.handshakes_count * 1000;
                    let den: u128 = te_ms as u128;
                    self.throughput_hps = (num + den - 1) / den;
                }
                if duration > 0 && elapsed_ms >= 0 && !self.ramp_up_reset_done {
                    self.handshakes_count = 0;
                    self.ramp_up_reset_done = true;
                }
                self.handshake_latencies_ms.push(t.handshake);
                self.tcp_connect_latencies_ms.push(t.tcp_connect);
            },
        }
    }

    /// The share of successful probes, as an exact percentage: one hundred
    /// times the handshake count over the total outcome count, or zero when
    /// there were no outcomes at all.
    pub fn success_ratio(&self) -> (r: Ratio)
        requires
            self.handshakes_count < u64::MAX as u128,
            self.err_count < u64::MAX as u128,
        ensures
            self.handshakes_count as int + self.err_count as int == 0 ==> r == (Ratio {
                num: 0,
                den: 1,
            }),
            self.handshakes_count as int + self.err_count as int > 0 ==> r.num as int
                == self.handshakes_count as int * 100 && r.den as int == self.handshakes_count as int
                + self.err_count as int,
    {
        if self.handshakes_count == 0 && self.err_count == 0 {
            Ratio { num: 0, den: 1 }
        } else {
            Ratio {
                num: self.handshakes_count * 100,
                den: self.handshakes_count + self.err_count,
            }
        }
    }

    /// Whether the latency table can be rendered: it needs at least one
    /// sample in each vector. A run with no successes must print an
    /// empty-result notice instead.
    pub fn should_render_table(&self) -> (r: bool)
        ensures
            r == (self.handshake_latencies_ms@.len() > 0 && self.tcp_connect_latencies_ms@.len()
                > 0),
    {
        self.handshake_latencies_ms.len() > 0 && self.tcp_connect_latencies_ms.len() > 0
    }
}

/// The elapsed seconds the final summary reports, in milliseconds: wall time
/// including the ramp-up window, which the steady-state clock had subtracted.
pub fn final_elapsed_ms(elapsed_ms: i64, ramp_up_sec: u64) -> (r: i64)
    requires
        elapsed_ms + ramp_up_sec as int * 1000 <= i64::MAX as int,
    ensures
        r as int == if ramp_up_sec > 0 {
            elapsed_ms as int + ramp_up_sec as int * 1000
        } else {
            elapsed_ms as int
        },
{
    if ramp_up_sec > 0 {
        let add: i128 = (ramp_up_sec as i128) * 1000;
        ((elapsed_ms as i128) + add) as i64
    } else {
        elapsed_ms
    }
}

/// One row of the final latency table: minimum, mean, the 50th, 95th, 99th
/// and 99.9th percentiles, and maximum of one latency vector. The mean is an
/// exact rational and the percentiles are scaled by 1000, as in
/// `percentile_of_sorted`.
pub struct LatencyRow {
    pub min_ms: u64,
    pub avg: Ratio,
    pub p50: u128,
    pub p95: u128,
    pub p99: u128,
    pub p999: u128,
    pub max_ms: u64,
}

/// Compute one row of the latency table. Sorts the samples in place; every
/// reported figure is pinned to the ascending ordering of the input samples.
pub fn latency_row(xs: &mut Vec<u64>) -> (r: LatencyRow)
    requires
        old(xs)@.len() > 0,
    ensures
        final(xs)@.len() == old(xs)@.len(),
        final(xs)@.to_multiset() == old(xs)@.to_multiset(),
        sorted(final(xs)@),
        r.min_ms == final(xs)@[0],
        r.max_ms == final(xs)@.last(),
        r.avg.num as int == sum(final(xs)@),
        r.avg.den as int == final(xs)@.len() as int,
        r.p50 as int == percentile_of_sorted(final(xs)@, 500),
        r.p95 as int == percentile_of_sorted(final(xs)@, 950),
        r.p99 as int == percentile_of_sorted(final(xs)@, 990),
        r.p999 as int == percentile_of_sorted(final(xs)@, 999),
{
    sort_u64(xs);
    let min_ms = xs[0];
    let max_ms = xs[xs.len() - 1];
    let mean = avg(xs);
    let ghost s0 = xs@;
    let p50 = percentile(xs, 500);
    proof {
        lemma_percentile_permutation(s0, xs@, 500);
    }
    let p95 = percentile(xs, 950);
    proof {
        lemma_percentile_permutation(s0, xs@, 950);
    }
    let p99 = percentile(xs, 990);
    proof {
        lemma_percentile_permutation(s0, xs@, 990);
    }
    let p999 = percentile(xs, 999);
    proof {
        lemma_percentile_permutation(s0, xs@, 999);
        assert(xs@.last() == xs@[xs@.len() - 1]);
    }
    LatencyRow { min_ms, avg: mean, p50, p95, p99, p999, max_ms }
}

} // verus!
