//! Token-bucket traffic controller. The permit store starts empty and is
//! refilled one permit per timer tick, never above its capacity `R` (the
//! target rate in admissions per second); a worker consumes one permit per
//! admission and permits are never returned. The timer itself runs outside
//! this crate's library; this module holds the permit accounting and the
//! pacing formula that decides the timer's period, including the ramp-up
//! schedule where the admission rate climbs linearly from near zero to `R`.

use vstd::arithmetic::mul::lemma_mul_upper_bound;
use vstd::prelude::*;

verus! {

/// The period of the very first tick of a ramped-up run, in microseconds
/// (0.8 seconds per permit).
pub const INITIAL_PERIOD_US: u64 = 800_000;

/// One operation on the permit store: a timer tick (which grants a permit if
/// the store is below capacity) or an admission (which consumes one).
#[derive(Clone, Copy, Debug, PartialEq, Eq, Structural)]
pub enum CtrlOp {
    Tick,
    Acquire,
}

/// Mathematical state of the controller: the live permit count and capacity,
/// with running totals of every permit ever granted and ever consumed.
pub ghost struct ControllerModel {
    pub available: int,
    pub capacity: int,
    pub granted: int,
    pub acquired: int,
}

/// State of a freshly built controller: capacity `capacity` and no permits.
pub open spec fn init_model(capacity: int) -> ControllerModel {
    ControllerModel { available: 0, capacity: capacity, granted: 0, acquired: 0 }
}

/// One step of the permit store. A tick grants one permit when below
/// capacity and does nothing at capacity; an admission consumes one permit
/// when one is present (a worker cannot acquire from an empty store, so an
/// acquire against an empty store changes nothing).
pub open spec fn ctrl_step(m: ControllerModel, op: CtrlOp) -> ControllerModel {
    match op {
        CtrlOp::Tick => {
            if m.available < m.capacity {
                ControllerModel {
                    available: m.available + 1,
                    granted: m.granted + 1,
                    ..m
                }
            } else {
                m
            }
        },
        CtrlOp::Acquire => {
            if m.available > 0 {
                ControllerModel {
                    available: m.available - 1,
                    acquired: m.acquired + 1,
                    ..m
                }
            } else {
                m
            }
        },
    }
}

/// The permit store after a whole run of operations, from a fresh controller.
pub open spec fn ctrl_run(capacity: int, ops: Seq<CtrlOp>) -> ControllerModel
    decreases ops.len(),
{
    if ops.len() == 0 {
        init_model(capacity)
    } else {
        ctrl_step(ctrl_run(capacity, ops.drop_last()), ops.last())
    }
}

/// How many of the operations are timer ticks.
pub open spec fn tick_count(ops: Seq<CtrlOp>) -> int
    decreases ops.len(),
{
    if ops.len() == 0 {
        0
    } else {
        tick_count(ops.drop_last()) + if ops.last() is Tick {
            1int
        } else {
            0int
        }
    }
}

/// Throughout any run of the controller the permit count stays between 0 and
/// the capacity, and no more admissions ever happen than timer ticks: each
/// tick grants at most one permit and each admission consumes one, so the
/// number of admissions in any run is bounded by the number of ticks.
pub proof fn lemma_ctrl_run_bounds(capacity: int, ops: Seq<CtrlOp>)
    requires
        capacity >= 0,
    ensures
        0 <= ctrl_run(capacity, ops).available <= capacity,
        ctrl_run(capacity, ops).capacity == capacity,
        ctrl_run(capacity, ops).available == ctrl_run(capacity, ops).granted - ctrl_run(
            capacity,
            ops,
        ).acquired,
        0 <= ctrl_run(capacity, ops).acquired <= ctrl_run(capacity, ops).granted <= tick_count(
            ops,
        ),
    decreases ops.len(),
{
    if ops.len() > 0 {
        lemma_ctrl_run_bounds(capacity, ops.drop_last());
    }
}

/// The traffic controller: a bounded store of admission permits. `available`
/// and `capacity` mirror the live semaphore; the grant and consumption totals
/// are ghost bookkeeping for the pacing bounds.
pub struct TrafficController {
    pub available: u64,
    pub capacity: u64,
    pub granted: Ghost<int>,
    pub acquired: Ghost<int>,
}

impl View for TrafficController {
    type V = ControllerModel;

    open spec fn view(&self) -> ControllerModel {
        ControllerModel {
            available: self.available as int,
            capacity: self.capacity as int,
            granted: self.granted@,
            acquired: self.acquired@,
        }
    }
}

impl TrafficController {
    /// A fresh controller holds no permits at all: the store of `capacity`
    /// permits starts fully drained, so the first admission waits for the
    /// first tick.
    pub fn new(capacity: u64) -> (r: Self)
        ensures
            r@ == init_model(capacity as int),
            r.available == 0,
            r.capacity == capacity,
    {
        TrafficController { available: 0, capacity, granted: Ghost(0), acquired: Ghost(0) }
    }

    /// One timer tick: grant one permit unless the store is at capacity.
    /// A count within bounds stays within bounds.
    pub fn tick(&mut self)
        ensures
            final(self)@ == ctrl_step(old(self)@, CtrlOp::Tick),
            old(self).available <= old(self).capacity ==> final(self).available <= final(self).capacity,
    {
        if self.available < self.capacity {
            self.available = self.available + 1;
            proof {
                self.granted@ = self.granted@ + 1;
            }
        }
    }

    /// Consume one permit; the caller must have awaited one. Consumption is
    /// permanent: no operation returns a permit.
    pub fn acquire(&mut self)
        requires
            old(self).available > 0,
        ensures
            final(self)@ == ctrl_step(old(self)@, CtrlOp::Acquire),
            final(self).available == old(self).available - 1,
            final(self).capacity == old(self).capacity,
    {
        self.available = self.available - 1;
        proof {
            self.acquired@ = self.acquired@ + 1;
        }
    }

    /// One iteration of the pacer's `flow` loop: grant one permit (never
    /// above capacity) and decide the period, in microseconds, that paces the
    /// next tick.
    pub fn flow_tick(&mut self, ramp_up_sec: u64, elapsed_ms: u64) -> (r: u64)
        requires
            old(self).capacity >= 1,
        ensures
            final(self)@ == ctrl_step(old(self)@, CtrlOp::Tick),
            r as int == period_spec(
                old(self).capacity as int,
                ramp_up_sec as int,
                elapsed_ms as int,
            ),
            old(self).available <= old(self).capacity ==> final(self).available <= final(self).capacity,
    {
        self.tick();
        self.next_period_us(ramp_up_sec, elapsed_ms)
    }

    /// The timer period, in microseconds, that paces the next tick.
    pub fn next_period_us(&self, ramp_up_sec: u64, elapsed_ms: u64) -> (r: u64)
        requires
            self.capacity >= 1,
        ensures
            r as int == period_spec(self.capacity as int, ramp_up_sec as int, elapsed_ms as int),
    {
        if ramp_up_sec == 0 || (elapsed_ms as u128) > (ramp_up_sec as u128) * 1_000 {
            1_000_000 / self.capacity
        } else if elapsed_ms == 0 {
            INITIAL_PERIOD_US
        } else {
            proof {
                lemma_mul_upper_bound(
                    self.capacity as int,
                    u64::MAX as int,
                    elapsed_ms as int,
                    u64::MAX as int,
                );
                assert((self.capacity as int) * (elapsed_ms as int) >= 1) by (nonlinear_arith)
                    requires
                        self.capacity as int >= 1,
                        elapsed_ms as int >= 1,
                ;
            }
            let num: u128 = 1_000_000_000u128 * (ramp_up_sec as u128);
            let den: u128 = (self.capacity as u128) * (elapsed_ms as u128);
            let q: u128 = num / den;
            if q > u64::MAX as u128 {
                u64::MAX
            } else {
                q as u64
            }
        }
    }
}

/// The pacing schedule. Steady state (no ramp-up, or the ramp-up window has
/// passed) ticks once per `1/R` seconds. During ramp-up the target rate at
/// elapsed time `e` is `R * e / ramp_up_sec`, so the period is its inverse,
/// `ramp_up_sec / (R * e)` seconds; the very first tick of a ramp-up, before
/// any time has passed, waits the fixed initial period. Values are clamped to
/// what a 64-bit microsecond count can hold.
pub open spec fn period_spec(capacity: int, ramp_up_sec: int, elapsed_ms: int) -> int
    recommends
        capacity >= 1,
        elapsed_ms >= 0,
{
    if ramp_up_sec == 0 || elapsed_ms > ramp_up_sec * 1000 {
        1_000_000int / capacity
    } else if elapsed_ms == 0 {
        INITIAL_PERIOD_US as int
    } else {
        let q = (1_000_000_000 * ramp_up_sec) / (capacity * elapsed_ms);
        if q > u64::MAX as int {
            u64::MAX as int
        } else {
            q
        }
    }
}

} // verus!
