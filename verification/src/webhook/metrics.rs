//! Counters of the deliveries.
use vstd::prelude::*;

use crate::webhook::deliver::DeliveryStep;

verus! {

/// How many deliveries there were. The counters start over at zero behind their largest value.
#[derive(Debug, Clone, Copy, PartialEq, Eq)]
pub struct Metrics {
    pub enqueued: u64,
    pub delivered: u64,
    pub failed: u64,
    pub in_flight: u64,
}

/// The value of a counter that starts over behind its largest value.
pub open spec fn counter(n: int) -> int {
    n % 0x1_0000_0000_0000_0000
}

impl Metrics {
    /// Whether every delivery that was begun has ended in one of the two ways or is under way.
    pub open spec fn balanced(self) -> bool {
        self.enqueued == counter(self.delivered + self.failed + self.in_flight)
    }

    /// No deliveries yet.
    pub fn new() -> (r: Self)
        ensures
            r == (Metrics { enqueued: 0, delivered: 0, failed: 0, in_flight: 0 }),
            r.balanced(),
    {
        Metrics { enqueued: 0, delivered: 0, failed: 0, in_flight: 0 }
    }

    /// The counters once a delivery has begun.
    pub open spec fn begun(self) -> Metrics {
        Metrics {
            enqueued: counter(self.enqueued + 1) as u64,
            in_flight: counter(self.in_flight + 1) as u64,
            ..self
        }
    }

    /// The counters once an attempt has come to a step: the delivery ends with success or failure,
    /// or goes on.
    pub open spec fn settled(self, step: DeliveryStep) -> Metrics {
        match step {
            DeliveryStep::Done => Metrics {
                delivered: counter(self.delivered + 1) as u64,
                in_flight: counter(self.in_flight - 1) as u64,
                ..self
            },
            DeliveryStep::GiveUp => Metrics {
                failed: counter(self.failed + 1) as u64,
                in_flight: counter(self.in_flight - 1) as u64,
                ..self
            },
            DeliveryStep::RetryAfterMs(_) => self,
        }
    }

    /// The counters after all the steps of a delivery.
    pub open spec fn after_steps(self, steps: Seq<DeliveryStep>) -> Metrics
        decreases steps.len(),
    {
        if steps.len() == 0 {
            self
        } else {
            self.after_steps(steps.drop_last()).settled(steps.last())
        }
    }

    /// A delivery begins.
    pub fn begin(&mut self)
        ensures
            *final(self) == old(self).begun(),
            old(self).balanced() ==> final(self).balanced(),
    {
        self.in_flight = self.in_flight.wrapping_add(1);
        self.enqueued = self.enqueued.wrapping_add(1);
    }

    /// An attempt at a delivery has come to this step.
    pub fn settle(&mut self, step: &DeliveryStep)
        ensures
            *final(self) == old(self).settled(*step),
            old(self).balanced() ==> final(self).balanced(),
    {
        match step {
            DeliveryStep::Done => {
                self.delivered = self.delivered.wrapping_add(1);
                self.in_flight = self.in_flight.wrapping_sub(1);
            },
            DeliveryStep::GiveUp => {
                self.failed = self.failed.wrapping_add(1);
                self.in_flight = self.in_flight.wrapping_sub(1);
            },
            DeliveryStep::RetryAfterMs(_) => {},
        }
    }
}

proof fn retries_count_nothing(m: Metrics, steps: Seq<DeliveryStep>)
    requires
        forall|i: int| 0 <= i < steps.len() ==> (#[trigger] steps[i]) is RetryAfterMs,
    ensures
        m.after_steps(steps) == m,
    decreases steps.len(),
{
    if steps.len() > 0 {
        assert(steps.last() is RetryAfterMs);
        retries_count_nothing(m, steps.drop_last());
    }
}

/// A delivery is counted once when it begins, and once when it ends: as delivered where one of its
/// attempts succeeds, as failed where none does. Then it is no longer under way.
pub proof fn delivery_is_counted_once(
    m: Metrics,
    max_retries: int,
    base_delay_ms: int,
    taken: spec_fn(int) -> bool,
)
    requires
        max_retries >= 0,
    ensures
        ({
            let end = crate::webhook::deliver::last_attempt(max_retries, taken, 0);
            let steps = crate::webhook::deliver::delivery_steps(max_retries, base_delay_ms, taken, 0);
            m.begun().after_steps(steps) == (Metrics {
                enqueued: counter(m.enqueued + 1) as u64,
                delivered: if taken(end) {
                    counter(m.delivered + 1) as u64
                } else {
                    m.delivered
                },
                failed: if taken(end) {
                    m.failed
                } else {
                    counter(m.failed + 1) as u64
                },
                in_flight: m.in_flight,
            })
        }),
{
    let steps = crate::webhook::deliver::delivery_steps(max_retries, base_delay_ms, taken, 0);
    crate::webhook::deliver::delivery_ends_with_success_or_the_last_retry(max_retries, base_delay_ms, taken, 0);
    crate::webhook::deliver::last_attempt_is_the_first_success(max_retries, taken, 0);
    assert forall|i: int| 0 <= i < steps.drop_last().len() implies (
    #[trigger] steps.drop_last()[i]) is RetryAfterMs by {
        assert(steps.drop_last()[i] == steps[i]);
    }
    retries_count_nothing(m.begun(), steps.drop_last());
}

impl Default for Metrics {
    fn default() -> (r: Self)
        ensures
            r == (Metrics { enqueued: 0, delivered: 0, failed: 0, in_flight: 0 }),
    {
        Metrics::new()
    }
}

/// Below its largest value a counter counts by one: a delivery that begins adds one to those begun
/// and those under way, one that ends takes one from those under way and adds it to those
/// delivered or to those that failed, and nothing else changes.
pub proof fn counters_count_by_one(m: Metrics, pause: u64)
    requires
        m.enqueued < 0xffff_ffff_ffff_ffff,
        m.delivered < 0xffff_ffff_ffff_ffff,
        m.failed < 0xffff_ffff_ffff_ffff,
        0 < m.in_flight < 0xffff_ffff_ffff_ffff,
    ensures
        m.begun().enqueued == m.enqueued + 1,
        m.begun().in_flight == m.in_flight + 1,
        m.begun().delivered == m.delivered,
        m.begun().failed == m.failed,
        m.settled(DeliveryStep::Done).delivered == m.delivered + 1,
        m.settled(DeliveryStep::Done).in_flight == m.in_flight - 1,
        m.settled(DeliveryStep::Done).failed == m.failed,
        m.settled(DeliveryStep::Done).enqueued == m.enqueued,
        m.settled(DeliveryStep::GiveUp).failed == m.failed + 1,
        m.settled(DeliveryStep::GiveUp).in_flight == m.in_flight - 1,
        m.settled(DeliveryStep::GiveUp).delivered == m.delivered,
        m.settled(DeliveryStep::GiveUp).enqueued == m.enqueued,
        m.settled(DeliveryStep::RetryAfterMs(pause)) == m,
        m.delivered + m.failed + m.in_flight <= 0xffff_ffff_ffff_ffff ==> (m.balanced()
            <==> m.enqueued == m.delivered + m.failed + m.in_flight),
{
}

/// A counter at its largest value starts over at zero, and one at zero goes back to its largest
/// value.
pub proof fn counters_start_over(m: Metrics)
    ensures
        m.enqueued == 0xffff_ffff_ffff_ffff ==> m.begun().enqueued == 0,
        m.in_flight == 0xffff_ffff_ffff_ffff ==> m.begun().in_flight == 0,
        m.delivered == 0xffff_ffff_ffff_ffff ==> m.settled(DeliveryStep::Done).delivered == 0,
        m.failed == 0xffff_ffff_ffff_ffff ==> m.settled(DeliveryStep::GiveUp).failed == 0,
        m.in_flight == 0 ==> m.settled(DeliveryStep::Done).in_flight == 0xffff_ffff_ffff_ffff
            && m.settled(DeliveryStep::GiveUp).in_flight == 0xffff_ffff_ffff_ffff,
{
}

} // verus!
