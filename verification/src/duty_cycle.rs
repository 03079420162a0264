//! Accounting of transmitted airtime against a regulatory duty-cycle limit.
//!
//! Airtime is summed over a window of fixed length. A transmission is
//! admitted only while the sum, with the candidate added, stays within the
//! permitted share of the window. Once the window has run out, the sum counts
//! as zero and the next recorded transmission opens a new window.

use vstd::prelude::*;

verus! {

/// Length of the accounting window, in seconds.
pub const DUTY_CYCLE_PERIOD_SECS: u32 = 3600;

/// Tracks airtime within the current window.
#[derive(Clone, Copy, Debug, PartialEq, Eq, Structural)]
pub struct DutyCycleTracker {
    /// Airtime recorded in the current window, in milliseconds.
    pub total_airtime_ms: u32,
    /// Start of the current window, in milliseconds of the node's clock.
    pub period_start_ms: u64,
    /// Permitted share of the window, in percent.
    pub utilization_limit: u8,
    /// Length of the window, in seconds.
    pub period_length_secs: u32,
}

impl DutyCycleTracker {
    /// Length of the window in milliseconds.
    pub open spec fn period_ms(self) -> int {
        self.period_length_secs * 1000
    }

    /// Milliseconds since the window started; 0 if `now_ms` lies before it.
    pub open spec fn elapsed_ms(self, now_ms: u64) -> int {
        if now_ms >= self.period_start_ms {
            now_ms - self.period_start_ms
        } else {
            0
        }
    }

    /// The window has run out at `now_ms`.
    pub open spec fn expired(self, now_ms: u64) -> bool {
        self.elapsed_ms(now_ms) >= self.period_ms()
    }

    /// Airtime that counts against the limit at `now_ms`.
    pub open spec fn used_ms(self, now_ms: u64) -> int {
        if self.expired(now_ms) {
            0
        } else {
            self.total_airtime_ms as int
        }
    }

    /// The permitted airtime per window, in hundredths of a millisecond
    /// (the limit in percent times the window in milliseconds).
    pub open spec fn allowance(self) -> int {
        self.utilization_limit * self.period_ms()
    }

    /// A transmission of `airtime_ms` is admitted at `now_ms`: with it, the
    /// used airtime stays within the permitted share of the window.
    pub open spec fn admits(self, airtime_ms: u32, now_ms: u64) -> bool {
        (self.used_ms(now_ms) + airtime_ms) * 100 <= self.allowance()
    }

    /// The tracker after a transmission of `airtime_ms` is recorded at
    /// `now_ms`. The sum stops at the largest `u32`.
    pub open spec fn recorded(self, airtime_ms: u32, now_ms: u64) -> DutyCycleTracker {
        if self.expired(now_ms) {
            DutyCycleTracker { total_airtime_ms: airtime_ms, period_start_ms: now_ms, ..self }
        } else {
            DutyCycleTracker {
                total_airtime_ms: if self.total_airtime_ms + airtime_ms > u32::MAX {
                    u32::MAX
                } else {
                    (self.total_airtime_ms + airtime_ms) as u32
                },
                ..self
            }
        }
    }

    /// Used share of the window at `now_ms` in whole percent, at most 100.
    pub open spec fn utilization(self, now_ms: u64) -> int {
        if self.expired(now_ms) {
            0
        } else if self.total_airtime_ms * 100 / self.period_ms() > 100 {
            100
        } else {
            self.total_airtime_ms * 100 / self.period_ms()
        }
    }

    /// The recorded airtime is within the permitted share of the window.
    pub open spec fn within_limit(self) -> bool {
        self.total_airtime_ms * 100 <= self.allowance()
    }

    /// The tracker with an empty one-hour window that starts at `now_ms`.
    pub open spec fn new_spec(utilization_limit: u8, now_ms: u64) -> DutyCycleTracker {
        DutyCycleTracker {
            total_airtime_ms: 0,
            period_start_ms: now_ms,
            utilization_limit,
            period_length_secs: DUTY_CYCLE_PERIOD_SECS,
        }
    }

    /// A tracker with an empty one-hour window that starts at `now_ms`.
    pub fn new(utilization_limit: u8, now_ms: u64) -> (t: DutyCycleTracker)
        ensures
            t == DutyCycleTracker::new_spec(utilization_limit, now_ms),
            t.within_limit(),
    {
        DutyCycleTracker {
            total_airtime_ms: 0,
            period_start_ms: now_ms,
            utilization_limit,
            period_length_secs: DUTY_CYCLE_PERIOD_SECS,
        }
    }

    fn is_expired(&self, now_ms: u64) -> (e: bool)
        ensures
            e == self.expired(now_ms),
    {
        let elapsed: u64 = if now_ms >= self.period_start_ms {
            now_ms - self.period_start_ms
        } else {
            0
        };
        elapsed >= (self.period_length_secs as u64) * 1000
    }

    /// Whether a transmission of `packet_airtime_ms` may start at `now_ms`.
    pub fn can_transmit(&self, packet_airtime_ms: u32, now_ms: u64) -> (ok: bool)
        ensures
            ok == self.admits(packet_airtime_ms, now_ms),
    {
        let used: u64 = if self.is_expired(now_ms) {
            0
        } else {
            self.total_airtime_ms as u64
        };
        let period_ms: u64 = (self.period_length_secs as u64) * 1000;
        assert(self.utilization_limit * self.period_ms() <= 255 * (0xffff_ffff * 1000))
            by (nonlinear_arith)
            requires
                0 <= self.utilization_limit <= 255,
                0 <= self.period_ms() <= 0xffff_ffff * 1000,
        ;
        (used + packet_airtime_ms as u64) * 100 <= (self.utilization_limit as u64) * period_ms
    }

    /// Records a transmission of `packet_airtime_ms` that ended at `now_ms`.
    pub fn record_transmission(&mut self, packet_airtime_ms: u32, now_ms: u64)
        ensures
            *final(self) == old(self).recorded(packet_airtime_ms, now_ms),
    {
        if self.is_expired(now_ms) {
            self.total_airtime_ms = packet_airtime_ms;
            self.period_start_ms = now_ms;
        } else {
            self.total_airtime_ms = self.total_airtime_ms.saturating_add(packet_airtime_ms);
        }
    }

    /// The used share of the window at `now_ms`, in whole percent.
    pub fn get_utilization_percent(&self, now_ms: u64) -> (p: u8)
        ensures
            p == self.utilization(now_ms),
            p <= 100,
    {
        if self.is_expired(now_ms) {
            return 0;
        }
        let period_ms: u64 = (self.period_length_secs as u64) * 1000;
        let percent: u64 = (self.total_airtime_ms as u64) * 100 / period_ms;
        if percent > 100 {
            100
        } else {
            percent as u8
        }
    }

    /// Time does not run backwards for the window: if it has not run out at
    /// a later instant, it had not run out at an earlier one.
    pub proof fn lemma_expired_monotone(self, earlier_ms: u64, later_ms: u64)
        requires
            earlier_ms <= later_ms,
            self.expired(earlier_ms),
        ensures
            self.expired(later_ms),
    {
    }

    /// Admission keeps the limit: a transmission that was admitted at one
    /// instant and is recorded at the same or a later instant leaves the
    /// recorded airtime within the permitted share of the window.
    pub proof fn lemma_admitted_stays_within_limit(
        self,
        airtime_ms: u32,
        admitted_at_ms: u64,
        recorded_at_ms: u64,
    )
        requires
            admitted_at_ms <= recorded_at_ms,
            self.admits(airtime_ms, admitted_at_ms),
        ensures
            self.recorded(airtime_ms, recorded_at_ms).within_limit(),
    {
        if !self.expired(recorded_at_ms) {
            if self.expired(admitted_at_ms) {
                self.lemma_expired_monotone(admitted_at_ms, recorded_at_ms);
            }
        }
    }

    /// With a one-hour window and a limit of `limit` percent, airtime within
    /// the limit is at most `limit` times 36 seconds.
    pub proof fn lemma_within_limit_bound(self)
        requires
            self.within_limit(),
            self.period_length_secs == DUTY_CYCLE_PERIOD_SECS,
        ensures
            self.total_airtime_ms <= self.utilization_limit * 36_000,
    {
        assert(self.utilization_limit * (3600 * 1000) == (self.utilization_limit * 36_000) * 100)
            by (nonlinear_arith);
    }
}

} // verus!
