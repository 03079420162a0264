//! Counters and errors of the relay engine.

use vstd::prelude::*;

verus! {

/// Counters of the relay engine. Each counter only grows and stops at the
/// largest `u32`.
#[derive(Clone, Copy, Debug, PartialEq, Eq, Structural)]
pub struct RelayStats {
    /// Packets received and considered for relay.
    pub packets_received: u32,
    /// Packets queued for relay.
    pub packets_queued: u32,
    /// Transmissions that succeeded.
    pub packets_transmitted: u32,
    /// Packets dropped: queue full, channel busy too often, transmit failure.
    pub packets_dropped: u32,
    /// Packets removed from the queue because of their age.
    pub packets_expired: u32,
    /// Times the channel was found busy.
    pub channel_busy_events: u32,
    /// Transmissions deferred by the duty-cycle limit.
    pub duty_cycle_blocks: u32,
    /// Implicit acknowledgments received.
    pub implicit_acks: u32,
    /// Packets dropped as duplicates.
    pub loop_prevention_drops: u32,
    /// Retransmissions scheduled.
    pub retransmissions: u32,
    /// Duty-cycle utilization in percent when the snapshot was taken.
    pub current_duty_cycle_percent: u8,
}

/// Errors of the relay engine.
#[derive(Clone, Debug)]
pub enum RelayError {
    /// The queue of pending packets is full.
    QueueFull,
    /// The duty-cycle limit would be exceeded.
    DutyCycleExceeded,
    /// The channel is too busy for transmission.
    ChannelBusy,
    /// The transmission failed.
    TransmissionFailed(&'static str),
    /// The packet is invalid.
    InvalidPacket(&'static str),
    /// The relay state has not been set up.
    NotInitialized,
}

/// `n` plus one, stopping at the largest `u32`.
pub open spec fn bump(n: u32) -> u32 {
    if n < u32::MAX {
        (n + 1) as u32
    } else {
        n
    }
}

/// `n` plus `k`, stopping at the largest `u32`.
pub open spec fn bump_by(n: u32, k: nat) -> u32 {
    if n + k <= u32::MAX {
        (n + k) as u32
    } else {
        u32::MAX
    }
}

/// Increments a counter, stopping at the largest `u32`.
pub fn bumped(n: u32) -> (r: u32)
    ensures
        r == bump(n),
        r == bump_by(n, 1),
{
    n.saturating_add(1)
}

impl RelayStats {
    /// All counters at zero.
    pub open spec fn zero() -> RelayStats {
        RelayStats {
            packets_received: 0,
            packets_queued: 0,
            packets_transmitted: 0,
            packets_dropped: 0,
            packets_expired: 0,
            channel_busy_events: 0,
            duty_cycle_blocks: 0,
            implicit_acks: 0,
            loop_prevention_drops: 0,
            retransmissions: 0,
            current_duty_cycle_percent: 0,
        }
    }

    /// No counter of `self` is below the same counter of `earlier`.
    pub open spec fn not_below(self, earlier: RelayStats) -> bool {
        &&& self.packets_received >= earlier.packets_received
        &&& self.packets_queued >= earlier.packets_queued
        &&& self.packets_transmitted >= earlier.packets_transmitted
        &&& self.packets_dropped >= earlier.packets_dropped
        &&& self.packets_expired >= earlier.packets_expired
        &&& self.channel_busy_events >= earlier.channel_busy_events
        &&& self.duty_cycle_blocks >= earlier.duty_cycle_blocks
        &&& self.implicit_acks >= earlier.implicit_acks
        &&& self.loop_prevention_drops >= earlier.loop_prevention_drops
        &&& self.retransmissions >= earlier.retransmissions
    }
}

impl Default for RelayStats {
    fn default() -> (s: RelayStats)
        ensures
            s == RelayStats::zero(),
    {
        RelayStats {
            packets_received: 0,
            packets_queued: 0,
            packets_transmitted: 0,
            packets_dropped: 0,
            packets_expired: 0,
            channel_busy_events: 0,
            duty_cycle_blocks: 0,
            implicit_acks: 0,
            loop_prevention_drops: 0,
            retransmissions: 0,
            current_duty_cycle_percent: 0,
        }
    }
}

} // verus!
