//! The relay engine as the relay task sees it: one state that may not have
//! been set up yet, and what holds of a whole run of arrivals.

use crate::header::MAX_HOPS;
use crate::packet::DecodedPacketView;
use crate::policy::{max_retransmissions_of, MAX_PENDING_PACKETS, MAX_RECENT_PACKETS};
use crate::relay::{Intake, RelayState, RelayStateView, Verdict};
use crate::stats::{RelayError, RelayStats};
use vstd::prelude::*;

verus! {

/// A packet that arrives from the bus, with the time of its arrival and
/// the entropy drawn for its relay delay.
pub struct Arrival {
    pub packet: DecodedPacketView,
    pub now_ms: u64,
    pub entropy: u64,
}

/// The state after a run of arrivals was taken in, one after the other.
pub open spec fn after_arrivals(start: RelayStateView, run: Seq<Arrival>) -> RelayStateView
    decreases run.len(),
{
    if run.len() == 0 {
        start
    } else {
        after_arrivals(start, run.drop_last()).taking_in(
            run.last().packet,
            run.last().now_ms,
            run.last().entropy,
        )
    }
}

/// The number of arrivals of a run that the admission rules refused for a
/// reason other than being a duplicate.
pub open spec fn refusals(start: RelayStateView, run: Seq<Arrival>) -> nat
    decreases run.len(),
{
    if run.len() == 0 {
        0
    } else {
        refusals(start, run.drop_last()) + (match after_arrivals(start, run.drop_last()).intake(
            run.last().packet,
        ) {
            Intake::Refused(v) => if v != Verdict::Duplicate {
                1nat
            } else {
                0nat
            },
            _ => 0nat,
        })
    }
}

/// Whether the relay state has been set up.
pub fn is_relay_initialized(state: &Option<RelayState>) -> (b: bool)
    ensures
        b == (state is Some),
{
    state.is_some()
}

/// The number of pending packets, the number of packet ids remembered, and
/// whether more than 90 percent of the duty-cycle window is used at `now_ms`;
/// zeros and `false` for a state that has not been set up.
pub fn get_relay_queue_status(state: &Option<RelayState>, now_ms: u64) -> (r: (usize, usize, bool))
    requires
        state matches Some(s) ==> s.wf(),
    ensures
        state is None ==> r == (0usize, 0usize, false),
        state matches Some(s) ==> r.0 == s@.pending.dom().len() && r.1 == s@.recent.len() && r.2
            == (s@.duty_cycle.utilization(now_ms) > 90),
{
    match state {
        Some(s) => (
            s.pending_count(),
            s.recent_count(),
            s.duty_cycle().get_utilization_percent(now_ms) > 90,
        ),
        None => (0, 0, false),
    }
}

/// Sets the counters to zero. Fails for a state that has not been set up.
pub fn reset_relay_stats(state: &mut Option<RelayState>) -> (r: Result<(), RelayError>)
    requires
        *old(state) matches Some(s) ==> s.wf(),
    ensures
        r is Ok <==> *old(state) is Some,
        r is Err ==> r->Err_0 == RelayError::NotInitialized && *final(state) is None,
        r is Ok ==> (*final(state) matches Some(s) && s.wf() && s@ == (RelayStateView {
            stats: RelayStats::zero(),
            ..old(state)->0@
        })),
{
    match state.take() {
        Some(s) => {
            let mut s = s;
            s.reset_stats();
            *state = Some(s);
            Ok(())
        },
        None => Err(RelayError::NotInitialized),
    }
}

/// The counters, with the duty-cycle utilization at `now_ms` filled in; all
/// zeros for a state that has not been set up.
pub fn get_relay_stats(state: &Option<RelayState>, now_ms: u64) -> (r: RelayStats)
    ensures
        state is None ==> r == RelayStats::zero(),
        state matches Some(s) ==> r == (RelayStats {
            current_duty_cycle_percent: s@.duty_cycle.utilization(now_ms) as u8,
            ..s@.stats
        }),
{
    match state {
        Some(s) => {
            let mut stats = s.stats();
            stats.current_duty_cycle_percent = s.duty_cycle().get_utilization_percent(now_ms);
            stats
        },
        None => RelayStats::default(),
    }
}

/// Makes the pending packet with this id due at `now_ms`. Says whether
/// there is such a packet.
pub fn trigger_retransmission(state: &mut Option<RelayState>, packet_id: u32, now_ms: u64) -> (found:
    bool)
    requires
        *old(state) matches Some(s) ==> s.wf(),
    ensures
        *old(state) is None ==> !found && *final(state) is None,
        *old(state) matches Some(s) ==> found == s@.pending.dom().contains(packet_id),
        *old(state) matches Some(s) ==> (*final(state) matches Some(t) && t.wf() && t@
            == s@.hastening(packet_id, now_ms)),
{
    match state.take() {
        Some(s) => {
            let mut s = s;
            let found = s.hasten(packet_id, now_ms);
            *state = Some(s);
            found
        },
        None => false,
    }
}

/// A packet that the admission rules admit has a packet id other than 0,
/// a hop limit that does not exceed its hop start, and a hop start of at
/// most 7.
pub proof fn lemma_admitted_is_valid(state: RelayStateView, p: DecodedPacketView)
    requires
        state.verdict(p) == Verdict::Admitted,
    ensures
        p.header.packet_id != 0,
        p.header.flags.hop_limit <= p.header.flags.hop_start,
        p.header.flags.hop_start <= MAX_HOPS,
        p.header.flags.hop_limit > 0,
        p.header.source != state.our_node_id,
{
}

/// A valid state holds at most 16 pending packets and remembers at most
/// 31 packet ids, which is within the 32 that the table of recent ids is
/// laid out for.
pub proof fn lemma_valid_bounds(state: RelayStateView)
    requires
        state.valid(),
    ensures
        state.pending.dom().finite(),
        state.pending.dom().len() <= MAX_PENDING_PACKETS,
        state.recent.len() <= MAX_RECENT_PACKETS,
        state.recent.len() <= 32,
{
}

/// In a valid state every pending entry has used no more than its retry
/// budget, and the budget is the one that the port table grants: 4 for
/// routing, 2 for text messages, otherwise 3, and 0 without acknowledgment.
pub proof fn lemma_pending_keeps_budget(state: RelayStateView, packet_id: u32)
    requires
        state.valid(),
        state.pending.dom().contains(packet_id),
    ensures
        state.pending[packet_id].retry_count <= state.pending[packet_id].max_retransmissions,
        state.pending[packet_id].max_retransmissions == max_retransmissions_of(
            state.pending[packet_id].packet.port(),
            state.pending[packet_id].wants_ack,
        ),
        state.pending[packet_id].packet.header.packet_id == packet_id,
{
}

/// Taking in a packet keeps a valid state valid.
pub proof fn lemma_taking_in_keeps_valid(
    state: RelayStateView,
    p: DecodedPacketView,
    now_ms: u64,
    entropy: u64,
)
    requires
        state.valid(),
    ensures
        state.taking_in(p, now_ms, entropy).valid(),
{
    let acked = state.acknowledging(p);
    assert(acked.valid());
    let judged = acked.judging(p);
    assert(judged.valid());
    if state.verdict(p) == Verdict::Admitted {
        let port = p.port();
        let queued = judged.queuing(
            p,
            crate::policy::wants_ack_of(port),
            crate::policy::priority_of(port),
            now_ms,
            entropy,
        );
        if !judged.queue_full_for(p.header.packet_id) {
            let entry = judged.entry_for(
                p,
                crate::policy::wants_ack_of(port),
                crate::policy::priority_of(port),
                now_ms,
                entropy,
            );
            assert(entry.valid());
            assert(queued.pending == judged.pending.insert(p.header.packet_id, entry));
        }
        assert(queued.valid());
    }
}

/// Over a run of arrivals, every arrival is counted as received, and no
/// arrival is counted twice among the packets queued, the loop-prevention
/// drops and the refusals: if these three together were within the packets
/// received before the run, they are so after it. The counters must have
/// room for the run.
pub proof fn lemma_received_accounts_for_all(start: RelayStateView, run: Seq<Arrival>, earlier: nat)
    requires
        start.stats.packets_received + run.len() <= u32::MAX,
        start.stats.packets_queued + start.stats.loop_prevention_drops + earlier
            <= start.stats.packets_received,
    ensures
        after_arrivals(start, run).stats.packets_received == start.stats.packets_received
            + run.len(),
        after_arrivals(start, run).stats.packets_queued + after_arrivals(
            start,
            run,
        ).stats.loop_prevention_drops + earlier + refusals(start, run) <= after_arrivals(
            start,
            run,
        ).stats.packets_received,
    decreases run.len(),
{
    if run.len() > 0 {
        lemma_received_accounts_for_all(start, run.drop_last(), earlier);
        let before = after_arrivals(start, run.drop_last());
        let p = run.last().packet;
        let acked = before.acknowledging(p);
        let judged = acked.judging(p);
        assert(acked.stats.packets_received == before.stats.packets_received);
        assert(judged.stats.packets_received == before.stats.packets_received + 1);
    }
}

} // verus!
