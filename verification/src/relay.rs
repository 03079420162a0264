//! The relay engine's state and the operations on it: admission, queueing,
//! scheduling, retransmission, backoff and expiry.
//!
//! Time is a count of milliseconds that the caller reads from the node's
//! clock and hands in.

use crate::airtime::LoraConfig;
use crate::data::PortNum;
use crate::duty_cycle::DutyCycleTracker;
use crate::header::{Header, MAX_HOPS};
use crate::packet::{DecodedPacket, DecodedPacketView};
use crate::pending::{
    entries_view,
    lemma_entries_view_dom,
    lemma_entries_view_insert,
    lemma_entries_view_remove,
    lemma_entries_view_remove_keys,
    PendingPacket,
    PendingView,
};
use crate::policy::{
    busy_backoff,
    busy_backoff_ms,
    get_max_retransmissions,
    get_packet_priority,
    max_retransmissions_of,
    packet_wants_ack,
    priority_of,
    wants_ack_of,
    port_is_relayed,
    relay_delay,
    relay_delay_ms,
    retry_interval,
    retry_interval_ms,
    time_after,
    CHANNEL_UTIL_LIMIT,
    MAX_CHANNEL_BUSY_RETRIES,
    MAX_PACKET_AGE_MS,
    MAX_PENDING_PACKETS,
    MAX_RECENT_PACKETS,
    OUR_NODE_ID,
};
use crate::stats::{bump, bump_by, bumped, RelayError, RelayStats};
use crate::store::{
    pending_entries,
    pending_get,
    pending_ids,
    pending_insert,
    pending_len,
    pending_new,
    pending_remove,
    recent_dequeue,
    recent_enqueue,
    recent_ids,
    recent_is_full,
    recent_len,
    recent_list,
    recent_new,
};
use vstd::prelude::*;

verus! {

/// A transmission that the duty-cycle limit has admitted and that has not
/// been reported back yet.
#[derive(Clone, Copy, Debug, PartialEq, Eq, Structural)]
pub struct InFlight {
    /// Id of the packet on air.
    pub packet_id: u32,
    /// Estimated airtime of the frame, in milliseconds.
    pub airtime_ms: u32,
    /// When the duty-cycle limit admitted the transmission.
    pub admitted_at_ms: u64,
}

/// State of the relay engine.
pub struct RelayState {
    pending_packets: heapless::FnvIndexMap<u32, PendingPacket, 16>,
    recent_packets: heapless::spsc::Queue<u32, 32>,
    our_node_id: u32,
    rx_boost_enabled: bool,
    duty_cycle: DutyCycleTracker,
    stats: RelayStats,
    in_flight: Option<InFlight>,
}

/// What a `RelayState` holds, as a mathematical value.
pub struct RelayStateView {
    /// Packets that wait for transmission, by packet id.
    pub pending: Map<u32, PendingView>,
    /// Ids of the packets queued most recently, oldest first.
    pub recent: Seq<u32>,
    /// This node's id.
    pub our_node_id: u32,
    /// Receive boost is on: relay delays start from the larger base.
    pub rx_boost_enabled: bool,
    /// The duty-cycle accountant.
    pub duty_cycle: DutyCycleTracker,
    /// The counters.
    pub stats: RelayStats,
    /// The transmission under way, if any.
    pub in_flight: Option<InFlight>,
}

/// What the admission rules say of a packet. The rules are tried in the
/// order of the variants, and the first that applies decides.
#[derive(Clone, Copy, Debug, PartialEq, Eq, Structural)]
pub enum Verdict {
    /// The packet id is 0.
    ZeroPacketId,
    /// The hop start is above 7.
    HopStartTooHigh,
    /// The hop limit is above the hop start.
    HopLimitAboveStart,
    /// The source is 0 or the broadcast address.
    ReservedSource,
    /// The packet came from this node.
    OwnPacket,
    /// The packet id is among the recent ones.
    Duplicate,
    /// The hop limit is 0.
    HopsExhausted,
    /// The packet is addressed to this node.
    AddressedToUs,
    /// The port is not one that is relayed.
    PortNotRelayed,
    /// No rule refuses the packet.
    Admitted,
}

/// The first validation rule that a header breaks, if any.
pub open spec fn header_defect(h: Header) -> Option<Verdict> {
    if h.packet_id == 0 {
        Some(Verdict::ZeroPacketId)
    } else if h.flags.hop_start > MAX_HOPS {
        Some(Verdict::HopStartTooHigh)
    } else if h.flags.hop_limit > h.flags.hop_start {
        Some(Verdict::HopLimitAboveStart)
    } else if h.source == 0 || h.source == 0xFFFF_FFFF {
        Some(Verdict::ReservedSource)
    } else {
        None
    }
}

/// The verdict of the admission rules on packet `p` for a node with id
/// `our_node_id` that remembers the packet ids `recent`.
pub open spec fn verdict_of(our_node_id: u32, recent: Seq<u32>, p: DecodedPacketView) -> Verdict {
    if header_defect(p.header) is Some {
        header_defect(p.header)->0
    } else if p.header.source == our_node_id {
        Verdict::OwnPacket
    } else if recent.contains(p.header.packet_id) {
        Verdict::Duplicate
    } else if p.header.flags.hop_limit == 0 {
        Verdict::HopsExhausted
    } else if p.header.destination == our_node_id {
        Verdict::AddressedToUs
    } else if !port_is_relayed(p.port()) {
        Verdict::PortNotRelayed
    } else {
        Verdict::Admitted
    }
}

impl Verdict {
    /// The verdict names a broken validation rule.
    pub open spec fn is_invalid(self) -> bool {
        self == Verdict::ZeroPacketId || self == Verdict::HopStartTooHigh || self
            == Verdict::HopLimitAboveStart || self == Verdict::ReservedSource
    }

    /// The message that goes with a broken validation rule.
    pub open spec fn message(self) -> &'static str {
        if self == Verdict::ZeroPacketId {
            "Packet ID cannot be zero"
        } else if self == Verdict::HopStartTooHigh {
            "Hop start too high"
        } else if self == Verdict::HopLimitAboveStart {
            "Hop limit cannot exceed hop start"
        } else {
            "Invalid source node ID"
        }
    }

    /// The answer of the admission check: an error for an invalid packet,
    /// else whether the packet is to be relayed.
    pub open spec fn answer(self) -> Result<bool, RelayError> {
        if self.is_invalid() {
            Err(RelayError::InvalidPacket(self.message()))
        } else {
            Ok(self == Verdict::Admitted)
        }
    }
}

impl RelayStateView {
    /// The invariant of the relay state: the bounds of its two collections,
    /// the validity of every pending entry, which is filed under its own
    /// packet id, and the duty-cycle limit, which holds of what is recorded
    /// and of the transmission under way.
    pub open spec fn valid(self) -> bool {
        &&& self.pending.dom().finite()
        &&& self.pending.dom().len() <= MAX_PENDING_PACKETS
        &&& self.recent.len() <= MAX_RECENT_PACKETS
        &&& forall|id: u32| #[trigger]
            self.pending.dom().contains(id) ==> self.pending[id].valid()
                && self.pending[id].packet.header.packet_id == id
        &&& self.duty_cycle.within_limit()
        &&& self.in_flight is Some ==> self.duty_cycle.admits(
            self.in_flight->0.airtime_ms,
            self.in_flight->0.admitted_at_ms,
        )
    }

    /// The verdict of the admission rules on `p`.
    pub open spec fn verdict(self, p: DecodedPacketView) -> Verdict {
        verdict_of(self.our_node_id, self.recent, p)
    }

    /// The state after the packet id was remembered: the id goes to the
    /// back, and the oldest id leaves if 31 were held.
    pub open spec fn remembering(self, packet_id: u32) -> RelayStateView {
        RelayStateView {
            recent: if self.recent.len() == MAX_RECENT_PACKETS {
                self.recent.drop_first().push(packet_id)
            } else {
                self.recent.push(packet_id)
            },
            ..self
        }
    }

    /// The state after an implicit acknowledgment was looked for: a packet
    /// from this node whose id is pending takes the entry away and counts;
    /// any other packet changes nothing.
    pub open spec fn acknowledging(self, p: DecodedPacketView) -> RelayStateView {
        if p.header.source == self.our_node_id && self.pending.dom().contains(p.header.packet_id) {
            RelayStateView {
                pending: self.pending.remove(p.header.packet_id),
                stats: RelayStats { implicit_acks: bump(self.stats.implicit_acks), ..self.stats },
                ..self
            }
        } else {
            self
        }
    }

    /// The state after the admission check of `p`: the reception counts;
    /// a packet of this node's own is looked up for an implicit
    /// acknowledgment; a duplicate counts as a loop-prevention drop.
    pub open spec fn judging(self, p: DecodedPacketView) -> RelayStateView {
        let counted = RelayStateView {
            stats: RelayStats {
                packets_received: bump(self.stats.packets_received),
                ..self.stats
            },
            ..self
        };
        if self.verdict(p) == Verdict::OwnPacket {
            counted.acknowledging(p)
        } else if self.verdict(p) == Verdict::Duplicate {
            RelayStateView {
                stats: RelayStats {
                    loop_prevention_drops: bump(counted.stats.loop_prevention_drops),
                    ..counted.stats
                },
                ..counted
            }
        } else {
            counted
        }
    }
}

impl RelayStateView {
    /// The entry that queueing `p` at `now_ms` makes: due after the relay
    /// delay, with the retry budget of its port and nothing used of it.
    pub open spec fn entry_for(
        self,
        p: DecodedPacketView,
        wants_ack: bool,
        priority: u8,
        now_ms: u64,
        entropy: u64,
    ) -> PendingView {
        PendingView {
            packet: p,
            queued_at: now_ms,
            next_tx_time: time_after(
                now_ms,
                relay_delay_ms(self.rx_boost_enabled, p.header.flags, priority, entropy),
            ),
            max_retransmissions: max_retransmissions_of(p.port(), wants_ack),
            retry_count: 0,
            channel_busy_count: 0,
            wants_ack,
            priority,
        }
    }

    /// There is no room for a packet with this id: 16 packets are pending
    /// and none of them has the id.
    pub open spec fn queue_full_for(self, packet_id: u32) -> bool {
        !self.pending.dom().contains(packet_id) && self.pending.dom().len() >= MAX_PENDING_PACKETS
    }

    /// The state after `p` was handed in for queueing. Without room the
    /// packet counts as dropped. With room its entry is filed under its id,
    /// in place of an older entry with that id if there is one, the packet
    /// counts as queued and its id is remembered.
    pub open spec fn queuing(
        self,
        p: DecodedPacketView,
        wants_ack: bool,
        priority: u8,
        now_ms: u64,
        entropy: u64,
    ) -> RelayStateView {
        if self.queue_full_for(p.header.packet_id) {
            RelayStateView {
                stats: RelayStats {
                    packets_dropped: bump(self.stats.packets_dropped),
                    ..self.stats
                },
                ..self
            }
        } else {
            (RelayStateView {
                pending: self.pending.insert(
                    p.header.packet_id,
                    self.entry_for(p, wants_ack, priority, now_ms, entropy),
                ),
                stats: RelayStats { packets_queued: bump(self.stats.packets_queued), ..self.stats },
                ..self
            }).remembering(p.header.packet_id)
        }
    }

    /// The ids of the pending packets that are older than the maximum age
    /// at `now_ms`.
    pub open spec fn expired_ids(self, now_ms: u64) -> Set<u32> {
        Set::new(
            |id: u32|
                self.pending.dom().contains(id) && self.pending[id].age_ms(now_ms)
                    > MAX_PACKET_AGE_MS,
        )
    }

    /// The state after the packets that are too old at `now_ms` were
    /// removed and counted.
    pub open spec fn expiring(self, now_ms: u64) -> RelayStateView {
        RelayStateView {
            pending: self.pending.remove_keys(self.expired_ids(now_ms)),
            stats: RelayStats {
                packets_expired: bump_by(
                    self.stats.packets_expired,
                    self.expired_ids(now_ms).len(),
                ),
                ..self.stats
            },
            ..self
        }
    }

    /// The packet with this id is pending and due at `now_ms`, and no other
    /// due packet comes before it: none has an earlier transmission time, and
    /// of those with the same time none has a smaller id.
    pub open spec fn is_next_ready(self, now_ms: u64, packet_id: u32) -> bool {
        &&& self.pending.dom().contains(packet_id)
        &&& self.pending[packet_id].ready(now_ms)
        &&& forall|other: u32| #[trigger]
            self.pending.dom().contains(other) && self.pending[other].ready(now_ms)
                ==> self.pending[packet_id].due_no_later_than(self.pending[other])
    }

    /// No pending packet is due at `now_ms`.
    pub open spec fn none_ready(self, now_ms: u64) -> bool {
        forall|id: u32| #[trigger] self.pending.dom().contains(id) ==> !self.pending[id].ready(now_ms)
    }

    /// The state after the packet with this id was transmitted at `now_ms`.
    /// Nothing changes unless the packet is pending. A pending packet counts
    /// as transmitted; with a retransmission left it is scheduled again after
    /// the next interval of the retry schedule, else it leaves the queue.
    pub open spec fn transmitted(self, packet_id: u32, now_ms: u64) -> RelayStateView {
        if !self.pending.dom().contains(packet_id) {
            self
        } else {
            let e = self.pending[packet_id];
            if e.retry_count < e.max_retransmissions {
                RelayStateView {
                    pending: self.pending.insert(
                        packet_id,
                        PendingView {
                            retry_count: (e.retry_count + 1) as u8,
                            next_tx_time: time_after(
                                now_ms,
                                retry_interval_ms((e.retry_count + 1) as u8) as int,
                            ),
                            ..e
                        },
                    ),
                    stats: RelayStats {
                        packets_transmitted: bump(self.stats.packets_transmitted),
                        retransmissions: bump(self.stats.retransmissions),
                        ..self.stats
                    },
                    ..self
                }
            } else {
                RelayStateView {
                    pending: self.pending.remove(packet_id),
                    stats: RelayStats {
                        packets_transmitted: bump(self.stats.packets_transmitted),
                        ..self.stats
                    },
                    ..self
                }
            }
        }
    }

    /// The state after the channel was found busy at `now_ms` for the packet
    /// with this id. Nothing changes unless the packet is pending. For a
    /// pending packet the event counts; up to the eighth time the packet is
    /// put off by the backoff, after that it is dropped.
    pub open spec fn backing_off(self, packet_id: u32, now_ms: u64) -> RelayStateView {
        if !self.pending.dom().contains(packet_id) {
            self
        } else {
            let e = self.pending[packet_id];
            if e.channel_busy_count < MAX_CHANNEL_BUSY_RETRIES {
                RelayStateView {
                    pending: self.pending.insert(
                        packet_id,
                        PendingView {
                            channel_busy_count: (e.channel_busy_count + 1) as u8,
                            next_tx_time: time_after(
                                now_ms,
                                busy_backoff_ms((e.channel_busy_count + 1) as u8),
                            ),
                            ..e
                        },
                    ),
                    stats: RelayStats {
                        channel_busy_events: bump(self.stats.channel_busy_events),
                        ..self.stats
                    },
                    ..self
                }
            } else {
                RelayStateView {
                    pending: self.pending.remove(packet_id),
                    stats: RelayStats {
                        channel_busy_events: bump(self.stats.channel_busy_events),
                        packets_dropped: bump(self.stats.packets_dropped),
                        ..self.stats
                    },
                    ..self
                }
            }
        }
    }

    /// The state after the packet with this id was made due at `now_ms`.
    pub open spec fn hastening(self, packet_id: u32, now_ms: u64) -> RelayStateView {
        if !self.pending.dom().contains(packet_id) {
            self
        } else {
            RelayStateView {
                pending: self.pending.insert(
                    packet_id,
                    PendingView { next_tx_time: now_ms, ..self.pending[packet_id] },
                ),
                ..self
            }
        }
    }
}

/// What became of a packet that was handed to the relay engine.
#[derive(Clone, Copy, Debug, PartialEq, Eq, Structural)]
pub enum Intake {
    /// The packet waits for its relay transmission.
    Queued,
    /// The packet was admitted but found no room and was dropped.
    QueueFull,
    /// The admission rules refused the packet.
    Refused(Verdict),
}

/// What the relay engine wants done about transmission.
#[derive(Clone, Debug)]
pub enum TxPlan {
    /// No packet is due.
    Idle,
    /// A packet is due, but its airtime does not fit the duty-cycle limit
    /// now. It stays queued.
    Deferred { packet_id: u32 },
    /// This packet is to be transmitted now.
    Transmit { packet_id: u32, packet: DecodedPacket, airtime_ms: u32 },
}

/// The length of the frame that carries a packet: header and encoded
/// payload, at most the largest `u32`.
pub open spec fn frame_len_of(p: DecodedPacketView) -> u32 {
    if 16 + p.data.encode().len() > u32::MAX {
        u32::MAX
    } else {
        (16 + p.data.encode().len()) as u32
    }
}

/// The estimated airtime of the frame that carries a packet.
pub open spec fn packet_airtime_ms(p: DecodedPacketView, config: LoraConfig) -> int {
    config.airtime_ms(frame_len_of(p))
}

impl RelayStateView {
    /// What becomes of packet `p` when it is handed in.
    pub open spec fn intake(self, p: DecodedPacketView) -> Intake {
        if self.verdict(p) != Verdict::Admitted {
            Intake::Refused(self.verdict(p))
        } else if self.queue_full_for(p.header.packet_id) {
            Intake::QueueFull
        } else {
            Intake::Queued
        }
    }

    /// The state after packet `p` was handed in at `now_ms`: it is first looked
    /// up for an implicit acknowledgment, then judged by the admission rules,
    /// and queued if they admit it, with the priority and the
    /// acknowledgment wish of its port.
    pub open spec fn taking_in(self, p: DecodedPacketView, now_ms: u64, entropy: u64) -> RelayStateView {
        let judged = self.acknowledging(p).judging(p);
        if self.verdict(p) == Verdict::Admitted {
            judged.queuing(p, wants_ack_of(p.port()), priority_of(p.port()), now_ms, entropy)
        } else {
            judged
        }
    }

    /// The state after a transmission of the packet with this id succeeded
    /// at `now_ms`. If it is the transmission under way, its airtime is
    /// recorded, no earlier than it was admitted. The packet is then
    /// accounted for as transmitted.
    pub open spec fn succeeding(self, packet_id: u32, now_ms: u64) -> RelayStateView {
        (match self.in_flight {
            Some(f) => if f.packet_id == packet_id {
                RelayStateView {
                    duty_cycle: self.duty_cycle.recorded(
                        f.airtime_ms,
                        if now_ms >= f.admitted_at_ms {
                            now_ms
                        } else {
                            f.admitted_at_ms
                        },
                    ),
                    in_flight: None,
                    ..self
                }
            } else {
                self
            },
            None => self,
        }).transmitted(packet_id, now_ms)
    }

    /// The state after a transmission of the packet with this id failed: the
    /// packet leaves the queue and counts as dropped.
    pub open spec fn failing(self, packet_id: u32) -> RelayStateView {
        RelayStateView {
            pending: self.pending.remove(packet_id),
            stats: RelayStats { packets_dropped: bump(self.stats.packets_dropped), ..self.stats },
            in_flight: match self.in_flight {
                Some(f) => if f.packet_id == packet_id {
                    None
                } else {
                    self.in_flight
                },
                None => None,
            },
            ..self
        }
    }
}

impl View for RelayState {
    type V = RelayStateView;

    closed spec fn view(&self) -> RelayStateView {
        RelayStateView {
            pending: entries_view(pending_entries(self.pending_packets)),
            recent: recent_ids(self.recent_packets),
            our_node_id: self.our_node_id,
            rx_boost_enabled: self.rx_boost_enabled,
            duty_cycle: self.duty_cycle,
            stats: self.stats,
            in_flight: self.in_flight,
        }
    }
}

impl RelayState {
    /// The state satisfies its invariant.
    pub open spec fn wf(&self) -> bool {
        self@.valid()
    }

    /// The empty state of a node with this node's id, receive boost on and a
    /// duty-cycle window that starts at `now_ms`.
    pub fn new(now_ms: u64) -> (s: RelayState)
        ensures
            s.wf(),
            s@ == (RelayStateView {
                pending: Map::empty(),
                recent: Seq::empty(),
                our_node_id: OUR_NODE_ID,
                rx_boost_enabled: true,
                duty_cycle: DutyCycleTracker::new_spec(CHANNEL_UTIL_LIMIT, now_ms),
                stats: RelayStats::zero(),
                in_flight: None,
            }),
    {
        RelayState::with_settings(OUR_NODE_ID, true, CHANNEL_UTIL_LIMIT, now_ms)
    }

    /// The empty state of a node with the given id, receive-boost setting
    /// and duty-cycle limit in percent.
    pub fn with_settings(
        our_node_id: u32,
        rx_boost_enabled: bool,
        utilization_limit: u8,
        now_ms: u64,
    ) -> (s: RelayState)
        ensures
            s.wf(),
            s@ == (RelayStateView {
                pending: Map::empty(),
                recent: Seq::empty(),
                our_node_id,
                rx_boost_enabled,
                duty_cycle: DutyCycleTracker::new_spec(utilization_limit, now_ms),
                stats: RelayStats::zero(),
                in_flight: None,
            }),
    {
        let s = RelayState {
            pending_packets: pending_new(),
            recent_packets: recent_new(),
            our_node_id,
            rx_boost_enabled,
            duty_cycle: DutyCycleTracker::new(utilization_limit, now_ms),
            stats: RelayStats::default(),
            in_flight: None,
        };
        assert(s@.pending =~= Map::empty());
        s
    }

    /// Whether the packet id is among the recent ones.
    pub fn is_recent_packet(&self, packet_id: u32) -> (found: bool)
        ensures
            found == self@.recent.contains(packet_id),
    {
        let ids = recent_list(&self.recent_packets);
        let mut i: usize = 0;
        while i < ids.len()
            invariant
                i <= ids.len(),
                ids@ == self@.recent,
                forall|j: int| 0 <= j < i ==> ids@[j] != packet_id,
            decreases ids.len() - i,
        {
            if ids[i] == packet_id {
                return true;
            }
            i = i + 1;
        }
        false
    }

    /// Remembers a packet id; the oldest one is forgotten when 31 are held.
    pub fn add_recent_packet(&mut self, packet_id: u32)
        requires
            old(self).wf(),
        ensures
            final(self).wf(),
            final(self)@ == old(self)@.remembering(packet_id),
    {
        if recent_is_full(&self.recent_packets) {
            let _ = recent_dequeue(&mut self.recent_packets);
        }
        let _ = recent_enqueue(&mut self.recent_packets, packet_id);
        assert(final(self)@.pending =~= old(self)@.pending);
    }

    /// Checks a packet's header against the validation rules.
    pub fn validate_packet(&self, packet: &DecodedPacket) -> (r: Result<(), RelayError>)
        ensures
            r is Ok <==> header_defect(packet@.header) is None,
            r is Err ==> r->Err_0 == RelayError::InvalidPacket(
                header_defect(packet@.header)->0.message(),
            ),
    {
        if packet.header.packet_id == 0 {
            return Err(RelayError::InvalidPacket("Packet ID cannot be zero"));
        }
        if packet.header.flags.hop_start > MAX_HOPS {
            return Err(RelayError::InvalidPacket("Hop start too high"));
        }
        if packet.header.flags.hop_limit > packet.header.flags.hop_start {
            return Err(RelayError::InvalidPacket("Hop limit cannot exceed hop start"));
        }
        if packet.header.source == 0 || packet.header.source == 0xFFFF_FFFF {
            return Err(RelayError::InvalidPacket("Invalid source node ID"));
        }
        Ok(())
    }

    /// Runs the admission rules on a packet and counts the outcome.
    pub fn should_relay(&mut self, packet: &DecodedPacket) -> (r: Result<bool, RelayError>)
        requires
            old(self).wf(),
        ensures
            final(self).wf(),
            r == old(self)@.verdict(packet@).answer(),
            final(self)@ == old(self)@.judging(packet@),
            (r matches Ok(relay) && relay) ==> packet.header.packet_id != 0
                && packet.header.flags.hop_limit <= packet.header.flags.hop_start
                && packet.header.flags.hop_start <= MAX_HOPS,
    {
        self.stats.packets_received = bumped(self.stats.packets_received);
        match self.validate_packet(packet) {
            Err(e) => {
                return Err(e);
            },
            Ok(_) => {},
        }
        if packet.header.source == self.our_node_id {
            self.handle_implicit_ack(packet);
            return Ok(false);
        }
        if self.is_recent_packet(packet.header.packet_id) {
            self.stats.loop_prevention_drops = bumped(self.stats.loop_prevention_drops);
            return Ok(false);
        }
        if packet.header.flags.hop_limit == 0 {
            return Ok(false);
        }
        if packet.header.destination == self.our_node_id {
            return Ok(false);
        }
        let relayed = match packet.port_num() {
            PortNum::Routing => true,
            PortNum::TextMessage => true,
            PortNum::NodeInfo => true,
            PortNum::Position => true,
            PortNum::Telemetry => true,
            _ => false,
        };
        Ok(relayed)
    }

    /// The delay before a packet's first relay transmission; `entropy`
    /// picks the jitter.
    pub fn calculate_relay_delay(&self, packet: &DecodedPacket, priority: u8, entropy: u64) -> (ms:
        u64)
        ensures
            ms == relay_delay_ms(self@.rx_boost_enabled, packet@.header.flags, priority, entropy),
    {
        relay_delay(self.rx_boost_enabled, &packet.header.flags, priority, entropy)
    }

    /// Queues a packet for relay at `now_ms`.
    pub fn queue_packet(
        &mut self,
        packet: DecodedPacket,
        wants_ack: bool,
        priority: u8,
        now_ms: u64,
        entropy: u64,
    ) -> (r: Result<(), RelayError>)
        requires
            old(self).wf(),
        ensures
            final(self).wf(),
            final(self)@ == old(self)@.queuing(packet@, wants_ack, priority, now_ms, entropy),
            r is Err <==> old(self)@.queue_full_for(packet@.header.packet_id),
            r is Err ==> r->Err_0 == RelayError::QueueFull,
    {
        let delay_ms = self.calculate_relay_delay(&packet, priority, entropy);
        let max_retransmissions = get_max_retransmissions(&packet, wants_ack);
        let packet_id = packet.header.packet_id;
        let pending = PendingPacket {
            packet,
            queued_at: now_ms,
            next_tx_time: now_ms.saturating_add(delay_ms),
            max_retransmissions,
            retry_count: 0,
            channel_busy_count: 0,
            wants_ack,
            priority,
        };
        proof {
            lemma_entries_view_dom(pending_entries(self.pending_packets));
            lemma_entries_view_insert(pending_entries(self.pending_packets), packet_id, pending);
        }
        match pending_insert(&mut self.pending_packets, packet_id, pending) {
            Err(_) => {
                self.stats.packets_dropped = bumped(self.stats.packets_dropped);
                return Err(RelayError::QueueFull);
            },
            Ok(_) => {
                self.stats.packets_queued = bumped(self.stats.packets_queued);
            },
        }
        self.add_recent_packet(packet_id);
        Ok(())
    }

    /// Looks for an implicit acknowledgment: a packet of this node's own
    /// that comes back while it is pending counts as delivered.
    pub fn handle_implicit_ack(&mut self, packet: &DecodedPacket)
        requires
            old(self).wf(),
        ensures
            final(self).wf(),
            final(self)@ == old(self)@.acknowledging(packet@),
    {
        if packet.header.source == self.our_node_id {
            proof {
                lemma_entries_view_dom(pending_entries(self.pending_packets));
                lemma_entries_view_remove(
                    pending_entries(self.pending_packets),
                    packet.header.packet_id,
                );
            }
            let removed = pending_remove(&mut self.pending_packets, packet.header.packet_id);
            if removed.is_some() {
                self.stats.implicit_acks = bumped(self.stats.implicit_acks);
            } else {
                assert(pending_entries(self.pending_packets) =~= pending_entries(
                    old(self).pending_packets,
                ));
            }
        }
    }

    /// Removes the pending packets that are older than the maximum age at
    /// `now_ms`, and counts them as expired.
    pub fn cleanup_expired_packets(&mut self, now_ms: u64)
        requires
            old(self).wf(),
        ensures
            final(self).wf(),
            final(self)@ == old(self)@.expiring(now_ms),
    {
        let ids = pending_ids(&self.pending_packets);
        let ghost entries = pending_entries(self.pending_packets);
        let ghost before = self@;
        let ghost mut removed: Set<u32> = Set::empty();
        proof {
            lemma_entries_view_dom(entries);
            assert(entries.remove_keys(removed) =~= entries);
        }
        let mut i: usize = 0;
        while i < ids.len()
            invariant
                i <= ids.len(),
                ids@.no_duplicates(),
                forall|id: u32| ids@.contains(id) <==> entries.dom().contains(id),
                before.valid(),
                before.pending == entries_view(entries),
                entries.dom().finite(),
                removed.finite(),
                forall|id: u32|
                    removed.contains(id) <==> before.expired_ids(now_ms).contains(id)
                        && ids@.subrange(0, i as int).contains(id),
                pending_entries(self.pending_packets) == entries.remove_keys(removed),
                self@ == (RelayStateView {
                    pending: entries_view(entries.remove_keys(removed)),
                    stats: RelayStats {
                        packets_expired: bump_by(before.stats.packets_expired, removed.len()),
                        ..before.stats
                    },
                    ..before
                }),
            decreases ids.len() - i,
        {
            let id = ids[i];
            let ghost seen = ids@.subrange(0, i as int);
            assert(ids@.subrange(0, i + 1) =~= seen.push(id));
            assert(!seen.contains(id)) by {
                if seen.contains(id) {
                    let j = choose|j: int| 0 <= j < seen.len() && seen[j] == id;
                    assert(ids@[j] == id && ids@[i as int] == id);
                }
            }
            assert(ids@.contains(id));
            let expired = match pending_get(&self.pending_packets, id) {
                Some(pending) => now_ms.saturating_sub(pending.queued_at) > MAX_PACKET_AGE_MS,
                None => false,
            };
            assert(expired == before.expired_ids(now_ms).contains(id));
            if expired {
                let _ = pending_remove(&mut self.pending_packets, id);
                self.stats.packets_expired = bumped(self.stats.packets_expired);
                proof {
                    assert(entries.remove_keys(removed).remove(id) =~= entries.remove_keys(
                        removed.insert(id),
                    ));
                    removed = removed.insert(id);
                }
            }
            i = i + 1;
            proof {
                assert forall|k: u32|
                    removed.contains(k) <==> before.expired_ids(now_ms).contains(k)
                        && ids@.subrange(0, i as int).contains(k) by {
                    if k != id {
                        assert(seen.push(id).contains(k) <==> seen.contains(k)) by {
                            if seen.push(id).contains(k) {
                                let j = choose|j: int|
                                    0 <= j < seen.push(id).len() && seen.push(id)[j] == k;
                                assert(seen[j] == k);
                            }
                            if seen.contains(k) {
                                let j = choose|j: int| 0 <= j < seen.len() && seen[j] == k;
                                assert(seen.push(id)[j] == k);
                            }
                        }
                    } else {
                        assert(seen.push(id)[i - 1] == id);
                    }
                }
            }
        }
        proof {
            assert(ids@.subrange(0, i as int) =~= ids@);
            assert(removed =~= before.expired_ids(now_ms));
            lemma_entries_view_remove_keys(entries, removed);
            assert(self@.pending.dom().subset_of(before.pending.dom()));
            vstd::set_lib::lemma_len_subset(self@.pending.dom(), before.pending.dom());
        }
    }

    /// The pending packet that is to be transmitted next at `now_ms`: of
    /// the packets that are due, the one with the earliest transmission time,
    /// and of several such the one with the smallest id.
    pub fn get_next_ready_packet(&self, now_ms: u64) -> (r: Option<(u32, DecodedPacket)>)
        requires
            self.wf(),
        ensures
            r is None <==> self@.none_ready(now_ms),
            r matches Some(next) ==> self@.is_next_ready(now_ms, next.0) && next.1@
                == self@.pending[next.0].packet,
    {
        let ids = pending_ids(&self.pending_packets);
        let ghost entries = pending_entries(self.pending_packets);
        let ghost pending = self@.pending;
        proof {
            lemma_entries_view_dom(entries);
        }
        let mut best: Option<(u32, u64)> = None;
        let mut i: usize = 0;
        while i < ids.len()
            invariant
                i <= ids.len(),
                forall|id: u32| ids@.contains(id) <==> entries.dom().contains(id),
                entries == pending_entries(self.pending_packets),
                pending == entries_view(entries),
                pending == self@.pending,
                self.wf(),
                best is None ==> forall|j: int| 0 <= j < i ==> !pending[#[trigger] ids@[j]].ready(now_ms),
                best matches Some(b) ==> pending.dom().contains(b.0) && pending[b.0].ready(now_ms)
                    && b.1 == pending[b.0].next_tx_time && forall|j: int|
                    0 <= j < i && pending[#[trigger] ids@[j]].ready(now_ms)
                        ==> pending[b.0].due_no_later_than(pending[ids@[j]]),
            decreases ids.len() - i,
        {
            let id = ids[i];
            assert(ids@.contains(id));
            assert(pending.dom().contains(id));
            let due_at: Option<u64> = match pending_get(&self.pending_packets, id) {
                Some(entry) => if now_ms >= entry.next_tx_time {
                    Some(entry.next_tx_time)
                } else {
                    None
                },
                None => None,
            };
            match due_at {
                Some(t) => {
                    let better = match best {
                        None => true,
                        Some((best_id, best_t)) => t < best_t || (t == best_t && id < best_id),
                    };
                    if better {
                        best = Some((id, t));
                    }
                },
                None => {},
            }
            i = i + 1;
        }
        match best {
            None => {
                assert forall|id: u32| #[trigger] pending.dom().contains(id) implies !pending[id].ready(
                    now_ms,
                ) by {
                    assert(ids@.contains(id));
                    let j = choose|j: int| 0 <= j < ids@.len() && ids@[j] == id;
                    assert(!pending[ids@[j]].ready(now_ms));
                }
                None
            },
            Some((id, _)) => {
                assert forall|other: u32| #[trigger]
                    pending.dom().contains(other) && pending[other].ready(
                        now_ms,
                    ) implies pending[id].due_no_later_than(pending[other]) by {
                    assert(ids@.contains(other));
                    let j = choose|j: int| 0 <= j < ids@.len() && ids@[j] == other;
                    assert(pending[ids@[j]].ready(now_ms));
                }
                match pending_get(&self.pending_packets, id) {
                    Some(entry) => Some((id, entry.packet.duplicate())),
                    None => None,
                }
            },
        }
    }

    /// Accounts for a transmission of the packet with this id that
    /// succeeded at `now_ms`.
    pub fn handle_transmitted_packet(&mut self, packet_id: u32, now_ms: u64)
        requires
            old(self).wf(),
        ensures
            final(self).wf(),
            final(self)@ == old(self)@.transmitted(packet_id, now_ms),
    {
        let ghost entries = pending_entries(self.pending_packets);
        proof {
            lemma_entries_view_dom(entries);
            lemma_entries_view_remove(entries, packet_id);
        }
        match pending_remove(&mut self.pending_packets, packet_id) {
            None => {
                assert(pending_entries(self.pending_packets) =~= entries);
            },
            Some(entry) => {
                self.stats.packets_transmitted = bumped(self.stats.packets_transmitted);
                if entry.has_retransmissions_left() {
                    let mut entry = entry;
                    entry.retry_count = entry.retry_count + 1;
                    self.stats.retransmissions = bumped(self.stats.retransmissions);
                    entry.next_tx_time = now_ms.saturating_add(retry_interval(entry.retry_count));
                    proof {
                        lemma_entries_view_insert(entries.remove(packet_id), packet_id, entry);
                        assert(entries_view(entries).remove(packet_id).insert(packet_id, entry@)
                            =~= entries_view(entries).insert(packet_id, entry@));
                    }
                    let _ = pending_insert(&mut self.pending_packets, packet_id, entry);
                }
            },
        }
    }

    /// Accounts for a busy channel at `now_ms` when the packet with this id
    /// was to be transmitted.
    pub fn handle_channel_busy(&mut self, packet_id: u32, now_ms: u64)
        requires
            old(self).wf(),
        ensures
            final(self).wf(),
            final(self)@ == old(self)@.backing_off(packet_id, now_ms),
    {
        let ghost entries = pending_entries(self.pending_packets);
        proof {
            lemma_entries_view_dom(entries);
            lemma_entries_view_remove(entries, packet_id);
        }
        match pending_remove(&mut self.pending_packets, packet_id) {
            None => {
                assert(pending_entries(self.pending_packets) =~= entries);
            },
            Some(entry) => {
                self.stats.channel_busy_events = bumped(self.stats.channel_busy_events);
                if entry.channel_busy_count < MAX_CHANNEL_BUSY_RETRIES {
                    let mut entry = entry;
                    entry.channel_busy_count = entry.channel_busy_count + 1;
                    entry.next_tx_time = now_ms.saturating_add(
                        busy_backoff(entry.channel_busy_count),
                    );
                    proof {
                        lemma_entries_view_insert(entries.remove(packet_id), packet_id, entry);
                        assert(entries_view(entries).remove(packet_id).insert(packet_id, entry@)
                            =~= entries_view(entries).insert(packet_id, entry@));
                    }
                    let _ = pending_insert(&mut self.pending_packets, packet_id, entry);
                } else {
                    self.stats.packets_dropped = bumped(self.stats.packets_dropped);
                }
            },
        }
    }

    /// Makes the pending packet with this id due at `now_ms`. Says whether
    /// there is such a packet.
    pub fn hasten(&mut self, packet_id: u32, now_ms: u64) -> (found: bool)
        requires
            old(self).wf(),
        ensures
            final(self).wf(),
            found == old(self)@.pending.dom().contains(packet_id),
            final(self)@ == old(self)@.hastening(packet_id, now_ms),
    {
        let ghost entries = pending_entries(self.pending_packets);
        proof {
            lemma_entries_view_dom(entries);
            lemma_entries_view_remove(entries, packet_id);
        }
        match pending_remove(&mut self.pending_packets, packet_id) {
            None => {
                assert(pending_entries(self.pending_packets) =~= entries);
                false
            },
            Some(entry) => {
                let mut entry = entry;
                entry.next_tx_time = now_ms;
                proof {
                    lemma_entries_view_insert(entries.remove(packet_id), packet_id, entry);
                    assert(entries_view(entries).remove(packet_id).insert(packet_id, entry@)
                        =~= entries_view(entries).insert(packet_id, entry@));
                }
                let _ = pending_insert(&mut self.pending_packets, packet_id, entry);
                true
            },
        }
    }

    /// The counters.
    pub fn stats(&self) -> (s: RelayStats)
        ensures
            s == self@.stats,
    {
        self.stats
    }

    /// The duty-cycle accountant.
    pub fn duty_cycle(&self) -> (t: DutyCycleTracker)
        ensures
            t == self@.duty_cycle,
    {
        self.duty_cycle
    }

    /// This node's id.
    pub fn our_node_id(&self) -> (id: u32)
        ensures
            id == self@.our_node_id,
    {
        self.our_node_id
    }

    /// The transmission under way, if any.
    pub fn in_flight(&self) -> (f: Option<InFlight>)
        ensures
            f == self@.in_flight,
    {
        self.in_flight
    }

    /// The number of pending packets.
    pub fn pending_count(&self) -> (n: usize)
        requires
            self.wf(),
        ensures
            n == self@.pending.dom().len(),
            n <= MAX_PENDING_PACKETS,
    {
        proof {
            lemma_entries_view_dom(pending_entries(self.pending_packets));
        }
        pending_len(&self.pending_packets)
    }

    /// The number of packet ids remembered.
    pub fn recent_count(&self) -> (n: usize)
        requires
            self.wf(),
        ensures
            n == self@.recent.len(),
            n <= MAX_RECENT_PACKETS,
    {
        recent_len(&self.recent_packets)
    }

    /// The pending entry of the packet with this id, if there is one.
    pub fn get_pending(&self, packet_id: u32) -> (r: Option<&PendingPacket>)
        ensures
            r is Some <==> self@.pending.dom().contains(packet_id),
            r matches Some(entry) ==> entry@ == self@.pending[packet_id],
    {
        proof {
            lemma_entries_view_dom(pending_entries(self.pending_packets));
        }
        pending_get(&self.pending_packets, packet_id)
    }

    /// Sets all counters to zero.
    pub fn reset_stats(&mut self)
        requires
            old(self).wf(),
        ensures
            final(self).wf(),
            final(self)@ == (RelayStateView { stats: RelayStats::zero(), ..old(self)@ }),
    {
        self.stats = RelayStats::default();
    }

    /// What the admission rules say of a packet, without counting anything.
    pub fn classify(&self, packet: &DecodedPacket) -> (v: Verdict)
        ensures
            v == self@.verdict(packet@),
    {
        if packet.header.packet_id == 0 {
            return Verdict::ZeroPacketId;
        }
        if packet.header.flags.hop_start > MAX_HOPS {
            return Verdict::HopStartTooHigh;
        }
        if packet.header.flags.hop_limit > packet.header.flags.hop_start {
            return Verdict::HopLimitAboveStart;
        }
        if packet.header.source == 0 || packet.header.source == 0xFFFF_FFFF {
            return Verdict::ReservedSource;
        }
        if packet.header.source == self.our_node_id {
            return Verdict::OwnPacket;
        }
        if self.is_recent_packet(packet.header.packet_id) {
            return Verdict::Duplicate;
        }
        if packet.header.flags.hop_limit == 0 {
            return Verdict::HopsExhausted;
        }
        if packet.header.destination == self.our_node_id {
            return Verdict::AddressedToUs;
        }
        match packet.port_num() {
            PortNum::Routing => Verdict::Admitted,
            PortNum::TextMessage => Verdict::Admitted,
            PortNum::NodeInfo => Verdict::Admitted,
            PortNum::Position => Verdict::Admitted,
            PortNum::Telemetry => Verdict::Admitted,
            _ => Verdict::PortNotRelayed,
        }
    }

    /// Takes in a packet from the bus at `now_ms`: looks for an implicit
    /// acknowledgment, runs the admission rules and queues the packet if they
    /// admit it. `entropy` picks the jitter of the relay delay.
    pub fn process_packet(&mut self, packet: DecodedPacket, now_ms: u64, entropy: u64) -> (r: Intake)
        requires
            old(self).wf(),
        ensures
            final(self).wf(),
            r == old(self)@.intake(packet@),
            final(self)@ == old(self)@.taking_in(packet@, now_ms, entropy),
            r == Intake::Queued ==> final(self)@.pending.dom().contains(packet@.header.packet_id),
            r == Intake::Queued ==> packet@.header.source != old(self)@.our_node_id,
    {
        let verdict = self.classify(&packet);
        self.handle_implicit_ack(&packet);
        match self.should_relay(&packet) {
            Ok(true) => {
                let priority = get_packet_priority(&packet);
                let wants_ack = packet_wants_ack(&packet);
                match self.queue_packet(packet, wants_ack, priority, now_ms, entropy) {
                    Ok(_) => Intake::Queued,
                    Err(_) => Intake::QueueFull,
                }
            },
            _ => Intake::Refused(verdict),
        }
    }

    /// Decides what to transmit at `now_ms`. Packets that are too old are
    /// removed first. Of the packets that are due, the next one is picked; it
    /// is handed out for transmission if the duty-cycle limit admits the
    /// airtime of its frame, and is put off, and the refusal counted,
    /// if not.
    pub fn next_transmission(&mut self, now_ms: u64, config: &LoraConfig) -> (plan: TxPlan)
        requires
            old(self).wf(),
            config.valid(),
        ensures
            final(self).wf(),
            plan is Idle <==> old(self)@.expiring(now_ms).none_ready(now_ms),
            plan is Idle ==> final(self)@ == (RelayStateView {
                in_flight: None,
                ..old(self)@.expiring(now_ms)
            }),
            plan matches TxPlan::Deferred { packet_id } ==> old(self)@.expiring(
                now_ms,
            ).is_next_ready(now_ms, packet_id) && !old(self)@.duty_cycle.admits(
                packet_airtime_ms(old(self)@.pending[packet_id].packet, *config) as u32,
                now_ms,
            ) && final(self)@ == (RelayStateView {
                in_flight: None,
                stats: RelayStats {
                    duty_cycle_blocks: bump(old(self)@.expiring(now_ms).stats.duty_cycle_blocks),
                    ..old(self)@.expiring(now_ms).stats
                },
                ..old(self)@.expiring(now_ms)
            }),
            plan matches TxPlan::Transmit { packet_id, packet, airtime_ms } ==> old(self)@.expiring(
                now_ms,
            ).is_next_ready(now_ms, packet_id) && packet@ == old(self)@.pending[packet_id].packet
                && airtime_ms == packet_airtime_ms(packet@, *config) && old(
                self,
            )@.duty_cycle.admits(airtime_ms, now_ms) && final(self)@ == (RelayStateView {
                in_flight: Some(InFlight { packet_id, airtime_ms, admitted_at_ms: now_ms }),
                ..old(self)@.expiring(now_ms)
            }),
    {
        self.cleanup_expired_packets(now_ms);
        self.in_flight = None;
        match self.get_next_ready_packet(now_ms) {
            None => TxPlan::Idle,
            Some((packet_id, packet)) => {
                let airtime_ms = calculate_packet_airtime(&packet, config);
                if !self.duty_cycle.can_transmit(airtime_ms, now_ms) {
                    self.stats.duty_cycle_blocks = bumped(self.stats.duty_cycle_blocks);
                    TxPlan::Deferred { packet_id }
                } else {
                    self.in_flight = Some(InFlight { packet_id, airtime_ms, admitted_at_ms: now_ms });
                    TxPlan::Transmit { packet_id, packet, airtime_ms }
                }
            },
        }
    }

    /// Accounts for a transmission that succeeded at `now_ms`.
    pub fn transmission_succeeded(&mut self, packet_id: u32, now_ms: u64)
        requires
            old(self).wf(),
        ensures
            final(self).wf(),
            final(self)@ == old(self)@.succeeding(packet_id, now_ms),
    {
        match self.in_flight {
            Some(f) => {
                if f.packet_id == packet_id {
                    let at = if now_ms >= f.admitted_at_ms {
                        now_ms
                    } else {
                        f.admitted_at_ms
                    };
                    proof {
                        self.duty_cycle.lemma_admitted_stays_within_limit(
                            f.airtime_ms,
                            f.admitted_at_ms,
                            at,
                        );
                    }
                    self.duty_cycle.record_transmission(f.airtime_ms, at);
                    self.in_flight = None;
                }
            },
            None => {},
        }
        self.handle_transmitted_packet(packet_id, now_ms);
    }

    /// Accounts for a transmission that failed: the packet is dropped.
    pub fn transmission_failed(&mut self, packet_id: u32)
        requires
            old(self).wf(),
        ensures
            final(self).wf(),
            final(self)@ == old(self)@.failing(packet_id),
    {
        proof {
            lemma_entries_view_dom(pending_entries(self.pending_packets));
            lemma_entries_view_remove(pending_entries(self.pending_packets), packet_id);
        }
        let _ = pending_remove(&mut self.pending_packets, packet_id);
        self.stats.packets_dropped = bumped(self.stats.packets_dropped);
        match self.in_flight {
            Some(f) => {
                if f.packet_id == packet_id {
                    self.in_flight = None;
                }
            },
            None => {},
        }
    }
}

/// Estimates the airtime of the frame that carries a packet.
pub fn calculate_packet_airtime(packet: &DecodedPacket, config: &LoraConfig) -> (ms: u32)
    requires
        config.valid(),
    ensures
        ms == packet_airtime_ms(packet@, *config),
{
    let payload = packet.data.encode();
    let frame_len: u32 = if payload.len() > (u32::MAX - 16) as usize {
        u32::MAX
    } else {
        payload.len() as u32 + 16
    };
    config.time_on_air_ms(frame_len)
}

} // verus!
