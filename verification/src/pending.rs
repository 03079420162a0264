//! A packet that waits in the relay queue.

use crate::packet::{DecodedPacket, DecodedPacketView};
use crate::policy::{max_retransmissions_of, MAX_CHANNEL_BUSY_RETRIES};
use vstd::prelude::*;

verus! {

/// A packet that waits for its transmission or retransmission.
#[derive(Clone, Debug)]
pub struct PendingPacket {
    /// The packet as it was received.
    pub packet: DecodedPacket,
    /// When the packet was queued, in milliseconds of the node's clock.
    pub queued_at: u64,
    /// When the next transmission is due.
    pub next_tx_time: u64,
    /// Retransmissions granted to this packet.
    pub max_retransmissions: u8,
    /// Transmissions made so far.
    pub retry_count: u8,
    /// Times the channel was busy when this packet was due.
    pub channel_busy_count: u8,
    /// The packet is relayed with acknowledgment.
    pub wants_ack: bool,
    /// Priority, 0 to 127; a higher number is more urgent.
    pub priority: u8,
}

/// What a `PendingPacket` holds, as a mathematical value.
pub struct PendingView {
    pub packet: DecodedPacketView,
    pub queued_at: u64,
    pub next_tx_time: u64,
    pub max_retransmissions: u8,
    pub retry_count: u8,
    pub channel_busy_count: u8,
    pub wants_ack: bool,
    pub priority: u8,
}

impl View for PendingPacket {
    type V = PendingView;

    open spec fn view(&self) -> PendingView {
        PendingView {
            packet: self.packet@,
            queued_at: self.queued_at,
            next_tx_time: self.next_tx_time,
            max_retransmissions: self.max_retransmissions,
            retry_count: self.retry_count,
            channel_busy_count: self.channel_busy_count,
            wants_ack: self.wants_ack,
            priority: self.priority,
        }
    }
}

impl PendingView {
    /// The entry keeps to its retry budget, the budget is the one that the
    /// port table grants, and the channel was not busy for it more often than
    /// a packet survives.
    pub open spec fn valid(self) -> bool {
        &&& self.retry_count <= self.max_retransmissions
        &&& self.max_retransmissions == max_retransmissions_of(self.packet.port(), self.wants_ack)
        &&& self.channel_busy_count <= MAX_CHANNEL_BUSY_RETRIES
    }

    /// The entry is due no later than `other`: its transmission time is
    /// earlier, or the same and its packet id is not the larger one.
    pub open spec fn due_no_later_than(self, other: PendingView) -> bool {
        self.next_tx_time < other.next_tx_time || (self.next_tx_time == other.next_tx_time
            && self.packet.header.packet_id <= other.packet.header.packet_id)
    }

    /// The entry is due at `now_ms`.
    pub open spec fn ready(self, now_ms: u64) -> bool {
        now_ms >= self.next_tx_time
    }

    /// Milliseconds since the entry was queued; 0 if `now_ms` lies before.
    pub open spec fn age_ms(self, now_ms: u64) -> int {
        if now_ms >= self.queued_at {
            now_ms - self.queued_at
        } else {
            0
        }
    }
}

/// The views of the entries of a map of pending packets.
pub open spec fn entries_view(m: Map<u32, PendingPacket>) -> Map<u32, PendingView> {
    Map::new(|id: u32| m.dom().contains(id), |id: u32| m[id]@)
}

/// The view of a map with one more entry is the view with that entry's view.
pub proof fn lemma_entries_view_insert(m: Map<u32, PendingPacket>, id: u32, p: PendingPacket)
    ensures
        entries_view(m.insert(id, p)) == entries_view(m).insert(id, p@),
{
    assert(entries_view(m.insert(id, p)) =~= entries_view(m).insert(id, p@));
}

/// The view of a map without a key is the view without that key.
pub proof fn lemma_entries_view_remove(m: Map<u32, PendingPacket>, id: u32)
    ensures
        entries_view(m.remove(id)) == entries_view(m).remove(id),
{
    assert(entries_view(m.remove(id)) =~= entries_view(m).remove(id));
}

/// The view of a map without some keys is the view without those keys.
pub proof fn lemma_entries_view_remove_keys(m: Map<u32, PendingPacket>, keys: Set<u32>)
    ensures
        entries_view(m.remove_keys(keys)) == entries_view(m).remove_keys(keys),
{
    assert(entries_view(m.remove_keys(keys)) =~= entries_view(m).remove_keys(keys));
}

/// The view of a map has the keys of the map.
pub proof fn lemma_entries_view_dom(m: Map<u32, PendingPacket>)
    ensures
        entries_view(m).dom() == m.dom(),
{
    assert(entries_view(m).dom() =~= m.dom());
}

impl PendingPacket {
    /// Retransmissions that are left to this packet.
    pub fn retransmissions_left(&self) -> (n: u8)
        ensures
            n == if self.max_retransmissions >= self.retry_count {
                self.max_retransmissions - self.retry_count
            } else {
                0
            },
    {
        self.max_retransmissions.saturating_sub(self.retry_count)
    }

    /// Whether a retransmission is left to this packet.
    pub fn has_retransmissions_left(&self) -> (b: bool)
        ensures
            b == (self.retry_count < self.max_retransmissions),
    {
        self.retry_count < self.max_retransmissions
    }
}

} // verus!
