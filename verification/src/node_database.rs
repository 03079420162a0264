//! The registry of the nodes that this node has heard.
//!
//! Every packet from a usable source refreshes the record of its source. What
//! the packet tells (user, position or device metrics) replaces what the
//! record held of that kind; the rest of the record stays. When the registry
//! is full, the record that was heard longest ago makes room.

use crate::data::PortNum;
use crate::messages::{
    decode_telemetry,
    telemetry_metrics,
    DeviceMetrics,
    Position,
    User,
    UserView,
};
use crate::packet::{DecodedPacket, DecodedPacketView};
use vstd::prelude::*;

verus! {

/// Number of nodes that a registry holds unless told otherwise.
pub const DEFAULT_NODE_CAPACITY: usize = 32;

/// What is known of a node.
#[derive(Clone, Debug)]
pub struct NodeInfo {
    /// The node's id.
    pub num: u32,
    /// Who runs the node, if it has said so.
    pub user: Option<User>,
    /// Where the node is, if it has said so.
    pub position: Option<Position>,
    /// How its device fares, if it has said so.
    pub device_metrics: Option<DeviceMetrics>,
    /// Signal-to-noise ratio of the last packet heard from it, in dB.
    pub snr: i8,
    /// When the node was last heard, in seconds of the node's clock.
    pub last_heard: u32,
    /// Channel hash of the last packet heard from it.
    pub channel: u8,
}

/// What a `NodeInfo` holds, as a mathematical value.
pub struct NodeInfoView {
    pub num: u32,
    pub user: Option<UserView>,
    pub position: Option<Position>,
    pub device_metrics: Option<DeviceMetrics>,
    pub snr: i8,
    pub last_heard: u32,
    pub channel: u8,
}

impl View for NodeInfo {
    type V = NodeInfoView;

    open spec fn view(&self) -> NodeInfoView {
        NodeInfoView {
            num: self.num,
            user: match self.user {
                Some(u) => Some(u@),
                None => None,
            },
            position: self.position,
            device_metrics: self.device_metrics,
            snr: self.snr,
            last_heard: self.last_heard,
            channel: self.channel,
        }
    }
}

/// The user that a packet tells of: the payload of a node-info packet, if
/// it decodes.
pub open spec fn told_user(p: DecodedPacketView) -> Option<UserView> {
    if p.port() == PortNum::NodeInfo {
        UserView::decode(p.data.payload)
    } else {
        None
    }
}

/// The position that a packet tells of: the payload of a position packet,
/// if it decodes.
pub open spec fn told_position(p: DecodedPacketView) -> Option<Position> {
    if p.port() == PortNum::Position {
        Position::decoded(p.data.payload)
    } else {
        None
    }
}

/// The device metrics that a packet tells of: those in the payload of a
/// telemetry packet, if it decodes and carries them.
pub open spec fn told_metrics(p: DecodedPacketView) -> Option<DeviceMetrics> {
    if p.port() == PortNum::Telemetry {
        match telemetry_metrics(p.data.payload) {
            Some(Some(m)) => Some(m),
            _ => None,
        }
    } else {
        None
    }
}

/// A source that a record can be kept for: not 0 and not the broadcast
/// address.
pub open spec fn usable_source(source: u32) -> bool {
    source != 0 && source != 0xFFFF_FFFF
}

impl NodeInfoView {
    /// The record of a node of which nothing is known yet.
    pub open spec fn blank(num: u32) -> NodeInfoView {
        NodeInfoView {
            num,
            user: None,
            position: None,
            device_metrics: None,
            snr: 0,
            last_heard: 0,
            channel: 0,
        }
    }

    /// The record after packet `p` was heard at `now_secs`: what the packet
    /// tells replaces what was held of that kind, the rest stays; the
    /// signal-to-noise ratio, the time and the channel are always renewed.
    pub open spec fn merged(self, p: DecodedPacketView, now_secs: u32) -> NodeInfoView {
        NodeInfoView {
            num: self.num,
            user: if told_user(p) is Some {
                told_user(p)
            } else {
                self.user
            },
            position: if told_position(p) is Some {
                told_position(p)
            } else {
                self.position
            },
            device_metrics: if told_metrics(p) is Some {
                told_metrics(p)
            } else {
                self.device_metrics
            },
            snr: p.snr,
            last_heard: now_secs,
            channel: p.header.channel_hash,
        }
    }
}

/// The place of the first record from `from` on that has the id `num`.
pub open spec fn find_from(s: Seq<NodeInfoView>, num: u32, from: int) -> Option<int>
    decreases s.len() - from,
{
    if from < 0 || from >= s.len() {
        None
    } else if s[from].num == num {
        Some(from)
    } else {
        find_from(s, num, from + 1)
    }
}

/// The place of the record with the id `num`.
pub open spec fn place_of(s: Seq<NodeInfoView>, num: u32) -> Option<int> {
    find_from(s, num, 0)
}

/// The place of the record that was heard longest ago among the first `n`:
/// the smallest `last_heard`, and of several such the first.
pub open spec fn oldest_among(s: Seq<NodeInfoView>, n: nat) -> int
    decreases n,
{
    if n <= 1 {
        0
    } else if s[n - 1].last_heard < s[oldest_among(s, (n - 1) as nat)].last_heard {
        n - 1
    } else {
        oldest_among(s, (n - 1) as nat)
    }
}

/// No two records have the same id.
pub open spec fn distinct_ids(s: Seq<NodeInfoView>) -> bool {
    forall|i: int, j: int| 0 <= i < j < s.len() ==> s[i].num != s[j].num
}

/// The records after packet `p` was heard at `now_secs` by a registry for
/// `capacity` nodes. A packet from an unusable source changes nothing. The
/// record of a known source is merged in place. A new source gets a record
/// at the end, for which the record heard longest ago makes room if the
/// registry is full.
pub open spec fn heard(
    s: Seq<NodeInfoView>,
    capacity: nat,
    p: DecodedPacketView,
    now_secs: u32,
) -> Seq<NodeInfoView> {
    if !usable_source(p.header.source) {
        s
    } else {
        match place_of(s, p.header.source) {
            Some(i) => s.update(i, s[i].merged(p, now_secs)),
            None => if s.len() < capacity {
                s.push(NodeInfoView::blank(p.header.source).merged(p, now_secs))
            } else {
                s.remove(oldest_among(s, s.len())).push(
                    NodeInfoView::blank(p.header.source).merged(p, now_secs),
                )
            },
        }
    }
}

/// What `find_from` finds has the id, lies from `from` on, and nothing
/// before it from `from` on has the id; if it finds nothing, no record from
/// `from` on has the id.
pub proof fn lemma_find_from(s: Seq<NodeInfoView>, num: u32, from: int)
    requires
        0 <= from,
    ensures
        find_from(s, num, from) matches Some(i) ==> from <= i < s.len() && s[i].num == num
            && forall|j: int| from <= j < i ==> s[j].num != num,
        find_from(s, num, from) is None ==> forall|j: int| from <= j < s.len() ==> s[j].num != num,
    decreases s.len() - from,
{
    if from < s.len() && s[from].num != num {
        lemma_find_from(s, num, from + 1);
    }
}

/// The record that is picked as the oldest lies among the first `n` and
/// none of them was heard before it.
pub proof fn lemma_oldest_is_oldest(s: Seq<NodeInfoView>, n: nat)
    requires
        1 <= n <= s.len(),
    ensures
        0 <= oldest_among(s, n) < n,
        forall|j: int|
            0 <= j < n ==> s[oldest_among(s, n)].last_heard <= (#[trigger] s[j]).last_heard,
    decreases n,
{
    if n > 1 {
        lemma_oldest_is_oldest(s, (n - 1) as nat);
    }
}

/// Hearing a packet keeps the ids distinct and the registry within its
/// capacity, and leaves a record for every usable source.
pub proof fn lemma_heard_keeps_order(
    s: Seq<NodeInfoView>,
    capacity: nat,
    p: DecodedPacketView,
    now_secs: u32,
)
    requires
        distinct_ids(s),
        s.len() <= capacity,
        capacity >= 1,
    ensures
        distinct_ids(heard(s, capacity, p, now_secs)),
        heard(s, capacity, p, now_secs).len() <= capacity,
        usable_source(p.header.source) ==> (place_of(
            heard(s, capacity, p, now_secs),
            p.header.source,
        ) matches Some(i) && heard(s, capacity, p, now_secs)[i].last_heard == now_secs && heard(
            s,
            capacity,
            p,
            now_secs,
        )[i].snr == p.snr),
{
    let src = p.header.source;
    let after = heard(s, capacity, p, now_secs);
    lemma_find_from(s, src, 0);
    if usable_source(src) {
        match place_of(s, src) {
            Some(i) => {},
            None => {
                if s.len() >= capacity {
                    lemma_oldest_is_oldest(s, s.len());
                    let k = oldest_among(s, s.len());
                    let cut = s.remove(k);
                    assert forall|i: int, j: int| 0 <= i < j < cut.len() implies cut[i].num
                        != cut[j].num by {
                        let a = if i < k {
                            i
                        } else {
                            i + 1
                        };
                        let b = if j < k {
                            j
                        } else {
                            j + 1
                        };
                        assert(cut[i] == s[a] && cut[j] == s[b]);
                    }
                    assert forall|j: int| 0 <= j < cut.len() implies cut[j].num != src by {
                        let b = if j < k {
                            j
                        } else {
                            j + 1
                        };
                        assert(cut[j] == s[b]);
                    }
                }
            },
        }
        lemma_find_from(after, src, 0);
        let w = match place_of(s, src) {
            Some(i) => i,
            None => after.len() - 1,
        };
        assert(0 <= w < after.len());
        assert(after[w].num == src && after[w].last_heard == now_secs && after[w].snr == p.snr);
        assert(distinct_ids(after));
        match place_of(after, src) {
            Some(k) => {
                if k < w {
                    assert(after[k].num != after[w].num);
                } else if w < k {
                    assert(after[w].num != after[k].num);
                }
            },
            None => {},
        }
    }
}

/// The registry of nodes.
pub struct NodeDatabase {
    nodes: Vec<NodeInfo>,
    capacity: usize,
}

impl View for NodeDatabase {
    type V = Seq<NodeInfoView>;

    closed spec fn view(&self) -> Seq<NodeInfoView> {
        Seq::new(self.nodes@.len(), |i: int| self.nodes@[i]@)
    }
}

impl NodeDatabase {
    /// The number of nodes that the registry has room for.
    pub closed spec fn room(&self) -> nat {
        self.capacity as nat
    }

    /// The registry is in order: it has room for at least one node, holds
    /// no more than it has room for, and no two records have the same id.
    pub open spec fn wf(&self) -> bool {
        &&& self.room() >= 1
        &&& self@.len() <= self.room()
        &&& distinct_ids(self@)
    }

    /// An empty registry with room for the default number of nodes.
    pub fn new() -> (db: NodeDatabase)
        ensures
            db.wf(),
            db@ == Seq::<NodeInfoView>::empty(),
            db.room() == DEFAULT_NODE_CAPACITY,
    {
        let db = NodeDatabase { nodes: Vec::new(), capacity: DEFAULT_NODE_CAPACITY };
        assert(db@ =~= Seq::<NodeInfoView>::empty());
        db
    }

    /// An empty registry with room for `capacity` nodes, at least one.
    pub fn with_capacity(capacity: usize) -> (db: NodeDatabase)
        ensures
            db.wf(),
            db@ == Seq::<NodeInfoView>::empty(),
            db.room() == (if capacity == 0 {
                1
            } else {
                capacity as int
            }),
    {
        let db = NodeDatabase {
            nodes: Vec::new(),
            capacity: if capacity == 0 {
                1
            } else {
                capacity
            },
        };
        assert(db@ =~= Seq::<NodeInfoView>::empty());
        db
    }

    /// The number of records.
    pub fn len(&self) -> (n: usize)
        ensures
            n == self@.len(),
    {
        self.nodes.len()
    }

    fn find(&self, num: u32) -> (r: Option<usize>)
        ensures
            r is Some <==> place_of(self@, num) is Some,
            r matches Some(i) ==> place_of(self@, num) == Some(i as int) && i < self@.len(),
    {
        let mut i: usize = 0;
        while i < self.nodes.len()
            invariant
                i <= self.nodes@.len(),
                place_of(self@, num) == find_from(self@, num, i as int),
            decreases self.nodes.len() - i,
        {
            if self.nodes[i].num == num {
                return Some(i);
            }
            i = i + 1;
        }
        None
    }

    /// The record of the node with the id `num`, if there is one.
    pub fn get_node(&self, num: u32) -> (r: Option<&NodeInfo>)
        ensures
            r is Some <==> place_of(self@, num) is Some,
            r matches Some(node) ==> node@ == self@[place_of(self@, num)->0] && node.num == num,
    {
        match self.find(num) {
            Some(i) => {
                proof {
                    lemma_find_from(self@, num, 0);
                }
                Some(&self.nodes[i])
            },
            None => None,
        }
    }

    /// All records, in the order in which the registry keeps them.
    pub fn get_nodes(&self) -> (r: &Vec<NodeInfo>)
        ensures
            r@.len() == self@.len(),
            forall|i: int| 0 <= i < r@.len() ==> (#[trigger] r@[i])@ == self@[i],
    {
        &self.nodes
    }

    fn oldest(&self) -> (k: usize)
        requires
            self@.len() >= 1,
        ensures
            k == oldest_among(self@, self@.len()),
            k < self@.len(),
    {
        let mut best: usize = 0;
        let mut i: usize = 1;
        while i < self.nodes.len()
            invariant
                1 <= i <= self.nodes@.len(),
                best < i,
                best == oldest_among(self@, i as nat),
            decreases self.nodes.len() - i,
        {
            if self.nodes[i].last_heard < self.nodes[best].last_heard {
                best = i;
            }
            i = i + 1;
        }
        best
    }

    /// Refreshes the record of the source of a packet that was heard at
    /// `now_secs`. Says whether the source is one that a record is kept for.
    pub fn add_or_update_node_from_packet(&mut self, packet: &DecodedPacket, now_secs: u32) -> (known:
        bool)
        requires
            old(self).wf(),
        ensures
            final(self).wf(),
            final(self).room() == old(self).room(),
            known == usable_source(packet@.header.source),
            final(self)@ == heard(old(self)@, old(self).room(), packet@, now_secs),
    {
        let source = packet.header.source;
        if source == 0 || source == 0xFFFF_FFFF {
            return false;
        }
        proof {
            lemma_heard_keeps_order(self@, self.room(), packet@, now_secs);
        }
        let ghost before = self@;
        let port = packet.port_num();
        let user = match port {
            PortNum::NodeInfo => User::decode(packet.data.payload.as_slice()),
            _ => None,
        };
        let position = match port {
            PortNum::Position => Position::decode(packet.data.payload.as_slice()),
            _ => None,
        };
        let metrics = match port {
            PortNum::Telemetry => match decode_telemetry(packet.data.payload.as_slice()) {
                Some(Some(m)) => Some(m),
                _ => None,
            },
            _ => None,
        };
        match self.find(source) {
            Some(i) => {
                let known_node = self.nodes.remove(i);
                let merged = NodeInfo {
                    num: known_node.num,
                    user: match user {
                        Some(u) => Some(u),
                        None => known_node.user,
                    },
                    position: match position {
                        Some(p) => Some(p),
                        None => known_node.position,
                    },
                    device_metrics: match metrics {
                        Some(m) => Some(m),
                        None => known_node.device_metrics,
                    },
                    snr: packet.snr,
                    last_heard: now_secs,
                    channel: packet.header.channel_hash,
                };
                assert(merged@ == before[i as int].merged(packet@, now_secs));
                self.nodes.insert(i, merged);
                assert(self@ =~= before.update(i as int, before[i as int].merged(packet@, now_secs)));
            },
            None => {
                let fresh = NodeInfo {
                    num: source,
                    user,
                    position,
                    device_metrics: metrics,
                    snr: packet.snr,
                    last_heard: now_secs,
                    channel: packet.header.channel_hash,
                };
                assert(fresh@ == NodeInfoView::blank(source).merged(packet@, now_secs));
                if self.nodes.len() >= self.capacity {
                    let k = self.oldest();
                    let _ = self.nodes.remove(k);
                    assert(self@ =~= before.remove(k as int));
                }
                let ghost mid = self@;
                self.nodes.push(fresh);
                assert(self@ =~= mid.push(fresh@));
            },
        }
        true
    }
}

} // verus!
