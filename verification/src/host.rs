//! What the node says to a host on its serial link: the framing of the
//! byte stream, the messages of the configuration burst, and which mesh
//! traffic is passed on.
//!
//! Messages are protocol-buffers messages of the host protocol. Every
//! message to the host carries an id in field 1 and one payload field.
//! Floating-point fields are written from their bit patterns.

use crate::data::{fixed32_unless_zero, DataView, PortNum};
use crate::messages::{fields_of, scan_fields, DeviceMetrics, Position, UserView};
use crate::node_database::{NodeInfo, NodeInfoView};
use crate::packet::{DecodedPacket, DecodedPacketView};
use crate::policy::OUR_NODE_ID;
use crate::wire::{
    bytes_field,
    copy_range,
    fixed32_field,
    low32,
    put_bytes_field,
    put_fixed32_field,
    put_varint_field,
    varint_field,
    Field,
    FoundValue,
    WireValue,
};
use vstd::prelude::*;

verus! {

/// First byte of a serial frame.
pub const FRAME_START_1: u8 = 0x94;

/// Second byte of a serial frame.
pub const FRAME_START_2: u8 = 0xC3;

/// Largest payload of a serial frame.
pub const MAX_SERIAL_PAYLOAD: usize = 0xFFFF;

/// Size of the chunks in which a frame goes over USB.
pub const USB_CHUNK: usize = 64;

/// Value after which the counter of host packet ids starts over at 1.
pub const PACKET_ID_WRAP: u32 = 0x7FFF_FFFF;

/// The four bytes that open the serial frame of a payload of `len` bytes:
/// the two start bytes, then the length, high byte first.
pub open spec fn frame_header(len: u16) -> Seq<u8> {
    seq![FRAME_START_1, FRAME_START_2, (len / 256) as u8, (len % 256) as u8]
}

/// The serial frame of a payload.
pub open spec fn framed(payload: Seq<u8>) -> Seq<u8> {
    frame_header(payload.len() as u16) + payload
}

/// The payload of the serial frame that stands at the start of `b`, if a whole
/// frame stands there.
pub open spec fn unframed(b: Seq<u8>) -> Option<Seq<u8>> {
    if b.len() >= 4 && b[0] == FRAME_START_1 && b[1] == FRAME_START_2 && b.len() >= 4 + b[2] * 256
        + b[3] {
        Some(b.subrange(4, 4 + b[2] * 256 + b[3]))
    } else {
        None
    }
}

/// Opens the serial frame of a payload of `len` bytes.
pub fn serial_frame_header(len: u16) -> (h: [u8; 4])
    ensures
        h@ == frame_header(len),
{
    let h = [FRAME_START_1, FRAME_START_2, (len / 256) as u8, (len % 256) as u8];
    assert(h@ =~= frame_header(len));
    h
}

/// Puts a payload into its serial frame. There is none for a payload of
/// more than 65535 bytes.
pub fn serial_frame(payload: &[u8]) -> (r: Option<Vec<u8>>)
    ensures
        r is Some <==> payload@.len() <= MAX_SERIAL_PAYLOAD,
        r matches Some(f) ==> f@ == framed(payload@),
{
    if payload.len() > MAX_SERIAL_PAYLOAD {
        return None;
    }
    let h = serial_frame_header(payload.len() as u16);
    let mut out: Vec<u8> = Vec::new();
    out.push(h[0]);
    out.push(h[1]);
    out.push(h[2]);
    out.push(h[3]);
    assert(out@ =~= frame_header(payload@.len() as u16));
    let mut i: usize = 0;
    while i < payload.len()
        invariant
            i <= payload@.len(),
            out@ == frame_header(payload@.len() as u16) + payload@.subrange(0, i as int),
        decreases payload.len() - i,
    {
        out.push(payload[i]);
        i = i + 1;
        assert(out@ =~= frame_header(payload@.len() as u16) + payload@.subrange(0, i as int));
    }
    assert(payload@.subrange(0, payload@.len() as int) =~= payload@);
    Some(out)
}

/// Takes the payload out of the serial frame at the start of `b`, and says
/// how many bytes the frame took. There is none unless a whole frame stands
/// there.
pub fn split_serial_frame(b: &[u8]) -> (r: Option<(Vec<u8>, usize)>)
    ensures
        r is Some <==> unframed(b@) is Some,
        r matches Some(found) ==> unframed(b@) == Some(found.0@) && found.1 == 4 + found.0@.len(),
{
    if b.len() < 4 || b[0] != FRAME_START_1 || b[1] != FRAME_START_2 {
        return None;
    }
    let len: usize = (b[2] as usize) * 256 + (b[3] as usize);
    if b.len() - 4 < len {
        return None;
    }
    let payload = copy_range(b, 4, 4 + len);
    Some((payload, 4 + len))
}

/// Taking apart what was framed gives the payload back, whatever follows
/// the frame.
pub proof fn lemma_unframed_framed(payload: Seq<u8>, rest: Seq<u8>)
    requires
        payload.len() <= MAX_SERIAL_PAYLOAD,
    ensures
        unframed(framed(payload) + rest) == Some(payload),
{
    let b = framed(payload) + rest;
    let len = payload.len() as u16;
    assert(b[0] == FRAME_START_1 && b[1] == FRAME_START_2);
    assert(b[2] == (len / 256) as u8 && b[3] == (len % 256) as u8);
    assert(b[2] * 256 + b[3] == payload.len());
    assert(b.subrange(4, 4 + payload.len() as int) =~= payload);
}

/// The number of USB chunks that `len` bytes take.
pub open spec fn chunks_needed(len: nat) -> nat {
    ((len + USB_CHUNK - 1) / (USB_CHUNK as int)) as nat
}

/// The bounds of chunk number `k` of `len` bytes: from `64 * k` up to
/// `64 * (k + 1)` or the end.
pub fn chunk_bounds(len: usize, k: usize) -> (r: (usize, usize))
    requires
        k < chunks_needed(len as nat),
    ensures
        r.0 == k * 64,
        r.0 < r.1 <= len,
        r.1 - r.0 <= USB_CHUNK,
        r.1 == len || r.1 == (k + 1) * 64,
{
    let start = k * USB_CHUNK;
    let end = if len - start > USB_CHUNK {
        start + USB_CHUNK
    } else {
        len
    };
    (start, end)
}

/// The id for the next packet to the host and the counter after it: ids
/// run from 1 up to the wrap value and then start over at 1.
pub fn get_next_packet_id(counter: u32) -> (r: (u32, u32))
    ensures
        r.0 == counter,
        r.1 == (if counter >= PACKET_ID_WRAP {
            1
        } else {
            counter + 1
        }),
        1 <= r.1 <= PACKET_ID_WRAP,
{
    (
        counter,
        if counter >= PACKET_ID_WRAP {
            1
        } else {
            counter + 1
        },
    )
}

/// What the host asks of the node.
#[derive(Clone, Copy, Debug, PartialEq, Eq, Structural)]
pub enum ToRadio {
    /// Send the configuration, and close it with this id.
    WantConfigId(u32),
    /// Nothing; the host is still there.
    Heartbeat,
    /// Something that this node does not act on.
    Other,
}

/// The request after the first `n` fields of a message from the host:
/// field 3 asks for the configuration, field 7 is a heartbeat, and the
/// last of them counts.
pub open spec fn request_after(fields: Seq<Field>, n: nat) -> Option<ToRadio>
    decreases n,
{
    if n == 0 {
        Some(ToRadio::Other)
    } else {
        match request_after(fields, (n - 1) as nat) {
            None => None,
            Some(acc) => if fields[n - 1].number == 3 {
                match fields[n - 1].value {
                    WireValue::Varint(v) => Some(ToRadio::WantConfigId(low32(v))),
                    _ => None,
                }
            } else if fields[n - 1].number == 7 {
                match fields[n - 1].value {
                    WireValue::Bytes(_) => Some(ToRadio::Heartbeat),
                    _ => None,
                }
            } else {
                Some(acc)
            },
        }
    }
}

/// The request that the bytes `b` spell, if they are a well-formed message.
pub open spec fn request_of(b: Seq<u8>) -> Option<ToRadio> {
    match fields_of(b) {
        Some(fields) => request_after(fields, fields.len()),
        None => None,
    }
}

/// Once a field has spoiled a request, later fields do not mend it.
pub proof fn lemma_request_spoiled(fields: Seq<Field>, n: nat, m: nat)
    requires
        n <= m,
        request_after(fields, n) is None,
    ensures
        request_after(fields, m) is None,
    decreases m,
{
    if n < m {
        lemma_request_spoiled(fields, n, (m - 1) as nat);
    }
}

/// Decodes a message from the host.
pub fn decode_to_radio(b: &[u8]) -> (r: Option<ToRadio>)
    ensures
        r == request_of(b@),
{
    let found = match scan_fields(b) {
        Some(found) => found,
        None => {
            return None;
        },
    };
    let ghost fields = crate::messages::found_fields(found@, b@);
    let mut acc = ToRadio::Other;
    let mut i: usize = 0;
    while i < found.len()
        invariant
            i <= found@.len(),
            fields == crate::messages::found_fields(found@, b@),
            fields_of(b@) == Some(fields),
            request_after(fields, i as nat) == Some(acc),
        decreases found.len() - i,
    {
        let f = found[i];
        assert(fields[i as int] == f.field(b@));
        let mut spoiled = false;
        if f.number == 3 {
            match f.value {
                FoundValue::Varint(v) => {
                    acc = ToRadio::WantConfigId((v % 0x1_0000_0000) as u32);
                },
                _ => {
                    spoiled = true;
                },
            }
        } else if f.number == 7 {
            match f.value {
                FoundValue::Bytes { start, end } => {
                    acc = ToRadio::Heartbeat;
                },
                _ => {
                    spoiled = true;
                },
            }
        }
        if spoiled {
            proof {
                lemma_request_spoiled(fields, (i + 1) as nat, found@.len() as nat);
            }
            return None;
        }
        i = i + 1;
    }
    Some(acc)
}

/// A message of the configuration burst.
#[derive(Clone, Copy, Debug, PartialEq, Eq, Structural)]
pub enum HostReply {
    /// Who this node is.
    MyNodeInfo,
    /// The record of this node itself.
    OwnNodeInfo,
    /// The record of the peer with this id.
    PeerNodeInfo(u32),
    /// The device configuration.
    Config,
    /// The module configuration.
    ModuleConfig,
    /// The channel.
    Channel,
    /// The end of the burst, with the id that the host gave.
    ConfigComplete(u32),
}

/// The replies for the records from `from` on: one for every record that
/// is not this node's own, in the order of the records.
pub open spec fn peer_replies(nodes: Seq<NodeInfoView>, our_node_id: u32, from: int) -> Seq<HostReply>
    decreases nodes.len() - from,
{
    if from < 0 || from >= nodes.len() {
        Seq::empty()
    } else if nodes[from].num == our_node_id {
        peer_replies(nodes, our_node_id, from + 1)
    } else {
        seq![HostReply::PeerNodeInfo(nodes[from].num)] + peer_replies(nodes, our_node_id, from + 1)
    }
}

/// The configuration burst: who this node is, its own record, the record of
/// every peer, the device configuration, the module configuration, the
/// channel, and the end with the id that the host gave.
pub open spec fn config_burst(nodes: Seq<NodeInfoView>, our_node_id: u32, config_id: u32) -> Seq<
    HostReply,
> {
    seq![HostReply::MyNodeInfo, HostReply::OwnNodeInfo] + peer_replies(nodes, our_node_id, 0)
        + seq![
        HostReply::Config,
        HostReply::ModuleConfig,
        HostReply::Channel,
        HostReply::ConfigComplete(config_id),
    ]
}

/// Lists the messages of the configuration burst in their order.
pub fn plan_config_burst(nodes: &Vec<NodeInfo>, our_node_id: u32, config_id: u32) -> (plan: Vec<
    HostReply,
>)
    ensures
        plan@ == config_burst(Seq::new(nodes@.len(), |i: int| nodes@[i]@), our_node_id, config_id),
{
    let ghost views = Seq::new(nodes@.len(), |i: int| nodes@[i]@);
    let mut plan: Vec<HostReply> = Vec::new();
    plan.push(HostReply::MyNodeInfo);
    plan.push(HostReply::OwnNodeInfo);
    let ghost head = plan@;
    assert(head =~= seq![HostReply::MyNodeInfo, HostReply::OwnNodeInfo]);
    let mut i: usize = 0;
    assert(plan@ + peer_replies(views, our_node_id, 0) =~= head + peer_replies(views, our_node_id, 0));
    while i < nodes.len()
        invariant
            i <= nodes@.len(),
            views == Seq::new(nodes@.len(), |k: int| nodes@[k]@),
            plan@ + peer_replies(views, our_node_id, i as int) == head + peer_replies(
                views,
                our_node_id,
                0,
            ),
        decreases nodes.len() - i,
    {
        let ghost before = plan@;
        if nodes[i].num != our_node_id {
            plan.push(HostReply::PeerNodeInfo(nodes[i].num));
            assert(before + (seq![HostReply::PeerNodeInfo(views[i as int].num)] + peer_replies(
                views,
                our_node_id,
                i + 1,
            )) =~= plan@ + peer_replies(views, our_node_id, i + 1));
        }
        i = i + 1;
    }
    assert(plan@ + Seq::<HostReply>::empty() =~= plan@);
    let ghost middle = plan@;
    plan.push(HostReply::Config);
    plan.push(HostReply::ModuleConfig);
    plan.push(HostReply::Channel);
    plan.push(HostReply::ConfigComplete(config_id));
    assert(plan@ =~= middle + seq![
        HostReply::Config,
        HostReply::ModuleConfig,
        HostReply::Channel,
        HostReply::ConfigComplete(config_id),
    ]);
    plan
}

/// How a packet from the mesh is passed on to the host.
#[derive(Clone, Copy, Debug, PartialEq, Eq, Structural)]
pub enum Forward {
    /// As the record of its source, if the registry has one.
    NodeRecord,
    /// As the mesh packet itself.
    MeshPacket,
    /// Not at all.
    Nothing,
}

/// How packets of a port are passed on: node-info packets as the record
/// of their source; position, telemetry, text, routing, traceroute and
/// neighbor-info packets as they are; others not at all.
pub open spec fn forward_of(port: PortNum) -> Forward {
    if port == PortNum::NodeInfo {
        Forward::NodeRecord
    } else if port == PortNum::Other {
        Forward::Nothing
    } else {
        Forward::MeshPacket
    }
}

/// Decides how a packet from the mesh is passed on to the host.
pub fn forward_decision(packet: &DecodedPacket) -> (f: Forward)
    ensures
        f == forward_of(packet@.port()),
{
    match packet.port_num() {
        PortNum::NodeInfo => Forward::NodeRecord,
        PortNum::Other => Forward::Nothing,
        _ => Forward::MeshPacket,
    }
}

/// The name under which a port appears in the log.
pub fn port_name(port: PortNum) -> (name: &'static str)
    ensures
        name == port_label(port),
{
    match port {
        PortNum::Telemetry => "TELEMETRY",
        PortNum::NodeInfo => "NODEINFO",
        PortNum::Position => "POSITION",
        PortNum::NeighborInfo => "NEIGHBORINFO",
        PortNum::TextMessage => "TEXT",
        PortNum::Routing => "ROUTING",
        PortNum::Traceroute => "TRACEROUTE",
        PortNum::Other => "OTHER",
    }
}

/// The name under which a port appears in the log.
pub open spec fn port_label(port: PortNum) -> &'static str {
    match port {
        PortNum::Telemetry => "TELEMETRY",
        PortNum::NodeInfo => "NODEINFO",
        PortNum::Position => "POSITION",
        PortNum::NeighborInfo => "NEIGHBORINFO",
        PortNum::TextMessage => "TEXT",
        PortNum::Routing => "ROUTING",
        PortNum::Traceroute => "TRACEROUTE",
        PortNum::Other => "OTHER",
    }
}

/// The bytes of an optional varint field: none for 0.
pub open spec fn varint_unless_zero(number: u32, v: u64) -> Seq<u8> {
    if v != 0 {
        varint_field(number, v)
    } else {
        Seq::empty()
    }
}

/// The bytes of an optional field of bytes: none for no bytes.
pub open spec fn bytes_unless_empty(number: u32, s: Seq<u8>) -> Seq<u8> {
    if s.len() > 0 {
        bytes_field(number, s)
    } else {
        Seq::empty()
    }
}

/// The bytes of a flag: none for `false`.
pub open spec fn flag_field(number: u32, b: bool) -> Seq<u8> {
    if b {
        varint_field(number, 1)
    } else {
        Seq::empty()
    }
}

/// A signed 32-bit number as the varint that carries it: sign-extended to
/// 64 bits.
pub open spec fn int32_varint(x: i32) -> u64 {
    if x >= 0 {
        x as u64
    } else {
        (x + 0x1_0000_0000_0000_0000) as u64
    }
}

/// A signed 32-bit number as its 32-bit pattern in two's complement.
pub open spec fn bits32(x: i32) -> u32 {
    if x >= 0 {
        x as u32
    } else {
        (x + 0x1_0000_0000) as u32
    }
}

fn put_varint_unless_zero(out: &mut Vec<u8>, number: u32, v: u64)
    requires
        number <= crate::wire::MAX_FIELD_NUMBER,
    ensures
        final(out)@ == old(out)@ + varint_unless_zero(number, v),
{
    if v != 0 {
        put_varint_field(out, number, v);
    } else {
        assert(out@ + Seq::<u8>::empty() =~= out@);
    }
}

fn put_fixed32_unless_zero(out: &mut Vec<u8>, number: u32, x: u32)
    requires
        number <= crate::wire::MAX_FIELD_NUMBER,
    ensures
        final(out)@ == old(out)@ + fixed32_unless_zero(number, x),
{
    if x != 0 {
        put_fixed32_field(out, number, x);
    } else {
        assert(out@ + Seq::<u8>::empty() =~= out@);
    }
}

fn put_bytes_unless_empty(out: &mut Vec<u8>, number: u32, s: &[u8])
    requires
        number <= crate::wire::MAX_FIELD_NUMBER,
    ensures
        final(out)@ == old(out)@ + bytes_unless_empty(number, s@),
{
    if s.len() > 0 {
        put_bytes_field(out, number, s);
    } else {
        assert(out@ + Seq::<u8>::empty() =~= out@);
    }
}

fn put_flag(out: &mut Vec<u8>, number: u32, b: bool)
    requires
        number <= crate::wire::MAX_FIELD_NUMBER,
    ensures
        final(out)@ == old(out)@ + flag_field(number, b),
{
    if b {
        put_varint_field(out, number, 1);
    } else {
        assert(out@ + Seq::<u8>::empty() =~= out@);
    }
}

fn to_int32_varint(x: i32) -> (v: u64)
    ensures
        v == int32_varint(x),
{
    if x >= 0 {
        x as u64
    } else {
        (x as i128 + 0x1_0000_0000_0000_0000) as u64
    }
}

fn to_bits32(x: i32) -> (v: u32)
    ensures
        v == bits32(x),
{
    if x >= 0 {
        x as u32
    } else {
        (x as i64 + 0x1_0000_0000) as u32
    }
}

/// The message to the host with the given id and payload field.
pub open spec fn from_radio(packet_id: u32, number: u32, body: Seq<u8>) -> Seq<u8> {
    varint_unless_zero(1, packet_id as u64) + bytes_field(number, body)
}

fn wrap_from_radio(packet_id: u32, number: u32, body: &Vec<u8>) -> (out: Vec<u8>)
    requires
        number <= crate::wire::MAX_FIELD_NUMBER,
    ensures
        out@ == from_radio(packet_id, number, body@),
{
    let mut out: Vec<u8> = Vec::new();
    put_varint_unless_zero(&mut out, 1, packet_id as u64);
    put_bytes_field(&mut out, number, body.as_slice());
    assert(out@ =~= from_radio(packet_id, number, body@));
    out
}

/// The device identifier that this node reports.
pub open spec fn device_id() -> Seq<u8> {
    seq![0x45u8, 0x4du8, 0x42u8, 0x41u8, 0x53u8, 0x53u8, 0x59u8, 0x5fu8, 0x4eu8, 0x52u8, 0x46u8, 0x35u8, 0x32u8]
}

fn device_id_bytes() -> (v: Vec<u8>)
    ensures
        v@ == device_id(),
{
    let a: [u8; 13] = [0x45, 0x4d, 0x42, 0x41, 0x53, 0x53, 0x59, 0x5f, 0x4e, 0x52, 0x46, 0x35, 0x32];
    let v = copy_range(a.as_slice(), 0, 13);
    assert(v@ =~= device_id());
    v
}

/// The name of the platform environment that this node reports.
pub open spec fn pio_env() -> Seq<u8> {
    seq![0x65u8, 0x6du8, 0x62u8, 0x61u8, 0x73u8, 0x73u8, 0x79u8, 0x5fu8, 0x6eu8, 0x72u8, 0x66u8, 0x35u8, 0x32u8]
}

fn pio_env_bytes() -> (v: Vec<u8>)
    ensures
        v@ == pio_env(),
{
    let a: [u8; 13] = [0x65, 0x6d, 0x62, 0x61, 0x73, 0x73, 0x79, 0x5f, 0x6e, 0x72, 0x66, 0x35, 0x32];
    let v = copy_range(a.as_slice(), 0, 13);
    assert(v@ =~= pio_env());
    v
}

/// The user id of this node.
pub open spec fn own_user_id() -> Seq<u8> {
    seq![0x21u8, 0x64u8, 0x65u8, 0x61u8, 0x64u8, 0x62u8, 0x65u8, 0x65u8, 0x66u8]
}

fn own_user_id_bytes() -> (v: Vec<u8>)
    ensures
        v@ == own_user_id(),
{
    let a: [u8; 9] = [0x21, 0x64, 0x65, 0x61, 0x64, 0x62, 0x65, 0x65, 0x66];
    let v = copy_range(a.as_slice(), 0, 9);
    assert(v@ =~= own_user_id());
    v
}

/// The long name of this node.
pub open spec fn own_long_name() -> Seq<u8> {
    seq![0x45u8, 0x6du8, 0x62u8, 0x61u8, 0x73u8, 0x73u8, 0x79u8, 0x20u8, 0x4eu8, 0x52u8, 0x46u8, 0x35u8, 0x32u8]
}

fn own_long_name_bytes() -> (v: Vec<u8>)
    ensures
        v@ == own_long_name(),
{
    let a: [u8; 13] = [0x45, 0x6d, 0x62, 0x61, 0x73, 0x73, 0x79, 0x20, 0x4e, 0x52, 0x46, 0x35, 0x32];
    let v = copy_range(a.as_slice(), 0, 13);
    assert(v@ =~= own_long_name());
    v
}

/// The short name of this node.
pub open spec fn own_short_name() -> Seq<u8> {
    seq![0x45u8, 0x4eu8, 0x52u8, 0x46u8]
}

fn own_short_name_bytes() -> (v: Vec<u8>)
    ensures
        v@ == own_short_name(),
{
    let a: [u8; 4] = [0x45, 0x4e, 0x52, 0x46];
    let v = copy_range(a.as_slice(), 0, 4);
    assert(v@ =~= own_short_name());
    v
}

/// The name of the channel.
pub open spec fn channel_name() -> Seq<u8> {
    seq![0x4cu8, 0x6fu8, 0x6eu8, 0x67u8, 0x46u8, 0x61u8, 0x73u8, 0x74u8]
}

fn channel_name_bytes() -> (v: Vec<u8>)
    ensures
        v@ == channel_name(),
{
    let a: [u8; 8] = [0x4c, 0x6f, 0x6e, 0x67, 0x46, 0x61, 0x73, 0x74];
    let v = copy_range(a.as_slice(), 0, 8);
    assert(v@ =~= channel_name());
    v
}

/// Number of reboots that this node reports.
pub const REBOOT_COUNT: u32 = 42;

/// Oldest application version that this node works with.
pub const MIN_APP_VERSION: u32 = 30200;

/// Seconds between broadcasts of this node's record.
pub const NODE_INFO_BROADCAST_SECS: u32 = 900;

/// The message that says who this node is: its id, reboot count, oldest
/// application version, device identifier and platform environment.
pub open spec fn my_node_info_packet(packet_id: u32) -> Seq<u8> {
    from_radio(
        packet_id,
        3,
        varint_field(1, OUR_NODE_ID as u64) + varint_field(8, REBOOT_COUNT as u64) + varint_field(
            11,
            MIN_APP_VERSION as u64,
        ) + bytes_field(12, device_id()) + bytes_field(13, pio_env()),
    )
}

/// Builds the message that says who this node is.
pub fn create_my_node_info_packet(packet_id: u32) -> (out: Vec<u8>)
    ensures
        out@ == my_node_info_packet(packet_id),
{
    let mut body: Vec<u8> = Vec::new();
    put_varint_field(&mut body, 1, OUR_NODE_ID as u64);
    put_varint_field(&mut body, 8, REBOOT_COUNT as u64);
    put_varint_field(&mut body, 11, MIN_APP_VERSION as u64);
    let id = device_id_bytes();
    put_bytes_field(&mut body, 12, id.as_slice());
    let env = pio_env_bytes();
    put_bytes_field(&mut body, 13, env.as_slice());
    assert(body@ =~= varint_field(1, OUR_NODE_ID as u64) + varint_field(8, REBOOT_COUNT as u64)
        + varint_field(11, MIN_APP_VERSION as u64) + bytes_field(12, device_id()) + bytes_field(
        13,
        pio_env(),
    ));
    wrap_from_radio(packet_id, 3, &body)
}

/// The bytes of a user as the host sees it: id, long name, short name,
/// hardware model, license flag, role, and that the node can be messaged.
pub open spec fn user_bytes(id: Seq<u8>, u: UserView) -> Seq<u8> {
    bytes_unless_empty(1, id) + bytes_unless_empty(2, u.long_name) + bytes_unless_empty(
        3,
        u.short_name,
    ) + varint_unless_zero(5, u.hw_model as u64) + flag_field(6, u.is_licensed)
        + varint_unless_zero(7, u.role as u64) + varint_field(9, 0)
}

fn encode_user(id: &[u8], long_name: &[u8], short_name: &[u8], hw_model: u32, is_licensed: bool, role: u32) -> (out:
    Vec<u8>)
    ensures
        out@ == user_bytes(
            id@,
            UserView {
                long_name: long_name@,
                short_name: short_name@,
                hw_model,
                role,
                is_licensed,
            },
        ),
{
    let mut out: Vec<u8> = Vec::new();
    put_bytes_unless_empty(&mut out, 1, id);
    put_bytes_unless_empty(&mut out, 2, long_name);
    put_bytes_unless_empty(&mut out, 3, short_name);
    put_varint_unless_zero(&mut out, 5, hw_model as u64);
    put_flag(&mut out, 6, is_licensed);
    put_varint_unless_zero(&mut out, 7, role as u64);
    put_varint_field(&mut out, 9, 0);
    assert(out@ =~= user_bytes(
        id@,
        UserView { long_name: long_name@, short_name: short_name@, hw_model, role, is_licensed },
    ));
    out
}

/// The bytes of a position as the host sees it: latitude, longitude and
/// altitude always, time and location source unless 0.
pub open spec fn position_bytes(p: Position) -> Seq<u8> {
    fixed32_field(1, bits32(p.latitude_i)) + fixed32_field(2, bits32(p.longitude_i))
        + varint_field(3, int32_varint(p.altitude)) + fixed32_unless_zero(4, p.time)
        + varint_unless_zero(5, p.location_source as u64)
}

fn encode_position(p: &Position) -> (out: Vec<u8>)
    ensures
        out@ == position_bytes(*p),
{
    let mut out: Vec<u8> = Vec::new();
    put_fixed32_field(&mut out, 1, to_bits32(p.latitude_i));
    put_fixed32_field(&mut out, 2, to_bits32(p.longitude_i));
    put_varint_field(&mut out, 3, to_int32_varint(p.altitude));
    put_fixed32_unless_zero(&mut out, 4, p.time);
    put_varint_unless_zero(&mut out, 5, p.location_source as u64);
    assert(out@ =~= position_bytes(*p));
    out
}

/// The bytes of device metrics as the host sees them: all five fields,
/// whatever they hold.
pub open spec fn metrics_bytes(m: DeviceMetrics) -> Seq<u8> {
    varint_field(1, m.battery_level as u64) + fixed32_field(2, m.voltage_bits) + fixed32_field(
        3,
        m.channel_utilization_bits,
    ) + fixed32_field(4, m.air_util_tx_bits) + varint_field(5, m.uptime_seconds as u64)
}

fn encode_metrics(m: &DeviceMetrics) -> (out: Vec<u8>)
    ensures
        out@ == metrics_bytes(*m),
{
    let mut out: Vec<u8> = Vec::new();
    put_varint_field(&mut out, 1, m.battery_level as u64);
    put_fixed32_field(&mut out, 2, m.voltage_bits);
    put_fixed32_field(&mut out, 3, m.channel_utilization_bits);
    put_fixed32_field(&mut out, 4, m.air_util_tx_bits);
    put_varint_field(&mut out, 5, m.uptime_seconds as u64);
    assert(out@ =~= metrics_bytes(*m));
    out
}

/// The message with this node's own record: its id, its user, and that
/// it is no hop away.
pub open spec fn own_node_info_packet(packet_id: u32) -> Seq<u8> {
    from_radio(
        packet_id,
        4,
        varint_field(1, OUR_NODE_ID as u64) + bytes_field(
            2,
            user_bytes(
                own_user_id(),
                UserView {
                    long_name: own_long_name(),
                    short_name: own_short_name(),
                    hw_model: 0,
                    role: 0,
                    is_licensed: false,
                },
            ),
        ) + varint_field(9, 0),
    )
}

/// Builds the message with this node's own record.
pub fn create_node_info_packet(packet_id: u32) -> (out: Vec<u8>)
    ensures
        out@ == own_node_info_packet(packet_id),
{
    let id = own_user_id_bytes();
    let long_name = own_long_name_bytes();
    let short_name = own_short_name_bytes();
    let user = encode_user(id.as_slice(), long_name.as_slice(), short_name.as_slice(), 0, false, 0);
    let mut body: Vec<u8> = Vec::new();
    put_varint_field(&mut body, 1, OUR_NODE_ID as u64);
    put_bytes_field(&mut body, 2, user.as_slice());
    put_varint_field(&mut body, 9, 0);
    assert(body@ =~= varint_field(1, OUR_NODE_ID as u64) + bytes_field(2, user@) + varint_field(
        9,
        0,
    ));
    wrap_from_radio(packet_id, 4, &body)
}

/// The bytes of the record of a peer: its id, then user, position and
/// device metrics as far as they are known, the signal-to-noise ratio as the
/// bits of its floating-point value, the time it was last heard, and that
/// it is one hop away.
pub open spec fn peer_record_bytes(node: NodeInfoView, snr_bits: u32) -> Seq<u8> {
    varint_unless_zero(1, node.num as u64) + (match node.user {
        Some(u) => bytes_field(2, user_bytes(Seq::empty(), u)),
        None => Seq::empty(),
    }) + (match node.position {
        Some(p) => bytes_field(3, position_bytes(p)),
        None => Seq::empty(),
    }) + fixed32_unless_zero(4, snr_bits) + fixed32_unless_zero(5, node.last_heard) + (
    match node.device_metrics {
        Some(m) => bytes_field(6, metrics_bytes(m)),
        None => Seq::empty(),
    }) + varint_field(9, 1)
}

/// The message with the record of a peer.
pub open spec fn peer_node_info_packet(packet_id: u32, node: NodeInfoView, snr_bits: u32) -> Seq<u8> {
    from_radio(packet_id, 4, peer_record_bytes(node, snr_bits))
}

/// Builds the message with the record of a peer. `snr_bits` is the bit
/// pattern of the record's signal-to-noise ratio as a 32-bit float.
pub fn create_node_info_packet_from_db(packet_id: u32, node: &NodeInfo, snr_bits: u32) -> (out: Vec<
    u8,
>)
    ensures
        out@ == peer_node_info_packet(packet_id, node@, snr_bits),
{
    let mut body: Vec<u8> = Vec::new();
    put_varint_unless_zero(&mut body, 1, node.num as u64);
    let ghost s1 = body@;
    match &node.user {
        Some(u) => {
            let empty: Vec<u8> = Vec::new();
            let user = encode_user(
                empty.as_slice(),
                u.long_name.as_slice(),
                u.short_name.as_slice(),
                u.hw_model,
                u.is_licensed,
                u.role,
            );
            assert(empty@ =~= Seq::<u8>::empty());
            put_bytes_field(&mut body, 2, user.as_slice());
        },
        None => {
            assert(body@ + Seq::<u8>::empty() =~= body@);
        },
    }
    let ghost s2 = body@;
    match &node.position {
        Some(p) => {
            let position = encode_position(p);
            put_bytes_field(&mut body, 3, position.as_slice());
        },
        None => {
            assert(body@ + Seq::<u8>::empty() =~= body@);
        },
    }
    let ghost s3 = body@;
    put_fixed32_unless_zero(&mut body, 4, snr_bits);
    put_fixed32_unless_zero(&mut body, 5, node.last_heard);
    let ghost s5 = body@;
    match &node.device_metrics {
        Some(m) => {
            let metrics = encode_metrics(m);
            put_bytes_field(&mut body, 6, metrics.as_slice());
        },
        None => {
            assert(body@ + Seq::<u8>::empty() =~= body@);
        },
    }
    put_varint_field(&mut body, 9, 1);
    assert(body@ =~= peer_record_bytes(node@, snr_bits));
    wrap_from_radio(packet_id, 4, &body)
}

/// The message with the device configuration: a device section that
/// sets the seconds between broadcasts of the node's record and leaves the
/// rest at its defaults.
pub open spec fn config_packet(packet_id: u32) -> Seq<u8> {
    from_radio(
        packet_id,
        5,
        bytes_field(1, varint_field(7, NODE_INFO_BROADCAST_SECS as u64)),
    )
}

/// Builds the message with the device configuration.
pub fn create_config_packet(packet_id: u32) -> (out: Vec<u8>)
    ensures
        out@ == config_packet(packet_id),
{
    let mut device: Vec<u8> = Vec::new();
    put_varint_field(&mut device, 7, NODE_INFO_BROADCAST_SECS as u64);
    assert(device@ =~= varint_field(7, NODE_INFO_BROADCAST_SECS as u64));
    let mut body: Vec<u8> = Vec::new();
    put_bytes_field(&mut body, 1, device.as_slice());
    assert(body@ =~= bytes_field(1, device@));
    wrap_from_radio(packet_id, 5, &body)
}

/// The message with the module configuration: an MQTT section with
/// everything at its defaults.
pub open spec fn module_config_packet(packet_id: u32) -> Seq<u8> {
    from_radio(packet_id, 9, bytes_field(1, Seq::empty()))
}

/// Builds the message with the module configuration.
pub fn create_module_config_packet(packet_id: u32) -> (out: Vec<u8>)
    ensures
        out@ == module_config_packet(packet_id),
{
    let mqtt: Vec<u8> = Vec::new();
    assert(mqtt@ =~= Seq::<u8>::empty());
    let mut body: Vec<u8> = Vec::new();
    put_bytes_field(&mut body, 1, mqtt.as_slice());
    assert(body@ =~= bytes_field(1, Seq::empty()));
    wrap_from_radio(packet_id, 9, &body)
}

/// The message with the channel: the primary channel at index 0, with
/// the one-byte default key and its name.
pub open spec fn channel_packet(packet_id: u32) -> Seq<u8> {
    from_radio(
        packet_id,
        10,
        bytes_field(2, bytes_field(2, seq![1u8]) + bytes_field(3, channel_name())) + varint_field(
            3,
            1,
        ),
    )
}

/// Builds the message with the channel.
pub fn create_channel_packet(packet_id: u32) -> (out: Vec<u8>)
    ensures
        out@ == channel_packet(packet_id),
{
    let mut settings: Vec<u8> = Vec::new();
    let mut psk: Vec<u8> = Vec::new();
    psk.push(1);
    assert(psk@ =~= seq![1u8]);
    put_bytes_field(&mut settings, 2, psk.as_slice());
    let name = channel_name_bytes();
    put_bytes_field(&mut settings, 3, name.as_slice());
    assert(settings@ =~= bytes_field(2, seq![1u8]) + bytes_field(3, channel_name()));
    let mut body: Vec<u8> = Vec::new();
    put_bytes_field(&mut body, 2, settings.as_slice());
    put_varint_field(&mut body, 3, 1);
    assert(body@ =~= bytes_field(2, settings@) + varint_field(3, 1));
    wrap_from_radio(packet_id, 10, &body)
}

/// The message that ends the configuration burst with the id that the
/// host gave.
pub open spec fn config_complete_packet(packet_id: u32, config_complete_id: u32) -> Seq<u8> {
    varint_unless_zero(1, packet_id as u64) + varint_field(7, config_complete_id as u64)
}

/// Builds the message that ends the configuration burst.
pub fn create_config_complete_packet(packet_id: u32, config_complete_id: u32) -> (out: Vec<u8>)
    ensures
        out@ == config_complete_packet(packet_id, config_complete_id),
{
    let mut out: Vec<u8> = Vec::new();
    put_varint_unless_zero(&mut out, 1, packet_id as u64);
    put_varint_field(&mut out, 7, config_complete_id as u64);
    assert(out@ =~= config_complete_packet(packet_id, config_complete_id));
    out
}

/// The payload of a packet as it is passed on: port and payload as
/// received, destination and source from the header, nothing else.
pub open spec fn forwarded_data(p: DecodedPacketView) -> DataView {
    DataView {
        portnum: p.data.portnum,
        payload: p.data.payload,
        dest: p.header.destination,
        source: p.header.source,
        ..DataView::empty()
    }
}

/// The bytes of a mesh packet as the host sees it: sender, addressee,
/// payload, packet id, signal-to-noise ratio as the bits of its
/// floating-point value, hop limit, want-ack flag, signal strength,
/// via-MQTT flag, hop start, next hop and relay node.
pub open spec fn mesh_packet_bytes(p: DecodedPacketView, snr_bits: u32) -> Seq<u8> {
    fixed32_unless_zero(1, p.header.source) + fixed32_unless_zero(2, p.header.destination)
        + bytes_field(4, forwarded_data(p).encode()) + fixed32_unless_zero(6, p.header.packet_id)
        + fixed32_unless_zero(8, snr_bits) + varint_unless_zero(
        9,
        p.header.flags.hop_limit as u64,
    ) + flag_field(10, p.header.flags.want_ack) + varint_unless_zero(
        12,
        int32_varint(p.rssi as i32),
    ) + flag_field(14, p.header.flags.via_mqtt) + varint_unless_zero(
        15,
        p.header.flags.hop_start as u64,
    ) + varint_unless_zero(18, p.header.next_hop as u64) + varint_unless_zero(
        19,
        p.header.relay_node as u64,
    )
}

/// The message that passes a packet from the mesh on to the host, for
/// a packet that is passed on as it is.
pub open spec fn mesh_packet_message(packet_id: u32, p: DecodedPacketView, snr_bits: u32) -> Option<
    Seq<u8>,
> {
    if forward_of(p.port()) == Forward::MeshPacket {
        Some(from_radio(packet_id, 2, mesh_packet_bytes(p, snr_bits)))
    } else {
        None
    }
}

/// Builds the message that passes a packet from the mesh on to the host.
/// There is none for a packet that is not passed on as it is. `snr_bits`
/// is the bit pattern of the packet's signal-to-noise ratio as a 32-bit
/// float.
pub fn create_mesh_packet_from_data(packet_id: u32, packet: &DecodedPacket, snr_bits: u32) -> (r:
    Option<Vec<u8>>)
    ensures
        r is Some <==> mesh_packet_message(packet_id, packet@, snr_bits) is Some,
        r matches Some(out) ==> mesh_packet_message(packet_id, packet@, snr_bits) == Some(out@),
{
    match forward_decision(packet) {
        Forward::MeshPacket => {},
        _ => {
            return None;
        },
    }
    let data = crate::data::Data {
        portnum: packet.data.portnum,
        payload: packet.data.payload.clone(),
        want_response: false,
        dest: packet.header.destination,
        source: packet.header.source,
        request_id: 0,
        reply_id: 0,
        emoji: 0,
        bitfield: None,
    };
    assert(data.payload@ =~= packet.data.payload@);
    assert(data@ == forwarded_data(packet@));
    let decoded = data.encode();
    let mut body: Vec<u8> = Vec::new();
    put_fixed32_unless_zero(&mut body, 1, packet.header.source);
    put_fixed32_unless_zero(&mut body, 2, packet.header.destination);
    put_bytes_field(&mut body, 4, decoded.as_slice());
    put_fixed32_unless_zero(&mut body, 6, packet.header.packet_id);
    put_fixed32_unless_zero(&mut body, 8, snr_bits);
    put_varint_unless_zero(&mut body, 9, packet.header.flags.hop_limit as u64);
    let ghost half = body@;
    assert(half =~= fixed32_unless_zero(1, packet.header.source) + fixed32_unless_zero(
        2,
        packet.header.destination,
    ) + bytes_field(4, decoded@) + fixed32_unless_zero(6, packet.header.packet_id)
        + fixed32_unless_zero(8, snr_bits) + varint_unless_zero(
        9,
        packet.header.flags.hop_limit as u64,
    ));
    put_flag(&mut body, 10, packet.header.flags.want_ack);
    put_varint_unless_zero(&mut body, 12, to_int32_varint(packet.rssi as i32));
    put_flag(&mut body, 14, packet.header.flags.via_mqtt);
    put_varint_unless_zero(&mut body, 15, packet.header.flags.hop_start as u64);
    put_varint_unless_zero(&mut body, 18, packet.header.next_hop as u64);
    put_varint_unless_zero(&mut body, 19, packet.header.relay_node as u64);
    assert(body@ =~= mesh_packet_bytes(packet@, snr_bits));
    Some(wrap_from_radio(packet_id, 2, &body))
}

} // verus!
