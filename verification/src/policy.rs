//! The relay engine's constants and the rules that depend on nothing but a
//! packet: priority, retry budget, retry schedule, delays.

use crate::data::PortNum;
use crate::header::HeaderFlags;
use crate::packet::{DecodedPacket, DecodedPacketView};
use crate::priority;
use vstd::arithmetic::power2::{lemma2_to64, lemma_pow2_unfold, pow2};
use vstd::prelude::*;

verus! {

/// Most packets that can wait for relay at once.
pub const MAX_PENDING_PACKETS: usize = 16;

/// Most packet ids remembered for duplicate suppression.
pub const MAX_RECENT_PACKETS: usize = 31;

/// Retransmissions of a reliable packet.
pub const NUM_RELIABLE_RETX: u8 = 3;

/// Retransmissions of a routing packet.
pub const NUM_ACK_RETX: u8 = 4;

/// Retransmissions of a text message.
pub const NUM_TEXT_RETX: u8 = 2;

/// Base relay delay without receive boost, in milliseconds.
pub const MIN_HOP_DELAY_MS: u64 = 200;

/// Base relay delay with receive boost, in milliseconds.
pub const MAX_HOP_DELAY_MS: u64 = 300;

/// Extra delay per hop that a packet has already taken, in milliseconds.
pub const HOP_PENALTY_MS: u64 = 50;

/// Base of the channel-busy backoff, in milliseconds.
pub const CHANNEL_BUSY_BASE_DELAY_MS: u64 = 100;

/// Most channel-busy reports that a packet survives.
pub const MAX_CHANNEL_BUSY_RETRIES: u8 = 8;

/// Age at which a pending packet is given up, in milliseconds.
pub const MAX_PACKET_AGE_MS: u64 = 60_000;

/// This node's id.
pub const OUR_NODE_ID: u32 = 0xDEADBEEF;

/// Permitted channel utilization, in percent.
pub const CHANNEL_UTIL_LIMIT: u8 = 10;

/// Denominator of the priority factor.
pub const PRIORITY_FACTOR_DENOMINATOR: u64 = 254;

/// The relay priority of a port: routing packets rank as acknowledgments,
/// everything else is default.
pub open spec fn priority_of(port: PortNum) -> u8 {
    if port == PortNum::Routing {
        priority::ACK
    } else {
        priority::DEFAULT
    }
}

/// The retry budget by port: 4 for routing, 2 for text messages, otherwise
/// 3; none at all for a packet that wants no acknowledgment.
pub open spec fn max_retransmissions_of(port: PortNum, wants_ack: bool) -> u8 {
    if !wants_ack {
        0
    } else if port == PortNum::Routing {
        NUM_ACK_RETX
    } else if port == PortNum::TextMessage {
        NUM_TEXT_RETX
    } else {
        NUM_RELIABLE_RETX
    }
}

/// Whether packets of a port are relayed with acknowledgment: routing
/// packets only.
pub open spec fn wants_ack_of(port: PortNum) -> bool {
    port == PortNum::Routing
}

/// Whether packets of a port are relayed at all.
pub open spec fn port_is_relayed(port: PortNum) -> bool {
    port == PortNum::Routing || port == PortNum::TextMessage || port == PortNum::NodeInfo || port
        == PortNum::Position || port == PortNum::Telemetry
}

/// The wait before retransmission number `retry` (1 is the first one
/// after the initial transmission), in milliseconds: 5, 15, 30, 60 and
/// then always 120 seconds.
pub open spec fn retry_interval_ms(retry: u8) -> u64 {
    if retry <= 1 {
        5000
    } else if retry == 2 {
        15000
    } else if retry == 3 {
        30000
    } else if retry == 4 {
        60000
    } else {
        120000
    }
}

/// The backoff after the channel was found busy `count` times: 100 ms
/// doubled `count` times.
pub open spec fn busy_backoff_ms(count: u8) -> int {
    CHANNEL_BUSY_BASE_DELAY_MS * pow2(count as nat)
}

/// The priority factor in 254ths: 254 (a factor of 1) for priority 0,
/// falling by one with each step of priority to 127 (a factor of one
/// half) for priority 127; 0 from priority 254 on.
pub open spec fn priority_factor_254(priority: u8) -> int {
    if priority >= 254 {
        0
    } else {
        254 - priority
    }
}

/// Hops that a packet has taken: its hop start less its hop limit, 0 if that
/// would be negative.
pub open spec fn hops_taken(flags: HeaderFlags) -> int {
    if flags.hop_start >= flags.hop_limit {
        flags.hop_start - flags.hop_limit
    } else {
        0
    }
}

/// The relay delay before jitter, in milliseconds: the base delay plus the
/// hop penalty, times the priority factor, rounded down.
pub open spec fn adjusted_delay_ms(rx_boost: bool, flags: HeaderFlags, priority: u8) -> int {
    ((if rx_boost {
        MAX_HOP_DELAY_MS
    } else {
        MIN_HOP_DELAY_MS
    }) + hops_taken(flags) * HOP_PENALTY_MS) * priority_factor_254(priority) / 254
}

/// The relay delay in milliseconds: the adjusted delay plus a jitter that
/// `entropy` picks from 0 to twice the adjusted delay.
pub open spec fn relay_delay_ms(rx_boost: bool, flags: HeaderFlags, priority: u8, entropy: u64) -> int {
    adjusted_delay_ms(rx_boost, flags, priority) + (entropy as int) % (2 * adjusted_delay_ms(
        rx_boost,
        flags,
        priority,
    ) + 1)
}

/// The instant `delay_ms` after `now_ms`, at most the largest `u64`.
pub open spec fn time_after(now_ms: u64, delay_ms: int) -> u64 {
    if now_ms + delay_ms > u64::MAX {
        u64::MAX
    } else {
        (now_ms + delay_ms) as u64
    }
}

/// The priority factor of `priority` in 254ths.
pub fn priority_delay_multiplier(priority: u8) -> (f: u64)
    ensures
        f == priority_factor_254(priority),
        priority <= priority::MAX ==> 127 <= f <= 254,
{
    if priority >= 254 {
        0
    } else {
        254 - priority as u64
    }
}

/// The relay priority of a packet.
pub fn get_packet_priority(packet: &DecodedPacket) -> (p: u8)
    ensures
        p == priority_of(packet@.port()),
{
    match packet.port_num() {
        PortNum::Routing => priority::ACK,
        _ => priority::DEFAULT,
    }
}

/// The retry budget of a packet.
pub fn get_max_retransmissions(packet: &DecodedPacket, wants_ack: bool) -> (n: u8)
    ensures
        n == max_retransmissions_of(packet@.port(), wants_ack),
{
    if !wants_ack {
        return 0;
    }
    match packet.port_num() {
        PortNum::Routing => NUM_ACK_RETX,
        PortNum::TextMessage => NUM_TEXT_RETX,
        _ => NUM_RELIABLE_RETX,
    }
}

/// Whether a packet is relayed with acknowledgment.
pub fn packet_wants_ack(packet: &DecodedPacket) -> (w: bool)
    ensures
        w == wants_ack_of(packet@.port()),
{
    match packet.port_num() {
        PortNum::Routing => true,
        _ => false,
    }
}

/// The wait before retransmission number `retry`.
pub fn retry_interval(retry: u8) -> (ms: u64)
    ensures
        ms == retry_interval_ms(retry),
{
    if retry <= 1 {
        5000
    } else if retry == 2 {
        15000
    } else if retry == 3 {
        30000
    } else if retry == 4 {
        60000
    } else {
        120000
    }
}

/// The backoff after `count` channel-busy reports, for `count` up to the
/// most that a packet survives.
pub fn busy_backoff(count: u8) -> (ms: u64)
    requires
        count <= MAX_CHANNEL_BUSY_RETRIES,
    ensures
        ms == busy_backoff_ms(count),
        ms <= 25_600,
{
    let mut ms: u64 = CHANNEL_BUSY_BASE_DELAY_MS;
    let mut i: u8 = 0;
    proof {
        lemma2_to64();
    }
    while i < count
        invariant
            i <= count <= 8,
            ms == 100 * pow2(i as nat),
            pow2(i as nat) <= 256,
            pow2(8) == 256,
        decreases count - i,
    {
        proof {
            lemma_pow2_unfold((i + 1) as nat);
            if i + 1 < 8 {
                vstd::arithmetic::power2::lemma_pow2_strictly_increases((i + 1) as nat, 8);
            }
        }
        ms = ms * 2;
        i = i + 1;
    }
    ms
}

/// The relay delay of a packet with the given flags and priority; `entropy`
/// picks the jitter.
pub fn relay_delay(rx_boost: bool, flags: &HeaderFlags, priority: u8, entropy: u64) -> (ms: u64)
    ensures
        ms == relay_delay_ms(rx_boost, *flags, priority, entropy),
        adjusted_delay_ms(rx_boost, *flags, priority) <= ms <= 3 * adjusted_delay_ms(
            rx_boost,
            *flags,
            priority,
        ),
        ms <= 39_150,
{
    let base: u64 = if rx_boost {
        MAX_HOP_DELAY_MS
    } else {
        MIN_HOP_DELAY_MS
    };
    let hops: u64 = flags.hop_start.saturating_sub(flags.hop_limit) as u64;
    let total: u64 = base + hops * HOP_PENALTY_MS;
    let factor: u64 = priority_delay_multiplier(priority);
    assert(total * factor <= 13_050 * 254) by (nonlinear_arith)
        requires
            total <= 13_050,
            factor <= 254,
    ;
    let adjusted: u64 = total * factor / PRIORITY_FACTOR_DENOMINATOR;
    let jitter: u64 = entropy % (2 * adjusted + 1);
    adjusted + jitter
}

} // verus!
