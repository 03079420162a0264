//! The fixed 16-byte frame header: its fields, its wire form and the cipher
//! nonce derived from it.
//!
//! All multi-byte fields are little-endian on the wire. The byte order of the
//! fields is destination, source, packet id, flags, channel hash, next hop,
//! relay node.

use vstd::prelude::*;

verus! {

/// Destination address that means "every node".
pub const BROADCAST_ADDR: u32 = 0xFFFF_FFFF;

/// Length of the header on the wire, in bytes.
pub const HEADER_LEN: usize = 16;

/// Largest hop count that the three-bit header fields can carry.
pub const MAX_HOPS: u8 = 7;

/// The hop counters and the two flag bits that share one header byte.
#[derive(Clone, Copy, Debug, PartialEq, Eq, Structural)]
pub struct HeaderFlags {
    /// Rebroadcasts that the frame may still undergo.
    pub hop_limit: u8,
    /// Value of `hop_limit` when the frame was first sent.
    pub hop_start: u8,
    /// The sender asks for an acknowledgment.
    pub want_ack: bool,
    /// The frame travelled over an MQTT bridge.
    pub via_mqtt: bool,
}

/// The frame header.
#[derive(Clone, Copy, Debug, PartialEq, Eq, Structural)]
pub struct Header {
    /// Addressee; `BROADCAST_ADDR` for everyone.
    pub destination: u32,
    /// Originating node.
    pub source: u32,
    /// Identifier chosen by the source, non-zero.
    pub packet_id: u32,
    /// Hop counters and flag bits.
    pub flags: HeaderFlags,
    /// Selects the channel key.
    pub channel_hash: u8,
    /// Last byte of the preferred next hop's id, 0 if none.
    pub next_hop: u8,
    /// Last byte of the id of the node that relayed this frame.
    pub relay_node: u8,
}

/// Byte `i` (0 is least significant) of `x`.
pub open spec fn le_byte(x: u32, i: nat) -> u8 {
    if i == 0 {
        (x & 0xff) as u8
    } else if i == 1 {
        ((x >> 8) & 0xff) as u8
    } else if i == 2 {
        ((x >> 16) & 0xff) as u8
    } else {
        ((x >> 24) & 0xff) as u8
    }
}

/// The number whose little-endian bytes are `b0, b1, b2, b3`.
pub open spec fn le_u32(b0: u8, b1: u8, b2: u8, b3: u8) -> u32 {
    (b0 as u32) | ((b1 as u32) << 8) | ((b2 as u32) << 16) | ((b3 as u32) << 24)
}

/// The four little-endian bytes of `x`.
pub open spec fn le_bytes(x: u32) -> Seq<u8> {
    seq![le_byte(x, 0), le_byte(x, 1), le_byte(x, 2), le_byte(x, 3)]
}

/// Reading back the little-endian bytes of a number gives the number.
pub proof fn lemma_le_round_trip(x: u32)
    ensures
        le_u32(le_byte(x, 0), le_byte(x, 1), le_byte(x, 2), le_byte(x, 3)) == x,
{
    assert(((x & 0xff) as u8 as u32) | ((((x >> 8) & 0xff) as u8 as u32) << 8) | ((((x >> 16)
        & 0xff) as u8 as u32) << 16) | ((((x >> 24) & 0xff) as u8 as u32) << 24) == x)
        by (bit_vector);
}

/// Splitting a number built from four bytes gives those bytes back.
pub proof fn lemma_le_bytes_of_le_u32(b0: u8, b1: u8, b2: u8, b3: u8)
    ensures
        le_byte(le_u32(b0, b1, b2, b3), 0) == b0,
        le_byte(le_u32(b0, b1, b2, b3), 1) == b1,
        le_byte(le_u32(b0, b1, b2, b3), 2) == b2,
        le_byte(le_u32(b0, b1, b2, b3), 3) == b3,
{
    let x = le_u32(b0, b1, b2, b3);
    assert((x & 0xff) as u8 == b0 && ((x >> 8) & 0xff) as u8 == b1 && ((x >> 16) & 0xff) as u8
        == b2 && ((x >> 24) & 0xff) as u8 == b3) by (bit_vector)
        requires
            x == (b0 as u32) | ((b1 as u32) << 8) | ((b2 as u32) << 16) | ((b3 as u32) << 24),
    ;
}

fn u32_to_le(x: u32) -> (r: [u8; 4])
    ensures
        r@ == le_bytes(x),
{
    let r = [
        (x & 0xff) as u8,
        ((x >> 8) & 0xff) as u8,
        ((x >> 16) & 0xff) as u8,
        ((x >> 24) & 0xff) as u8,
    ];
    assert(r@ =~= le_bytes(x));
    r
}

fn u32_from_le(b0: u8, b1: u8, b2: u8, b3: u8) -> (r: u32)
    ensures
        r == le_u32(b0, b1, b2, b3),
{
    (b0 as u32) | ((b1 as u32) << 8) | ((b2 as u32) << 16) | ((b3 as u32) << 24)
}

impl HeaderFlags {
    /// The counters fit their three bits and the limit does not exceed the start.
    pub open spec fn valid(self) -> bool {
        self.hop_limit <= self.hop_start && self.hop_start <= MAX_HOPS
    }

    /// The flag byte: bits 7..5 hop limit, bits 4..2 hop start, bit 1
    /// want-ack, bit 0 via-MQTT. Counters are reduced to three bits.
    pub open spec fn packed(self) -> u8 {
        ((self.hop_limit & 7) << 5) | ((self.hop_start & 7) << 2) | (if self.want_ack {
            2u8
        } else {
            0u8
        }) | (if self.via_mqtt {
            1u8
        } else {
            0u8
        })
    }

    /// The flags that a flag byte carries.
    pub open spec fn unpacked(b: u8) -> HeaderFlags {
        HeaderFlags {
            hop_limit: b >> 5,
            hop_start: (b >> 2) & 7,
            want_ack: (b >> 1) & 1 == 1,
            via_mqtt: b & 1 == 1,
        }
    }

    /// Packs the flags into their byte.
    pub fn to_byte(&self) -> (b: u8)
        ensures
            b == self.packed(),
    {
        let ack: u8 = if self.want_ack {
            2
        } else {
            0
        };
        let mqtt: u8 = if self.via_mqtt {
            1
        } else {
            0
        };
        ((self.hop_limit & 7) << 5) | ((self.hop_start & 7) << 2) | ack | mqtt
    }

    /// Reads the flags out of their byte. Every byte is a flag byte.
    pub fn from_byte(b: u8) -> (f: HeaderFlags)
        ensures
            f == HeaderFlags::unpacked(b),
            f.hop_limit <= MAX_HOPS,
            f.hop_start <= MAX_HOPS,
    {
        assert(b >> 5 <= 7 && (b >> 2) & 7 <= 7) by (bit_vector);
        HeaderFlags {
            hop_limit: b >> 5,
            hop_start: (b >> 2) & 7,
            want_ack: (b >> 1) & 1 == 1,
            via_mqtt: b & 1 == 1,
        }
    }

    /// Unpacking the packed form of flags whose counters fit three bits
    /// gives the flags back.
    pub proof fn lemma_unpack_packed(self)
        requires
            self.hop_limit <= MAX_HOPS,
            self.hop_start <= MAX_HOPS,
        ensures
            HeaderFlags::unpacked(self.packed()) == self,
    {
        let l = self.hop_limit;
        let s = self.hop_start;
        let a: u8 = if self.want_ack {
            2
        } else {
            0
        };
        let m: u8 = if self.via_mqtt {
            1
        } else {
            0
        };
        let b: u8 = ((l & 7) << 5) | ((s & 7) << 2) | a | m;
        assert(b >> 5 == l && (b >> 2) & 7 == s && (b >> 1) & 1 == a >> 1 && b & 1 == m)
            by (bit_vector)
            requires
                b == ((l & 7) << 5) | ((s & 7) << 2) | a | m,
                l <= 7,
                s <= 7,
                a == 2 || a == 0,
                m == 1 || m == 0,
        ;
        assert(2u8 >> 1 == 1 && 0u8 >> 1 == 0) by (bit_vector);
    }

    /// Packing the flags read from a byte gives the byte back.
    pub proof fn lemma_pack_unpacked(b: u8)
        ensures
            HeaderFlags::unpacked(b).packed() == b,
    {
        let a: u8 = if (b >> 1) & 1 == 1 {
            2
        } else {
            0
        };
        let m: u8 = if b & 1 == 1 {
            1
        } else {
            0
        };
        assert((((b >> 5) & 7) << 5) | ((((b >> 2) & 7) & 7) << 2) | a | m == b) by (bit_vector)
            requires
                a == (if (b >> 1) & 1 == 1 {
                    2u8
                } else {
                    0u8
                }),
                m == (if b & 1 == 1 {
                    1u8
                } else {
                    0u8
                }),
        ;
    }
}

impl Header {
    /// The header's flags are valid.
    pub open spec fn valid(self) -> bool {
        self.flags.valid()
    }

    /// The 16 bytes that stand for this header on the wire.
    pub open spec fn wire(self) -> Seq<u8> {
        le_bytes(self.destination) + le_bytes(self.source) + le_bytes(self.packet_id)
            + seq![self.flags.packed(), self.channel_hash, self.next_hop, self.relay_node]
    }

    /// The header that the first 16 bytes of `b` spell, whatever its flags.
    pub open spec fn read(b: Seq<u8>) -> Header
        recommends
            b.len() >= 16,
    {
        Header {
            destination: le_u32(b[0], b[1], b[2], b[3]),
            source: le_u32(b[4], b[5], b[6], b[7]),
            packet_id: le_u32(b[8], b[9], b[10], b[11]),
            flags: HeaderFlags::unpacked(b[12]),
            channel_hash: b[13],
            next_hop: b[14],
            relay_node: b[15],
        }
    }

    /// The result of parsing `b`: nothing if `b` is shorter than a header or
    /// its hop limit exceeds its hop start, else the header it spells.
    pub open spec fn parse(b: Seq<u8>) -> Option<Header> {
        if b.len() < 16 {
            None
        } else if Header::read(b).flags.hop_limit > Header::read(b).flags.hop_start {
            None
        } else {
            Some(Header::read(b))
        }
    }

    /// The 16-byte cipher nonce: packet id, then source, both little-endian,
    /// then eight zero bytes.
    pub open spec fn nonce(self) -> Seq<u8> {
        le_bytes(self.packet_id) + le_bytes(self.source) + seq![0u8, 0u8, 0u8, 0u8, 0u8, 0u8, 0u8, 0u8]
    }

    /// Serializes the header.
    pub fn to_bytes(&self) -> (out: [u8; 16])
        ensures
            out@ == self.wire(),
    {
        let d = u32_to_le(self.destination);
        let s = u32_to_le(self.source);
        let p = u32_to_le(self.packet_id);
        let out = [
            d[0],
            d[1],
            d[2],
            d[3],
            s[0],
            s[1],
            s[2],
            s[3],
            p[0],
            p[1],
            p[2],
            p[3],
            self.flags.to_byte(),
            self.channel_hash,
            self.next_hop,
            self.relay_node,
        ];
        assert(out@ =~= self.wire());
        out
    }

    /// Parses a header from the start of `bytes`.
    pub fn from_bytes(bytes: &[u8]) -> (r: Option<Header>)
        ensures
            r == Header::parse(bytes@),
            r is Some <==> bytes@.len() >= 16 && Header::read(bytes@).flags.hop_limit
                <= Header::read(bytes@).flags.hop_start,
            r is Some ==> r->0.valid(),
    {
        if bytes.len() < 16 {
            return None;
        }
        let flags = HeaderFlags::from_byte(bytes[12]);
        if flags.hop_limit > flags.hop_start {
            return None;
        }
        Some(
            Header {
                destination: u32_from_le(bytes[0], bytes[1], bytes[2], bytes[3]),
                source: u32_from_le(bytes[4], bytes[5], bytes[6], bytes[7]),
                packet_id: u32_from_le(bytes[8], bytes[9], bytes[10], bytes[11]),
                flags,
                channel_hash: bytes[13],
                next_hop: bytes[14],
                relay_node: bytes[15],
            },
        )
    }

    /// Derives the cipher nonce of the frame.
    pub fn create_iv(&self) -> (iv: [u8; 16])
        ensures
            iv@ == self.nonce(),
    {
        let p = u32_to_le(self.packet_id);
        let s = u32_to_le(self.source);
        let iv = [p[0], p[1], p[2], p[3], s[0], s[1], s[2], s[3], 0, 0, 0, 0, 0, 0, 0, 0];
        assert(iv@ =~= self.nonce());
        iv
    }

    /// The header with one hop used up: `hop_limit` is one less, or stays 0.
    pub fn with_hop_taken(&self) -> (h: Header)
        ensures
            h == (Header {
                flags: HeaderFlags {
                    hop_limit: if self.flags.hop_limit > 0 {
                        (self.flags.hop_limit - 1) as u8
                    } else {
                        0u8
                    },
                    ..self.flags
                },
                ..*self
            }),
            self.valid() ==> h.valid(),
    {
        let hop_limit: u8 = if self.flags.hop_limit > 0 {
            self.flags.hop_limit - 1
        } else {
            0
        };
        Header {
            destination: self.destination,
            source: self.source,
            packet_id: self.packet_id,
            flags: HeaderFlags {
                hop_limit,
                hop_start: self.flags.hop_start,
                want_ack: self.flags.want_ack,
                via_mqtt: self.flags.via_mqtt,
            },
            channel_hash: self.channel_hash,
            next_hop: self.next_hop,
            relay_node: self.relay_node,
        }
    }

    /// Parsing the wire form of a valid header gives the header back.
    pub proof fn lemma_parse_wire(self)
        requires
            self.valid(),
        ensures
            Header::parse(self.wire()) == Some(self),
    {
        let b = self.wire();
        assert(b.len() == 16);
        lemma_le_round_trip(self.destination);
        lemma_le_round_trip(self.source);
        lemma_le_round_trip(self.packet_id);
        self.flags.lemma_unpack_packed();
        assert(b[0] == le_byte(self.destination, 0));
        assert(b[3] == le_byte(self.destination, 3));
        assert(b[4] == le_byte(self.source, 0));
        assert(b[11] == le_byte(self.packet_id, 3));
        assert(b[12] == self.flags.packed());
        assert(Header::read(b) == self);
    }

    /// Serializing what 16 bytes parse to gives those bytes back.
    pub proof fn lemma_wire_parse(b: Seq<u8>)
        requires
            b.len() == 16,
            Header::parse(b) is Some,
        ensures
            Header::parse(b)->0.wire() == b,
    {
        let h = Header::read(b);
        lemma_le_bytes_of_le_u32(b[0], b[1], b[2], b[3]);
        lemma_le_bytes_of_le_u32(b[4], b[5], b[6], b[7]);
        lemma_le_bytes_of_le_u32(b[8], b[9], b[10], b[11]);
        HeaderFlags::lemma_pack_unpacked(b[12]);
        assert(h.wire() =~= b);
    }
}

} // verus!
