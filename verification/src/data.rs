//! The application-layer message that a frame carries once it is decrypted.

use crate::wire::{
    bytes_field,
    copy_range,
    field_at,
    fixed32_field,
    lemma_bytes_field_round_trip,
    lemma_fixed32_field_round_trip,
    lemma_varint_field_round_trip,
    low32,
    put_bytes_field,
    put_fixed32_field,
    put_varint_field,
    read_field,
    varint_field,
    Field,
    FoundValue,
    WireValue,
};
use vstd::prelude::*;

verus! {

/// Port number of text messages.
pub const PORT_TEXT_MESSAGE: u32 = 1;

/// Port number of position reports.
pub const PORT_POSITION: u32 = 3;

/// Port number of node-info announcements.
pub const PORT_NODEINFO: u32 = 4;

/// Port number of routing control messages.
pub const PORT_ROUTING: u32 = 5;

/// Port number of telemetry reports.
pub const PORT_TELEMETRY: u32 = 67;

/// Port number of traceroute messages.
pub const PORT_TRACEROUTE: u32 = 70;

/// Port number of neighbor-info reports.
pub const PORT_NEIGHBORINFO: u32 = 71;

/// The application protocols that this node tells apart.
#[derive(Clone, Copy, Debug, PartialEq, Eq, Structural)]
pub enum PortNum {
    TextMessage,
    Position,
    NodeInfo,
    Routing,
    Telemetry,
    Traceroute,
    NeighborInfo,
    /// Any port number without a name here.
    Other,
}

impl PortNum {
    /// The protocol that a port number stands for.
    pub open spec fn of(n: u32) -> PortNum {
        if n == PORT_TEXT_MESSAGE {
            PortNum::TextMessage
        } else if n == PORT_POSITION {
            PortNum::Position
        } else if n == PORT_NODEINFO {
            PortNum::NodeInfo
        } else if n == PORT_ROUTING {
            PortNum::Routing
        } else if n == PORT_TELEMETRY {
            PortNum::Telemetry
        } else if n == PORT_TRACEROUTE {
            PortNum::Traceroute
        } else if n == PORT_NEIGHBORINFO {
            PortNum::NeighborInfo
        } else {
            PortNum::Other
        }
    }

    /// Classifies a port number.
    pub fn from_u32(n: u32) -> (p: PortNum)
        ensures
            p == PortNum::of(n),
    {
        if n == PORT_TEXT_MESSAGE {
            PortNum::TextMessage
        } else if n == PORT_POSITION {
            PortNum::Position
        } else if n == PORT_NODEINFO {
            PortNum::NodeInfo
        } else if n == PORT_ROUTING {
            PortNum::Routing
        } else if n == PORT_TELEMETRY {
            PortNum::Telemetry
        } else if n == PORT_TRACEROUTE {
            PortNum::Traceroute
        } else if n == PORT_NEIGHBORINFO {
            PortNum::NeighborInfo
        } else {
            PortNum::Other
        }
    }
}

/// The structured payload of a frame.
#[derive(Clone, Debug)]
pub struct Data {
    /// Port number: which application protocol `payload` belongs to.
    pub portnum: u32,
    /// The application's bytes.
    pub payload: Vec<u8>,
    /// The sender asks the application for a reply.
    pub want_response: bool,
    /// Final addressee on multi-hop replies, 0 if unused.
    pub dest: u32,
    /// First sender on multi-hop replies, 0 if unused.
    pub source: u32,
    /// Id of the request that this message answers, 0 if none.
    pub request_id: u32,
    /// Id of the message that this one replies to, 0 if none.
    pub reply_id: u32,
    /// Non-zero if the payload is an emoji reaction.
    pub emoji: u32,
    /// Capability bits, if the sender set any.
    pub bitfield: Option<u32>,
}

/// What a `Data` holds, as a mathematical value.
pub struct DataView {
    pub portnum: u32,
    pub payload: Seq<u8>,
    pub want_response: bool,
    pub dest: u32,
    pub source: u32,
    pub request_id: u32,
    pub reply_id: u32,
    pub emoji: u32,
    pub bitfield: Option<u32>,
}

impl View for Data {
    type V = DataView;

    open spec fn view(&self) -> DataView {
        DataView {
            portnum: self.portnum,
            payload: self.payload@,
            want_response: self.want_response,
            dest: self.dest,
            source: self.source,
            request_id: self.request_id,
            reply_id: self.reply_id,
            emoji: self.emoji,
            bitfield: self.bitfield,
        }
    }
}

/// The bytes of an optional field with a 32-bit number: none for 0.
pub open spec fn fixed32_unless_zero(number: u32, x: u32) -> Seq<u8> {
    if x != 0 {
        fixed32_field(number, x)
    } else {
        Seq::empty()
    }
}

impl DataView {
    /// The application protocol of the message.
    pub open spec fn port(self) -> PortNum {
        PortNum::of(self.portnum)
    }

    /// The message with every field at its default.
    pub open spec fn empty() -> DataView {
        DataView {
            portnum: 0,
            payload: Seq::empty(),
            want_response: false,
            dest: 0,
            source: 0,
            request_id: 0,
            reply_id: 0,
            emoji: 0,
            bitfield: None,
        }
    }

    /// The message after one more field was read. Fields 1 to 9 set the
    /// port, payload, want-response flag, destination, source, request id,
    /// reply id, emoji and capability bits; one of them with a wire type
    /// that is not its own spoils the message; any other field is passed
    /// over.
    pub open spec fn with_field(self, f: Field) -> Option<DataView> {
        if f.number == 1 {
            match f.value {
                WireValue::Varint(v) => Some(DataView { portnum: low32(v), ..self }),
                _ => None,
            }
        } else if f.number == 2 {
            match f.value {
                WireValue::Bytes(s) => Some(DataView { payload: s, ..self }),
                _ => None,
            }
        } else if f.number == 3 {
            match f.value {
                WireValue::Varint(v) => Some(DataView { want_response: v != 0, ..self }),
                _ => None,
            }
        } else if f.number == 4 {
            match f.value {
                WireValue::Fixed32(x) => Some(DataView { dest: x, ..self }),
                _ => None,
            }
        } else if f.number == 5 {
            match f.value {
                WireValue::Fixed32(x) => Some(DataView { source: x, ..self }),
                _ => None,
            }
        } else if f.number == 6 {
            match f.value {
                WireValue::Fixed32(x) => Some(DataView { request_id: x, ..self }),
                _ => None,
            }
        } else if f.number == 7 {
            match f.value {
                WireValue::Fixed32(x) => Some(DataView { reply_id: x, ..self }),
                _ => None,
            }
        } else if f.number == 8 {
            match f.value {
                WireValue::Fixed32(x) => Some(DataView { emoji: x, ..self }),
                _ => None,
            }
        } else if f.number == 9 {
            match f.value {
                WireValue::Varint(v) => Some(DataView { bitfield: Some(low32(v)), ..self }),
                _ => None,
            }
        } else {
            Some(self)
        }
    }

    /// The message after the fields from `pos` to the end of `b` were read,
    /// one after the other; nothing if one of them is malformed or spoils the
    /// message.
    #[verifier::opaque]
    pub open spec fn fold(self, b: Seq<u8>, pos: int) -> Option<DataView>
        decreases b.len() - pos,
    {
        if pos >= b.len() {
            Some(self)
        } else {
            match field_at(b, pos) {
                None => None,
                Some((f, next)) => if next <= pos || next > b.len() {
                    None
                } else {
                    match self.with_field(f) {
                        None => None,
                        Some(then) => then.fold(b, next),
                    }
                },
            }
        }
    }

    /// The message that the bytes `b` spell, if they spell one.
    pub open spec fn decode(b: Seq<u8>) -> Option<DataView> {
        DataView::empty().fold(b, 0)
    }

    /// The bytes of the message up to and including the want-response flag.
    pub open spec fn encode_head(self) -> Seq<u8> {
        (if self.portnum != 0 {
            varint_field(1, self.portnum as u64)
        } else {
            Seq::empty()
        }) + (if self.payload.len() > 0 {
            bytes_field(2, self.payload)
        } else {
            Seq::empty()
        }) + (if self.want_response {
            varint_field(3, 1)
        } else {
            Seq::empty()
        })
    }

    /// The bytes that spell the message: its fields in the order of their
    /// numbers, without those that are at their default.
    pub open spec fn encode(self) -> Seq<u8> {
        self.encode_head() + fixed32_unless_zero(4, self.dest) + fixed32_unless_zero(
            5,
            self.source,
        ) + fixed32_unless_zero(6, self.request_id) + fixed32_unless_zero(7, self.reply_id)
            + fixed32_unless_zero(8, self.emoji) + (match self.bitfield {
            Some(bits) => varint_field(9, bits as u64),
            None => Seq::empty(),
        })
    }

    /// Reading one field that stands at `pos` moves the fold past it.
    pub proof fn lemma_fold_step(self, b: Seq<u8>, pos: int, f: Field, next: int)
        requires
            0 <= pos < next <= b.len(),
            field_at(b, pos) == Some((f, next)),
            self.with_field(f) is Some,
        ensures
            self.fold(b, pos) == self.with_field(f)->0.fold(b, next),
    {
        reveal(DataView::fold);
    }

    /// At the end of the bytes the fold gives the message as it stands.
    pub proof fn lemma_fold_end(self, b: Seq<u8>, pos: int)
        requires
            pos >= b.len(),
        ensures
            self.fold(b, pos) == Some(self),
    {
        reveal(DataView::fold);
    }

    /// In bytes that hold a varint field after `pre`, the fold reads it.
    pub proof fn lemma_fold_varint(
        self,
        b: Seq<u8>,
        pre: Seq<u8>,
        post: Seq<u8>,
        number: u32,
        v: u64,
    )
        requires
            1 <= number <= 9,
            b == pre + varint_field(number, v) + post,
            self.with_field(Field { number, value: WireValue::Varint(v) }) is Some,
        ensures
            self.fold(b, pre.len() as int) == self.with_field(
                Field { number, value: WireValue::Varint(v) },
            )->0.fold(b, (pre.len() + varint_field(number, v).len()) as int),
    {
        let pos = pre.len() as int;
        assert(b.subrange(pos, pos + varint_field(number, v).len()) =~= varint_field(number, v));
        lemma_varint_field_round_trip(b, pos, number, v);
        crate::wire::lemma_field_at_bounds(b, pos);
        self.lemma_fold_step(
            b,
            pos,
            Field { number, value: WireValue::Varint(v) },
            pos + varint_field(number, v).len(),
        );
    }

    /// In bytes that hold a 32-bit field after `pre`, unless the number is
    /// 0, the fold reads it.
    pub proof fn lemma_fold_fixed32(
        self,
        b: Seq<u8>,
        pre: Seq<u8>,
        post: Seq<u8>,
        number: u32,
        x: u32,
    )
        requires
            1 <= number <= 9,
            b == pre + fixed32_unless_zero(number, x) + post,
            self.with_field(Field { number, value: WireValue::Fixed32(x) }) is Some,
        ensures
            self.fold(b, pre.len() as int) == (if x != 0 {
                self.with_field(Field { number, value: WireValue::Fixed32(x) })->0
            } else {
                self
            }).fold(b, (pre.len() + fixed32_unless_zero(number, x).len()) as int),
    {
        let pos = pre.len() as int;
        if x != 0 {
            assert(b.subrange(pos, pos + fixed32_field(number, x).len()) =~= fixed32_field(
                number,
                x,
            ));
            lemma_fixed32_field_round_trip(b, pos, number, x);
            crate::wire::lemma_field_at_bounds(b, pos);
            self.lemma_fold_step(
                b,
                pos,
                Field { number, value: WireValue::Fixed32(x) },
                pos + fixed32_field(number, x).len(),
            );
        }
    }

    /// In bytes that hold a field of bytes after `pre`, the fold reads it.
    pub proof fn lemma_fold_bytes(
        self,
        b: Seq<u8>,
        pre: Seq<u8>,
        post: Seq<u8>,
        number: u32,
        s: Seq<u8>,
    )
        requires
            1 <= number <= 9,
            s.len() <= u64::MAX,
            b == pre + bytes_field(number, s) + post,
            self.with_field(Field { number, value: WireValue::Bytes(s) }) is Some,
        ensures
            self.fold(b, pre.len() as int) == self.with_field(
                Field { number, value: WireValue::Bytes(s) },
            )->0.fold(b, (pre.len() + bytes_field(number, s).len()) as int),
    {
        let pos = pre.len() as int;
        assert(b.subrange(pos, pos + bytes_field(number, s).len()) =~= bytes_field(number, s));
        lemma_bytes_field_round_trip(b, pos, number, s);
        crate::wire::lemma_field_at_bounds(b, pos);
        self.lemma_fold_step(
            b,
            pos,
            Field { number, value: WireValue::Bytes(s) },
            pos + bytes_field(number, s).len(),
        );
    }

    /// Decoding the bytes of the first three fields gives those fields.
    proof fn lemma_decode_head(self, b: Seq<u8>, post: Seq<u8>)
        requires
            self.payload.len() <= u64::MAX,
            b == self.encode_head() + post,
        ensures
            DataView::empty().fold(b, 0) == (DataView {
                portnum: self.portnum,
                payload: self.payload,
                want_response: self.want_response,
                ..DataView::empty()
            }).fold(b, self.encode_head().len() as int),
    {
        let a0 = DataView::empty();
        let part1 = if self.portnum != 0 {
            varint_field(1, self.portnum as u64)
        } else {
            Seq::empty()
        };
        let part2 = if self.payload.len() > 0 {
            bytes_field(2, self.payload)
        } else {
            Seq::empty()
        };
        let part3 = if self.want_response {
            varint_field(3, 1)
        } else {
            Seq::empty()
        };
        let a1 = DataView { portnum: self.portnum, ..a0 };
        assert(a0.fold(b, 0) == a1.fold(b, part1.len() as int)) by {
            if self.portnum != 0 {
                assert(low32(self.portnum as u64) == self.portnum);
                assert(b =~= Seq::<u8>::empty() + part1 + (part2 + part3 + post));
                a0.lemma_fold_varint(b, Seq::empty(), part2 + part3 + post, 1, self.portnum as u64);
            }
        }
        let a2 = DataView { payload: self.payload, ..a1 };
        assert(a1.fold(b, part1.len() as int) == a2.fold(b, (part1.len() + part2.len()) as int)) by {
            if self.payload.len() > 0 {
                assert(b =~= part1 + part2 + (part3 + post));
                a1.lemma_fold_bytes(b, part1, part3 + post, 2, self.payload);
            } else {
                assert(a1.payload =~= self.payload);
            }
        }
        let a3 = DataView { want_response: self.want_response, ..a2 };
        assert(a2.fold(b, (part1.len() + part2.len()) as int) == a3.fold(
            b,
            (part1.len() + part2.len() + part3.len()) as int,
        )) by {
            if self.want_response {
                assert(b =~= (part1 + part2) + part3 + post);
                a2.lemma_fold_varint(b, part1 + part2, post, 3, 1);
            }
        }
    }

    /// Decoding the encoding of a message gives the message back.
    pub proof fn lemma_decode_encode(self)
        requires
            self.payload.len() <= u64::MAX,
        ensures
            DataView::decode(self.encode()) == Some(self),
    {
        let b = self.encode();
        let e3 = self.encode_head();
        let part4 = fixed32_unless_zero(4, self.dest);
        let part5 = fixed32_unless_zero(5, self.source);
        let part6 = fixed32_unless_zero(6, self.request_id);
        let part7 = fixed32_unless_zero(7, self.reply_id);
        let part8 = fixed32_unless_zero(8, self.emoji);
        let part9 = match self.bitfield {
            Some(bits) => varint_field(9, bits as u64),
            None => Seq::empty(),
        };
        let e4 = e3 + part4;
        let e5 = e4 + part5;
        let e6 = e5 + part6;
        let e7 = e6 + part7;
        let e8 = e7 + part8;
        assert(b == e8 + part9);
        let s9 = part9;
        let s8 = part8 + s9;
        let s7 = part7 + s8;
        let s6 = part6 + s7;
        let s5 = part5 + s6;
        let s4 = part4 + s5;
        assert(b == e7 + part8 + s9);
        assert(b == e6 + part7 + s8) by {
            assert((e6 + part7) + part8 + s9 =~= e6 + part7 + (part8 + s9));
        }
        assert(b == e5 + part6 + s7) by {
            assert((e5 + part6) + part7 + s8 =~= e5 + part6 + (part7 + s8));
        }
        assert(b == e4 + part5 + s6) by {
            assert((e4 + part5) + part6 + s7 =~= e4 + part5 + (part6 + s7));
        }
        assert(b == e3 + part4 + s5) by {
            assert((e3 + part4) + part5 + s6 =~= e3 + part4 + (part5 + s6));
        }
        assert(b == e3 + s4) by {
            assert(e3 + part4 + s5 =~= e3 + (part4 + s5));
        }
        let a3 = DataView {
            portnum: self.portnum,
            payload: self.payload,
            want_response: self.want_response,
            ..DataView::empty()
        };
        self.lemma_decode_head(b, s4);
        let a4 = DataView { dest: self.dest, ..a3 };
        a3.lemma_fold_fixed32(b, e3, s5, 4, self.dest);
        let a5 = DataView { source: self.source, ..a4 };
        a4.lemma_fold_fixed32(b, e4, s6, 5, self.source);
        let a6 = DataView { request_id: self.request_id, ..a5 };
        a5.lemma_fold_fixed32(b, e5, s7, 6, self.request_id);
        let a7 = DataView { reply_id: self.reply_id, ..a6 };
        a6.lemma_fold_fixed32(b, e6, s8, 7, self.reply_id);
        let a8 = DataView { emoji: self.emoji, ..a7 };
        a7.lemma_fold_fixed32(b, e7, s9, 8, self.emoji);
        let a9 = DataView { bitfield: self.bitfield, ..a8 };
        assert(a8.fold(b, e8.len() as int) == a9.fold(b, b.len() as int)) by {
            match self.bitfield {
                Some(bits) => {
                    assert(low32(bits as u64) == bits);
                    assert(b =~= e8 + part9 + Seq::<u8>::empty());
                    a8.lemma_fold_varint(b, e8, Seq::empty(), 9, bits as u64);
                },
                None => {},
            }
        }
        a9.lemma_fold_end(b, b.len() as int);
        assert(a9 == self);
    }
}

impl Data {
    /// A message on port `portnum` with the given payload and every other
    /// field at its default.
    pub fn new(portnum: u32, payload: Vec<u8>) -> (d: Data)
        ensures
            d@ == (DataView {
                portnum,
                payload: payload@,
                want_response: false,
                dest: 0,
                source: 0,
                request_id: 0,
                reply_id: 0,
                emoji: 0,
                bitfield: None,
            }),
    {
        Data {
            portnum,
            payload,
            want_response: false,
            dest: 0,
            source: 0,
            request_id: 0,
            reply_id: 0,
            emoji: 0,
            bitfield: None,
        }
    }

    /// Decodes a message from its bytes.
    pub fn decode(bytes: &[u8]) -> (r: Option<Data>)
        ensures
            r is Some <==> DataView::decode(bytes@) is Some,
            r matches Some(d) ==> DataView::decode(bytes@) == Some(d@),
    {
        let mut acc = Data::new(0, Vec::new());
        let mut pos: usize = 0;
        assert(acc@ =~= DataView::empty());
        while pos < bytes.len()
            invariant
                pos <= bytes@.len(),
                DataView::decode(bytes@) == acc@.fold(bytes@, pos as int),
            decreases bytes.len() - pos,
        {
            proof {
                reveal(DataView::fold);
            }
            let found = match read_field(bytes, pos) {
                Some(found) => found,
                None => {
                    return None;
                },
            };
            let number = found.number;
            if number == 1 {
                match found.value {
                    FoundValue::Varint(v) => {
                        acc.portnum = (v % 0x1_0000_0000) as u32;
                    },
                    _ => {
                        return None;
                    },
                }
            } else if number == 2 {
                match found.value {
                    FoundValue::Bytes { start, end } => {
                        acc.payload = copy_range(bytes, start, end);
                    },
                    _ => {
                        return None;
                    },
                }
            } else if number == 3 {
                match found.value {
                    FoundValue::Varint(v) => {
                        acc.want_response = v != 0;
                    },
                    _ => {
                        return None;
                    },
                }
            } else if number == 4 {
                match found.value {
                    FoundValue::Fixed32(x) => {
                        acc.dest = x;
                    },
                    _ => {
                        return None;
                    },
                }
            } else if number == 5 {
                match found.value {
                    FoundValue::Fixed32(x) => {
                        acc.source = x;
                    },
                    _ => {
                        return None;
                    },
                }
            } else if number == 6 {
                match found.value {
                    FoundValue::Fixed32(x) => {
                        acc.request_id = x;
                    },
                    _ => {
                        return None;
                    },
                }
            } else if number == 7 {
                match found.value {
                    FoundValue::Fixed32(x) => {
                        acc.reply_id = x;
                    },
                    _ => {
                        return None;
                    },
                }
            } else if number == 8 {
                match found.value {
                    FoundValue::Fixed32(x) => {
                        acc.emoji = x;
                    },
                    _ => {
                        return None;
                    },
                }
            } else if number == 9 {
                match found.value {
                    FoundValue::Varint(v) => {
                        acc.bitfield = Some((v % 0x1_0000_0000) as u32);
                    },
                    _ => {
                        return None;
                    },
                }
            }
            pos = found.next;
        }
        proof {
            acc@.lemma_fold_end(bytes@, pos as int);
        }
        Some(acc)
    }

    /// Encodes the message.
    pub fn encode(&self) -> (out: Vec<u8>)
        ensures
            out@ == self@.encode(),
    {
        let mut out: Vec<u8> = Vec::new();
        if self.portnum != 0 {
            put_varint_field(&mut out, 1, self.portnum as u64);
        }
        if self.payload.len() > 0 {
            put_bytes_field(&mut out, 2, self.payload.as_slice());
        }
        if self.want_response {
            put_varint_field(&mut out, 3, 1);
        }
        assert(out@ =~= self@.encode_head());
        let ghost head = out@;
        if self.dest != 0 {
            put_fixed32_field(&mut out, 4, self.dest);
        }
        if self.source != 0 {
            put_fixed32_field(&mut out, 5, self.source);
        }
        if self.request_id != 0 {
            put_fixed32_field(&mut out, 6, self.request_id);
        }
        if self.reply_id != 0 {
            put_fixed32_field(&mut out, 7, self.reply_id);
        }
        if self.emoji != 0 {
            put_fixed32_field(&mut out, 8, self.emoji);
        }
        match self.bitfield {
            Some(bits) => {
                put_varint_field(&mut out, 9, bits as u64);
            },
            None => {},
        }
        assert(out@ =~= self@.encode());
        out
    }

    /// The application protocol of the message.
    pub fn port_num(&self) -> (p: PortNum)
        ensures
            p == self@.port(),
    {
        PortNum::from_u32(self.portnum)
    }

    /// A copy with the same contents.
    pub fn duplicate(&self) -> (d: Data)
        ensures
            d@ == self@,
    {
        let payload = self.payload.clone();
        assert(payload@ =~= self.payload@);
        Data {
            portnum: self.portnum,
            payload,
            want_response: self.want_response,
            dest: self.dest,
            source: self.source,
            request_id: self.request_id,
            reply_id: self.reply_id,
            emoji: self.emoji,
            bitfield: self.bitfield,
        }
    }
}

} // verus!
