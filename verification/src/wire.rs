//! The protocol-buffers wire format: varints, keys and fields.
//!
//! A message is a run of fields. A field starts with a key, a varint that
//! holds the field number times eight plus the wire type. What follows depends
//! on the wire type: a varint, four bytes, eight bytes, or a varint length and
//! that many bytes.

use crate::header::{le_byte, le_bytes, le_u32, lemma_le_round_trip};
use vstd::prelude::*;

verus! {

/// Wire type of a varint.
pub const WIRE_VARINT: u8 = 0;

/// Wire type of eight fixed bytes.
pub const WIRE_FIXED64: u8 = 1;

/// Wire type of a length and that many bytes.
pub const WIRE_BYTES: u8 = 2;

/// Wire type of four fixed bytes.
pub const WIRE_FIXED32: u8 = 5;

/// Most bytes that a varint may take.
pub const MAX_VARINT_LEN: usize = 10;

/// Largest field number.
pub const MAX_FIELD_NUMBER: u32 = 0x1FFF_FFFF;

/// What a field carries.
pub enum WireValue {
    /// A varint.
    Varint(u64),
    /// Eight bytes, as they stand on the wire.
    Fixed64(Seq<u8>),
    /// A run of bytes.
    Bytes(Seq<u8>),
    /// A little-endian 32-bit number.
    Fixed32(u32),
}

/// A field: its number and what it carries.
pub struct Field {
    pub number: u32,
    pub value: WireValue,
}

/// 128 to the power `n`.
pub open spec fn pow128(n: nat) -> int
    decreases n,
{
    if n == 0 {
        1
    } else {
        128 * pow128((n - 1) as nat)
    }
}

/// The varint that starts at `pos` and takes at most `left` bytes: its
/// value and the position after it. Every byte gives seven bits, the least
/// significant first; a byte of 128 or more says that another byte follows.
pub open spec fn varint_at(b: Seq<u8>, pos: int, left: nat) -> Option<(int, int)>
    decreases left,
{
    if left == 0 || pos < 0 || pos >= b.len() {
        None
    } else if b[pos] < 128 {
        Some((b[pos] as int, pos + 1))
    } else {
        match varint_at(b, pos + 1, (left - 1) as nat) {
            Some((v, next)) => Some((b[pos] - 128 + 128 * v, next)),
            None => None,
        }
    }
}

/// The 64-bit varint at `pos`: at most ten bytes, and a value that fits.
pub open spec fn u64_at(b: Seq<u8>, pos: int) -> Option<(u64, int)> {
    match varint_at(b, pos, 10) {
        Some((v, next)) => if 0 <= v <= u64::MAX {
            Some((v as u64, next))
        } else {
            None
        },
        None => None,
    }
}

/// The bytes of the varint with value `v`.
pub open spec fn varint_bytes(v: int) -> Seq<u8>
    decreases v,
{
    if v < 128 {
        seq![v as u8]
    } else {
        seq![(v % 128 + 128) as u8] + varint_bytes(v / 128)
    }
}

/// The key of a field.
pub open spec fn key_of(number: u32, wire_type: u8) -> int {
    number * 8 + wire_type
}

/// The low 32 bits of a varint.
pub open spec fn low32(v: u64) -> u32 {
    (v % 0x1_0000_0000) as u32
}

/// The field that starts at `pos`, and the position after it. There is none
/// if the key or the value is cut short or malformed, if the field number is
/// 0 or above the largest one, or if the wire type is none of the four.
pub open spec fn field_at(b: Seq<u8>, pos: int) -> Option<(Field, int)> {
    match u64_at(b, pos) {
        None => None,
        Some((key, at)) => {
            let number = key / 8;
            let wire_type = key % 8;
            if number == 0 || number > MAX_FIELD_NUMBER {
                None
            } else if wire_type == WIRE_VARINT {
                match u64_at(b, at) {
                    Some((v, next)) => Some(
                        (Field { number: number as u32, value: WireValue::Varint(v) }, next),
                    ),
                    None => None,
                }
            } else if wire_type == WIRE_FIXED64 {
                if at + 8 <= b.len() {
                    Some(
                        (
                            Field {
                                number: number as u32,
                                value: WireValue::Fixed64(b.subrange(at, at + 8)),
                            },
                            at + 8,
                        ),
                    )
                } else {
                    None
                }
            } else if wire_type == WIRE_BYTES {
                match u64_at(b, at) {
                    Some((len, start)) => if start + len <= b.len() {
                        Some(
                            (
                                Field {
                                    number: number as u32,
                                    value: WireValue::Bytes(b.subrange(start, start + len)),
                                },
                                start + len,
                            ),
                        )
                    } else {
                        None
                    },
                    None => None,
                }
            } else if wire_type == WIRE_FIXED32 {
                if at + 4 <= b.len() {
                    Some(
                        (
                            Field {
                                number: number as u32,
                                value: WireValue::Fixed32(
                                    le_u32(b[at], b[at + 1], b[at + 2], b[at + 3]),
                                ),
                            },
                            at + 4,
                        ),
                    )
                } else {
                    None
                }
            } else {
                None
            }
        },
    }
}

/// The bytes of a field that carries a varint.
pub open spec fn varint_field(number: u32, v: u64) -> Seq<u8> {
    varint_bytes(key_of(number, WIRE_VARINT)) + varint_bytes(v as int)
}

/// The bytes of a field that carries a little-endian 32-bit number.
pub open spec fn fixed32_field(number: u32, x: u32) -> Seq<u8> {
    varint_bytes(key_of(number, WIRE_FIXED32)) + le_bytes(x)
}

/// The bytes of a field that carries a run of bytes.
pub open spec fn bytes_field(number: u32, s: Seq<u8>) -> Seq<u8> {
    varint_bytes(key_of(number, WIRE_BYTES)) + varint_bytes(s.len() as int) + s
}

/// A varint ends after its start, within the bytes, and its value is not
/// negative and below 128 to the power of its length.
pub proof fn lemma_varint_at_bounds(b: Seq<u8>, pos: int, left: nat)
    requires
        varint_at(b, pos, left) is Some,
    ensures
        varint_at(b, pos, left) matches Some(r) && pos < r.1 <= b.len() && r.1 <= pos + left && 0
            <= r.0 < pow128((r.1 - pos) as nat),
    decreases left,
{
    reveal_with_fuel(pow128, 2);
    if b[pos] >= 128 {
        lemma_varint_at_bounds(b, pos + 1, (left - 1) as nat);
        let r = varint_at(b, pos + 1, (left - 1) as nat).unwrap();
        let n = (r.1 - pos - 1) as nat;
        assert(pow128(n + 1) == 128 * pow128(n));
        assert(b[pos] - 128 + 128 * r.0 < 128 * pow128(n)) by (nonlinear_arith)
            requires
                0 <= r.0 < pow128(n),
                128 <= b[pos] < 256,
        ;
    }
}

/// The bytes of a varint are at least one, and at most `n` for a value
/// below 128 to the power `n`.
pub proof fn lemma_varint_len(v: int, n: nat)
    requires
        0 <= v < pow128(n),
    ensures
        1 <= varint_bytes(v).len() <= (if n == 0 {
            1
        } else {
            n
        }),
    decreases n,
{
    reveal_with_fuel(pow128, 2);
    if v >= 128 {
        if n <= 1 {
            assert(pow128(n) <= 128);
        } else {
            assert(v / 128 < pow128((n - 1) as nat)) by (nonlinear_arith)
                requires
                    0 <= v < 128 * pow128((n - 1) as nat),
            ;
            lemma_varint_len(v / 128, (n - 1) as nat);
        }
    }
}

/// 128 to the power 10 is above every 64-bit number.
pub proof fn lemma_pow128_10()
    ensures
        pow128(9) == 0x8000_0000_0000_0000,
        pow128(10) > u64::MAX,
{
    reveal_with_fuel(pow128, 11);
}

/// A 64-bit value takes at most ten bytes as a varint.
pub proof fn lemma_varint_len_u64(v: u64)
    ensures
        1 <= varint_bytes(v as int).len() <= 10,
{
    lemma_pow128_10();
    lemma_varint_len(v as int, 10);
}

/// Reading where the bytes of a varint stand gives its value back: in any
/// bytes that hold `varint_bytes(v)` from `pos` on, the varint at `pos` is `v`
/// and ends where those bytes end.
pub proof fn lemma_varint_round_trip(b: Seq<u8>, pos: int, v: int, left: nat)
    requires
        0 <= v,
        0 <= pos,
        pos + varint_bytes(v).len() <= b.len(),
        b.subrange(pos, pos + varint_bytes(v).len()) == varint_bytes(v),
        left >= varint_bytes(v).len(),
    ensures
        varint_at(b, pos, left) == Some((v, pos + varint_bytes(v).len())),
    decreases v,
{
    let enc = varint_bytes(v);
    assert(b[pos] == b.subrange(pos, pos + enc.len())[0]);
    if v >= 128 {
        let rest = varint_bytes(v / 128);
        assert(enc.len() == 1 + rest.len());
        assert(b.subrange(pos + 1, pos + 1 + rest.len()) =~= rest) by {
            assert forall|i: int| 0 <= i < rest.len() implies b.subrange(
                pos + 1,
                pos + 1 + rest.len(),
            )[i] == rest[i] by {
                assert(b[pos + 1 + i] == b.subrange(pos, pos + enc.len())[1 + i]);
                assert(enc[1 + i] == rest[i]);
            }
        }
        lemma_varint_round_trip(b, pos + 1, v / 128, (left - 1) as nat);
        assert(enc[0] == (v % 128 + 128) as u8);
        assert(v % 128 + 128 * (v / 128) == v) by (nonlinear_arith)
            requires
                0 <= v,
        ;
    }
}

/// Reads back a 64-bit varint that stands at `pos`.
pub proof fn lemma_u64_round_trip(b: Seq<u8>, pos: int, v: u64)
    requires
        0 <= pos,
        pos + varint_bytes(v as int).len() <= b.len(),
        b.subrange(pos, pos + varint_bytes(v as int).len()) == varint_bytes(v as int),
    ensures
        u64_at(b, pos) == Some((v, pos + varint_bytes(v as int).len())),
{
    lemma_varint_len_u64(v);
    lemma_varint_round_trip(b, pos, v as int, 10);
}

/// A part of a part of a sequence is a part of the sequence.
pub proof fn lemma_subrange_of_subrange(b: Seq<u8>, from: int, to: int, a: int, z: int)
    requires
        0 <= from <= to <= b.len(),
        0 <= a <= z <= to - from,
    ensures
        b.subrange(from, to).subrange(a, z) == b.subrange(from + a, from + z),
{
    assert(b.subrange(from, to).subrange(a, z) =~= b.subrange(from + a, from + z));
}

/// Reads back a field with a varint that stands at `pos`.
pub proof fn lemma_varint_field_round_trip(b: Seq<u8>, pos: int, number: u32, v: u64)
    requires
        1 <= number <= MAX_FIELD_NUMBER,
        0 <= pos,
        pos + varint_field(number, v).len() <= b.len(),
        b.subrange(pos, pos + varint_field(number, v).len()) == varint_field(number, v),
    ensures
        field_at(b, pos) == Some(
            (Field { number, value: WireValue::Varint(v) }, pos + varint_field(number, v).len()),
        ),
{
    let key = key_of(number, WIRE_VARINT);
    let kb = varint_bytes(key);
    let vb = varint_bytes(v as int);
    let whole = varint_field(number, v);
    lemma_subrange_of_subrange(b, pos, pos + whole.len(), 0, kb.len() as int);
    lemma_subrange_of_subrange(b, pos, pos + whole.len(), kb.len() as int, whole.len() as int);
    assert(whole.subrange(0, kb.len() as int) =~= kb);
    assert(whole.subrange(kb.len() as int, whole.len() as int) =~= vb);
    lemma_u64_round_trip(b, pos, key as u64);
    lemma_u64_round_trip(b, pos + kb.len(), v);
}

/// Reads back a field with a 32-bit number that stands at `pos`.
pub proof fn lemma_fixed32_field_round_trip(b: Seq<u8>, pos: int, number: u32, x: u32)
    requires
        1 <= number <= MAX_FIELD_NUMBER,
        0 <= pos,
        pos + fixed32_field(number, x).len() <= b.len(),
        b.subrange(pos, pos + fixed32_field(number, x).len()) == fixed32_field(number, x),
    ensures
        field_at(b, pos) == Some(
            (Field { number, value: WireValue::Fixed32(x) }, pos + fixed32_field(number, x).len()),
        ),
{
    let key = key_of(number, WIRE_FIXED32);
    let kb = varint_bytes(key);
    let whole = fixed32_field(number, x);
    lemma_subrange_of_subrange(b, pos, pos + whole.len(), 0, kb.len() as int);
    assert(whole.subrange(0, kb.len() as int) =~= kb);
    lemma_u64_round_trip(b, pos, key as u64);
    let k = kb.len() as int;
    let at = pos + k;
    assert(b[at] == b.subrange(pos, pos + whole.len())[k]);
    assert(b[at + 1] == b.subrange(pos, pos + whole.len())[k + 1]);
    assert(b[at + 2] == b.subrange(pos, pos + whole.len())[k + 2]);
    assert(b[at + 3] == b.subrange(pos, pos + whole.len())[k + 3]);
    assert(whole[k] == le_byte(x, 0));
    assert(whole[k + 1] == le_byte(x, 1));
    assert(whole[k + 2] == le_byte(x, 2));
    assert(whole[k + 3] == le_byte(x, 3));
    lemma_le_round_trip(x);
}

/// Reads back a field with a run of bytes that stands at `pos`.
pub proof fn lemma_bytes_field_round_trip(b: Seq<u8>, pos: int, number: u32, s: Seq<u8>)
    requires
        1 <= number <= MAX_FIELD_NUMBER,
        s.len() <= u64::MAX,
        0 <= pos,
        pos + bytes_field(number, s).len() <= b.len(),
        b.subrange(pos, pos + bytes_field(number, s).len()) == bytes_field(number, s),
    ensures
        field_at(b, pos) == Some(
            (Field { number, value: WireValue::Bytes(s) }, pos + bytes_field(number, s).len()),
        ),
{
    let key = key_of(number, WIRE_BYTES);
    let kb = varint_bytes(key);
    let lb = varint_bytes(s.len() as int);
    let whole = bytes_field(number, s);
    lemma_subrange_of_subrange(b, pos, pos + whole.len(), 0, kb.len() as int);
    lemma_subrange_of_subrange(
        b,
        pos,
        pos + whole.len(),
        kb.len() as int,
        (kb.len() + lb.len()) as int,
    );
    lemma_subrange_of_subrange(
        b,
        pos,
        pos + whole.len(),
        (kb.len() + lb.len()) as int,
        whole.len() as int,
    );
    assert(whole.subrange(0, kb.len() as int) =~= kb);
    assert(whole.subrange(kb.len() as int, (kb.len() + lb.len()) as int) =~= lb);
    assert(whole.subrange((kb.len() + lb.len()) as int, whole.len() as int) =~= s);
    lemma_u64_round_trip(b, pos, key as u64);
    lemma_u64_round_trip(b, pos + kb.len(), s.len() as u64);
}

/// A field ends after its start and within the bytes.
pub proof fn lemma_field_at_bounds(b: Seq<u8>, pos: int)
    requires
        field_at(b, pos) is Some,
    ensures
        field_at(b, pos) matches Some(r) && pos < r.1 <= b.len() && 1 <= r.0.number
            <= MAX_FIELD_NUMBER,
{
    lemma_varint_at_bounds(b, pos, 10);
    let at = u64_at(b, pos).unwrap().1;
    let key = u64_at(b, pos).unwrap().0;
    if key % 8 == 0 || key % 8 == 2 {
        lemma_varint_at_bounds(b, at, 10);
    }
}

/// What `read_field` found: the number, the value, and where the field ends.
/// A run of bytes is given by the positions of its first byte and of the
/// byte after its last.
#[derive(Clone, Copy, Debug, PartialEq, Eq, Structural)]
pub enum FoundValue {
    Varint(u64),
    Fixed64 { start: usize },
    Bytes { start: usize, end: usize },
    Fixed32(u32),
}

/// A field as `read_field` found it.
#[derive(Clone, Copy, Debug, PartialEq, Eq, Structural)]
pub struct FoundField {
    pub number: u32,
    pub value: FoundValue,
    pub next: usize,
}

impl FoundField {
    /// The field that was found in `b`.
    pub open spec fn field(self, b: Seq<u8>) -> Field {
        Field {
            number: self.number,
            value: match self.value {
                FoundValue::Varint(v) => WireValue::Varint(v),
                FoundValue::Fixed64 { start } => WireValue::Fixed64(
                    b.subrange(start as int, start + 8),
                ),
                FoundValue::Bytes { start, end } => WireValue::Bytes(
                    b.subrange(start as int, end as int),
                ),
                FoundValue::Fixed32(x) => WireValue::Fixed32(x),
            },
        }
    }

    /// The positions that were found lie within `b`.
    pub open spec fn within(self, b: Seq<u8>) -> bool {
        &&& self.next <= b.len()
        &&& match self.value {
            FoundValue::Fixed64 { start } => start + 8 <= b.len(),
            FoundValue::Bytes { start, end } => start <= end <= b.len(),
            _ => true,
        }
    }
}

/// Reads the 64-bit varint at `pos`.
pub fn read_varint(b: &[u8], pos: usize) -> (r: Option<(u64, usize)>)
    ensures
        r is Some <==> u64_at(b@, pos as int) is Some,
        r matches Some(found) ==> u64_at(b@, pos as int) == Some((found.0, found.1 as int))
            && pos < found.1 <= b@.len(),
{
    let mut acc: u64 = 0;
    let mut mult: u64 = 1;
    let mut i: usize = 0;
    proof {
        lemma_pow128_10();
        reveal_with_fuel(pow128, 2);
    }
    loop
        invariant
            i <= 9,
            pos + i <= usize::MAX,
            mult == pow128(i as nat),
            acc < mult,
            mult <= 0x8000_0000_0000_0000,
            pow128(9) == 0x8000_0000_0000_0000,
            varint_at(b@, pos as int, 10) == (match varint_at(b@, pos + i, (10 - i) as nat) {
                Some((v, next)) => Some((acc + mult * v, next)),
                None => None,
            }),
        decreases 10 - i,
    {
        if pos + i >= b.len() {
            return None;
        }
        let byte = b[pos + i];
        if byte < 128 {
            assert(varint_at(b@, pos + i, (10 - i) as nat) == Some((byte as int, pos + i + 1)));
            if i == 9 && byte > 1 {
                assert(acc + mult * byte > u64::MAX) by (nonlinear_arith)
                    requires
                        mult == 0x8000_0000_0000_0000,
                        byte >= 2,
                        acc >= 0,
                ;
                return None;
            }
            assert(acc + mult * byte <= u64::MAX) by {
                if i == 9 {
                    assert(mult * byte <= mult) by (nonlinear_arith)
                        requires
                            0 <= byte <= 1,
                            mult >= 0,
                    ;
                } else {
                    assert(pow128((i + 1) as nat) == 128 * mult);
                    assert(mult * byte <= mult * 127) by (nonlinear_arith)
                        requires
                            0 <= byte <= 127,
                            mult >= 0,
                    ;
                    lemma_pow128_monotone((i + 1) as nat, 9);
                }
            }
            assert(mult * byte <= u64::MAX);
            return Some((acc + mult * (byte as u64), pos + i + 1));
        }
        if i == 9 {
            assert(varint_at(b@, pos + i + 1, 0) is None);
            return None;
        }
        proof {
            let low = byte - 128;
            assert(pow128((i + 1) as nat) == 128 * mult);
            lemma_pow128_monotone((i + 1) as nat, 9);
            assert(mult * low <= mult * 127) by (nonlinear_arith)
                requires
                    0 <= low <= 127,
                    mult >= 0,
            ;
            match varint_at(b@, pos + i + 1, (9 - i) as nat) {
                Some((v, next)) => {
                    assert(acc + mult * (low + 128 * v) == (acc + mult * low) + (mult * 128) * v)
                        by (nonlinear_arith);
                },
                None => {},
            }
        }
        acc = acc + mult * ((byte - 128) as u64);
        mult = mult * 128;
        i = i + 1;
    }
}

/// A larger power of 128 is not smaller.
pub proof fn lemma_pow128_monotone(a: nat, b: nat)
    requires
        a <= b,
    ensures
        1 <= pow128(a) <= pow128(b),
    decreases b,
{
    reveal_with_fuel(pow128, 2);
    if a < b {
        lemma_pow128_monotone(a, (b - 1) as nat);
    } else if a > 0 {
        lemma_pow128_monotone((a - 1) as nat, (a - 1) as nat);
    }
}

/// Reads the field at `pos`.
pub fn read_field(b: &[u8], pos: usize) -> (r: Option<FoundField>)
    ensures
        r is Some <==> field_at(b@, pos as int) is Some,
        r matches Some(found) ==> field_at(b@, pos as int) == Some(
            (found.field(b@), found.next as int),
        ) && found.within(b@) && pos < found.next && 1 <= found.number <= MAX_FIELD_NUMBER,
{
    let (key, at) = match read_varint(b, pos) {
        Some(found) => found,
        None => {
            return None;
        },
    };
    let number = key / 8;
    let wire_type = key % 8;
    if number == 0 || number > MAX_FIELD_NUMBER as u64 {
        return None;
    }
    let number = number as u32;
    if wire_type == 0 {
        match read_varint(b, at) {
            Some((v, next)) => Some(FoundField { number, value: FoundValue::Varint(v), next }),
            None => None,
        }
    } else if wire_type == 1 {
        if b.len() - at >= 8 {
            Some(FoundField { number, value: FoundValue::Fixed64 { start: at }, next: at + 8 })
        } else {
            None
        }
    } else if wire_type == 2 {
        match read_varint(b, at) {
            Some((len, start)) => {
                if len <= (b.len() - start) as u64 {
                    let end = start + len as usize;
                    Some(FoundField { number, value: FoundValue::Bytes { start, end }, next: end })
                } else {
                    None
                }
            },
            None => None,
        }
    } else if wire_type == 5 {
        if b.len() - at >= 4 {
            let x = (b[at] as u32) | ((b[at + 1] as u32) << 8) | ((b[at + 2] as u32) << 16) | ((b[at
                + 3] as u32) << 24);
            Some(FoundField { number, value: FoundValue::Fixed32(x), next: at + 4 })
        } else {
            None
        }
    } else {
        None
    }
}

/// Copies the bytes from `start` up to `end`.
pub fn copy_range(b: &[u8], start: usize, end: usize) -> (out: Vec<u8>)
    requires
        start <= end <= b@.len(),
    ensures
        out@ == b@.subrange(start as int, end as int),
{
    let mut out: Vec<u8> = Vec::new();
    let mut i: usize = start;
    while i < end
        invariant
            start <= i <= end <= b@.len(),
            out@ == b@.subrange(start as int, i as int),
        decreases end - i,
    {
        out.push(b[i]);
        i = i + 1;
        assert(out@ =~= b@.subrange(start as int, i as int));
    }
    out
}

/// Appends the varint of `v`.
pub fn put_varint(out: &mut Vec<u8>, v: u64)
    ensures
        final(out)@ == old(out)@ + varint_bytes(v as int),
{
    let mut rest: u64 = v;
    let ghost before = out@;
    assert(before + varint_bytes(v as int) =~= out@ + varint_bytes(rest as int));
    while rest >= 128
        invariant
            before + varint_bytes(v as int) == out@ + varint_bytes(rest as int),
        decreases rest,
    {
        let ghost prev = out@;
        out.push((rest % 128 + 128) as u8);
        assert(prev + varint_bytes(rest as int) =~= out@ + varint_bytes((rest / 128) as int));
        rest = rest / 128;
    }
    let ghost prev = out@;
    out.push(rest as u8);
    assert(prev + varint_bytes(rest as int) =~= out@);
}

/// Appends the key of a field.
pub fn put_key(out: &mut Vec<u8>, number: u32, wire_type: u8)
    requires
        number <= MAX_FIELD_NUMBER,
        wire_type < 8,
    ensures
        final(out)@ == old(out)@ + varint_bytes(key_of(number, wire_type)),
{
    put_varint(out, (number as u64) * 8 + wire_type as u64);
}

/// Appends a field that carries a varint.
pub fn put_varint_field(out: &mut Vec<u8>, number: u32, v: u64)
    requires
        number <= MAX_FIELD_NUMBER,
    ensures
        final(out)@ == old(out)@ + varint_field(number, v),
{
    let ghost before = out@;
    put_key(out, number, WIRE_VARINT);
    put_varint(out, v);
    assert(out@ =~= before + varint_field(number, v));
}

/// Appends a field that carries a little-endian 32-bit number.
pub fn put_fixed32_field(out: &mut Vec<u8>, number: u32, x: u32)
    requires
        number <= MAX_FIELD_NUMBER,
    ensures
        final(out)@ == old(out)@ + fixed32_field(number, x),
{
    let ghost before = out@;
    put_key(out, number, WIRE_FIXED32);
    out.push((x & 0xff) as u8);
    out.push(((x >> 8) & 0xff) as u8);
    out.push(((x >> 16) & 0xff) as u8);
    out.push(((x >> 24) & 0xff) as u8);
    assert(out@ =~= before + fixed32_field(number, x));
}

/// Appends a field that carries a run of bytes.
pub fn put_bytes_field(out: &mut Vec<u8>, number: u32, s: &[u8])
    requires
        number <= MAX_FIELD_NUMBER,
    ensures
        final(out)@ == old(out)@ + bytes_field(number, s@),
{
    let ghost before = out@;
    put_key(out, number, WIRE_BYTES);
    put_varint(out, s.len() as u64);
    let ghost head = out@;
    let mut i: usize = 0;
    while i < s.len()
        invariant
            i <= s@.len(),
            out@ == head + s@.subrange(0, i as int),
        decreases s.len() - i,
    {
        out.push(s[i]);
        i = i + 1;
        assert(out@ =~= head + s@.subrange(0, i as int));
    }
    assert(s@.subrange(0, s@.len() as int) =~= s@);
    assert(out@ =~= before + bytes_field(number, s@));
}

} // verus!
