//! The payloads that tell about a node: user, position and device metrics.
//!
//! Each is decoded from the fields of its message, in the order in which they
//! stand. A later field of the same number replaces an earlier one, a field
//! with a wire type that is not its own spoils the message, and fields that
//! are not known are passed over.

use crate::wire::{copy_range, field_at, low32, read_field, Field, FoundField, FoundValue, WireValue};
use vstd::prelude::*;

verus! {

/// The fields that stand in `b` from `pos` to the end, if the bytes are
/// well-formed fields throughout.
pub open spec fn fields_from(b: Seq<u8>, pos: int) -> Option<Seq<Field>>
    decreases b.len() - pos,
{
    if pos >= b.len() {
        Some(Seq::empty())
    } else {
        match field_at(b, pos) {
            None => None,
            Some((f, next)) => if next <= pos || next > b.len() {
                None
            } else {
                match fields_from(b, next) {
                    None => None,
                    Some(rest) => Some(seq![f] + rest),
                }
            },
        }
    }
}

/// The fields of the message that the bytes `b` spell.
pub open spec fn fields_of(b: Seq<u8>) -> Option<Seq<Field>> {
    fields_from(b, 0)
}

/// The fields that `found` stands for in `b`.
pub open spec fn found_fields(found: Seq<FoundField>, b: Seq<u8>) -> Seq<Field> {
    Seq::new(found.len(), |i: int| found[i].field(b))
}

/// Splits a message into its fields.
pub fn scan_fields(b: &[u8]) -> (r: Option<Vec<FoundField>>)
    ensures
        r is Some <==> fields_of(b@) is Some,
        r matches Some(found) ==> fields_of(b@) == Some(found_fields(found@, b@)) && forall|
            i: int,
        | 0 <= i < found@.len() ==> (#[trigger] found@[i]).within(b@),
{
    let mut found: Vec<FoundField> = Vec::new();
    let mut pos: usize = 0;
    assert(found_fields(found@, b@) =~= Seq::empty());
    while pos < b.len()
        invariant
            pos <= b@.len(),
            forall|i: int| 0 <= i < found@.len() ==> (#[trigger] found@[i]).within(b@),
            fields_of(b@) == (match fields_from(b@, pos as int) {
                Some(rest) => Some(found_fields(found@, b@) + rest),
                None => None,
            }),
        decreases b.len() - pos,
    {
        let f = match read_field(b, pos) {
            Some(f) => f,
            None => {
                return None;
            },
        };
        let ghost before = found@;
        found.push(f);
        proof {
            match fields_from(b@, f.next as int) {
                Some(rest) => {
                    assert(found_fields(before, b@) + (seq![f.field(b@)] + rest) =~= found_fields(
                        found@,
                        b@,
                    ) + rest);
                },
                None => {},
            }
        }
        pos = f.next;
    }
    assert(found_fields(found@, b@) + Seq::<Field>::empty() =~= found_fields(found@, b@));
    Some(found)
}

/// A 32-bit pattern read as a signed number in two's complement.
pub open spec fn signed32(x: u32) -> i32 {
    if x <= 0x7FFF_FFFF {
        x as i32
    } else {
        (x - 0x1_0000_0000) as i32
    }
}

/// Reads a 32-bit pattern as a signed number.
pub fn to_signed32(x: u32) -> (r: i32)
    ensures
        r == signed32(x),
{
    if x <= 0x7FFF_FFFF {
        x as i32
    } else {
        (x as i64 - 0x1_0000_0000) as i32
    }
}

/// Who runs a node.
#[derive(Clone, Debug)]
pub struct User {
    /// The node's full name, as UTF-8 bytes.
    pub long_name: Vec<u8>,
    /// The node's short name, as UTF-8 bytes.
    pub short_name: Vec<u8>,
    /// Number of the hardware model.
    pub hw_model: u32,
    /// Number of the node's role in the mesh.
    pub role: u32,
    /// The operator holds a radio license.
    pub is_licensed: bool,
}

/// What a `User` holds, as a mathematical value.
pub struct UserView {
    pub long_name: Seq<u8>,
    pub short_name: Seq<u8>,
    pub hw_model: u32,
    pub role: u32,
    pub is_licensed: bool,
}

impl View for User {
    type V = UserView;

    open spec fn view(&self) -> UserView {
        UserView {
            long_name: self.long_name@,
            short_name: self.short_name@,
            hw_model: self.hw_model,
            role: self.role,
            is_licensed: self.is_licensed,
        }
    }
}

impl UserView {
    /// The user with every field at its default.
    pub open spec fn empty() -> UserView {
        UserView {
            long_name: Seq::empty(),
            short_name: Seq::empty(),
            hw_model: 0,
            role: 0,
            is_licensed: false,
        }
    }

    /// The user after one more field: 2 is the long name, 3 the short
    /// name, 5 the hardware model, 6 the license flag, 7 the role.
    pub open spec fn with_field(self, f: Field) -> Option<UserView> {
        if f.number == 2 {
            match f.value {
                WireValue::Bytes(s) => Some(UserView { long_name: s, ..self }),
                _ => None,
            }
        } else if f.number == 3 {
            match f.value {
                WireValue::Bytes(s) => Some(UserView { short_name: s, ..self }),
                _ => None,
            }
        } else if f.number == 5 {
            match f.value {
                WireValue::Varint(v) => Some(UserView { hw_model: low32(v), ..self }),
                _ => None,
            }
        } else if f.number == 6 {
            match f.value {
                WireValue::Varint(v) => Some(UserView { is_licensed: v != 0, ..self }),
                _ => None,
            }
        } else if f.number == 7 {
            match f.value {
                WireValue::Varint(v) => Some(UserView { role: low32(v), ..self }),
                _ => None,
            }
        } else {
            Some(self)
        }
    }

    /// The user after the first `n` of the fields.
    pub open spec fn after(self, fields: Seq<Field>, n: nat) -> Option<UserView>
        decreases n,
    {
        if n == 0 {
            Some(self)
        } else {
            match self.after(fields, (n - 1) as nat) {
                Some(acc) => acc.with_field(fields[n - 1]),
                None => None,
            }
        }
    }

    /// The user that the bytes `b` spell, if they spell one.
    pub open spec fn decode(b: Seq<u8>) -> Option<UserView> {
        match fields_of(b) {
            Some(fields) => UserView::empty().after(fields, fields.len()),
            None => None,
        }
    }
}

impl User {
    /// Decodes a user from the bytes of its message.
    pub fn decode(b: &[u8]) -> (r: Option<User>)
        ensures
            r is Some <==> UserView::decode(b@) is Some,
            r matches Some(u) ==> UserView::decode(b@) == Some(u@),
    {
        let found = match scan_fields(b) {
            Some(found) => found,
            None => {
                return None;
            },
        };
        let ghost fields = found_fields(found@, b@);
        let mut acc = User {
            long_name: Vec::new(),
            short_name: Vec::new(),
            hw_model: 0,
            role: 0,
            is_licensed: false,
        };
        assert(acc@ =~= UserView::empty());
        let mut i: usize = 0;
        while i < found.len()
            invariant
                i <= found@.len(),
                fields == found_fields(found@, b@),
                fields_of(b@) == Some(fields),
                forall|k: int| 0 <= k < found@.len() ==> (#[trigger] found@[k]).within(b@),
                UserView::empty().after(fields, i as nat) == Some(acc@),
            decreases found.len() - i,
        {
            let f = found[i];
            assert(fields[i as int] == f.field(b@));
            assert(f.within(b@));
            let number = f.number;
            if number == 2 {
                match f.value {
                    FoundValue::Bytes { start, end } => {
                        acc.long_name = copy_range(b, start, end);
                    },
                    _ => {
                        proof {
                            lemma_user_spoiled(fields, (i + 1) as nat, found@.len() as nat);
                        }
                        return None;
                    },
                }
            } else if number == 3 {
                match f.value {
                    FoundValue::Bytes { start, end } => {
                        acc.short_name = copy_range(b, start, end);
                    },
                    _ => {
                        proof {
                            lemma_user_spoiled(fields, (i + 1) as nat, found@.len() as nat);
                        }
                        return None;
                    },
                }
            } else if number == 5 {
                match f.value {
                    FoundValue::Varint(v) => {
                        acc.hw_model = (v % 0x1_0000_0000) as u32;
                    },
                    _ => {
                        proof {
                            lemma_user_spoiled(fields, (i + 1) as nat, found@.len() as nat);
                        }
                        return None;
                    },
                }
            } else if number == 6 {
                match f.value {
                    FoundValue::Varint(v) => {
                        acc.is_licensed = v != 0;
                    },
                    _ => {
                        proof {
                            lemma_user_spoiled(fields, (i + 1) as nat, found@.len() as nat);
                        }
                        return None;
                    },
                }
            } else if number == 7 {
                match f.value {
                    FoundValue::Varint(v) => {
                        acc.role = (v % 0x1_0000_0000) as u32;
                    },
                    _ => {
                        proof {
                            lemma_user_spoiled(fields, (i + 1) as nat, found@.len() as nat);
                        }
                        return None;
                    },
                }
            }
            i = i + 1;
        }
        Some(acc)
    }

    /// A copy with the same contents.
    pub fn duplicate(&self) -> (u: User)
        ensures
            u@ == self@,
    {
        let long_name = self.long_name.clone();
        let short_name = self.short_name.clone();
        assert(long_name@ =~= self.long_name@);
        assert(short_name@ =~= self.short_name@);
        User {
            long_name,
            short_name,
            hw_model: self.hw_model,
            role: self.role,
            is_licensed: self.is_licensed,
        }
    }
}

/// Once a field has spoiled a user, later fields do not mend it.
pub proof fn lemma_user_spoiled(fields: Seq<Field>, n: nat, m: nat)
    requires
        n <= m,
        UserView::empty().after(fields, n) is None,
    ensures
        UserView::empty().after(fields, m) is None,
    decreases m,
{
    if n < m {
        lemma_user_spoiled(fields, n, (m - 1) as nat);
    }
}

/// Where a node is.
#[derive(Clone, Copy, Debug, PartialEq, Eq, Structural)]
pub struct Position {
    /// Latitude in units of 1e-7 degrees.
    pub latitude_i: i32,
    /// Longitude in units of 1e-7 degrees.
    pub longitude_i: i32,
    /// Altitude in meters above mean sea level.
    pub altitude: i32,
    /// Time of the fix, in seconds since 1970.
    pub time: u32,
    /// Number of the source of the location.
    pub location_source: u32,
}

impl Position {
    /// The position with every field at its default.
    pub open spec fn empty() -> Position {
        Position { latitude_i: 0, longitude_i: 0, altitude: 0, time: 0, location_source: 0 }
    }

    /// The position after one more field: 1 is the latitude, 2 the
    /// longitude, 3 the altitude, 4 the time, 5 the location source.
    pub open spec fn with_field(self, f: Field) -> Option<Position> {
        if f.number == 1 {
            match f.value {
                WireValue::Fixed32(x) => Some(Position { latitude_i: signed32(x), ..self }),
                _ => None,
            }
        } else if f.number == 2 {
            match f.value {
                WireValue::Fixed32(x) => Some(Position { longitude_i: signed32(x), ..self }),
                _ => None,
            }
        } else if f.number == 3 {
            match f.value {
                WireValue::Varint(v) => Some(Position { altitude: signed32(low32(v)), ..self }),
                _ => None,
            }
        } else if f.number == 4 {
            match f.value {
                WireValue::Fixed32(x) => Some(Position { time: x, ..self }),
                _ => None,
            }
        } else if f.number == 5 {
            match f.value {
                WireValue::Varint(v) => Some(Position { location_source: low32(v), ..self }),
                _ => None,
            }
        } else {
            Some(self)
        }
    }

    /// The position after the first `n` of the fields.
    pub open spec fn after(self, fields: Seq<Field>, n: nat) -> Option<Position>
        decreases n,
    {
        if n == 0 {
            Some(self)
        } else {
            match self.after(fields, (n - 1) as nat) {
                Some(acc) => acc.with_field(fields[n - 1]),
                None => None,
            }
        }
    }

    /// The position that the bytes `b` spell, if they spell one.
    pub open spec fn decoded(b: Seq<u8>) -> Option<Position> {
        match fields_of(b) {
            Some(fields) => Position::empty().after(fields, fields.len()),
            None => None,
        }
    }

    /// Decodes a position from the bytes of its message.
    pub fn decode(b: &[u8]) -> (r: Option<Position>)
        ensures
            r == Position::decoded(b@),
    {
        let found = match scan_fields(b) {
            Some(found) => found,
            None => {
                return None;
            },
        };
        let ghost fields = found_fields(found@, b@);
        let mut acc = Position {
            latitude_i: 0,
            longitude_i: 0,
            altitude: 0,
            time: 0,
            location_source: 0,
        };
        let mut i: usize = 0;
        while i < found.len()
            invariant
                i <= found@.len(),
                fields == found_fields(found@, b@),
                fields_of(b@) == Some(fields),
                Position::empty().after(fields, i as nat) == Some(acc),
            decreases found.len() - i,
        {
            let f = found[i];
            assert(fields[i as int] == f.field(b@));
            let number = f.number;
            let mut spoiled = false;
            if number == 1 {
                match f.value {
                    FoundValue::Fixed32(x) => {
                        acc.latitude_i = to_signed32(x);
                    },
                    _ => {
                        spoiled = true;
                    },
                }
            } else if number == 2 {
                match f.value {
                    FoundValue::Fixed32(x) => {
                        acc.longitude_i = to_signed32(x);
                    },
                    _ => {
                        spoiled = true;
                    },
                }
            } else if number == 3 {
                match f.value {
                    FoundValue::Varint(v) => {
                        acc.altitude = to_signed32((v % 0x1_0000_0000) as u32);
                    },
                    _ => {
                        spoiled = true;
                    },
                }
            } else if number == 4 {
                match f.value {
                    FoundValue::Fixed32(x) => {
                        acc.time = x;
                    },
                    _ => {
                        spoiled = true;
                    },
                }
            } else if number == 5 {
                match f.value {
                    FoundValue::Varint(v) => {
                        acc.location_source = (v % 0x1_0000_0000) as u32;
                    },
                    _ => {
                        spoiled = true;
                    },
                }
            }
            if spoiled {
                proof {
                    lemma_position_spoiled(fields, (i + 1) as nat, found@.len() as nat);
                }
                return None;
            }
            i = i + 1;
        }
        Some(acc)
    }
}

/// Once a field has spoiled a position, later fields do not mend it.
pub proof fn lemma_position_spoiled(fields: Seq<Field>, n: nat, m: nat)
    requires
        n <= m,
        Position::empty().after(fields, n) is None,
    ensures
        Position::empty().after(fields, m) is None,
    decreases m,
{
    if n < m {
        lemma_position_spoiled(fields, n, (m - 1) as nat);
    }
}

/// How a node's device fares. The three measured quantities are kept as
/// the bit patterns of their 32-bit floating-point values.
#[derive(Clone, Copy, Debug, PartialEq, Eq, Structural)]
pub struct DeviceMetrics {
    /// Battery level in percent; above 100 means powered.
    pub battery_level: u32,
    /// Voltage in volts, as bits.
    pub voltage_bits: u32,
    /// Channel utilization in percent, as bits.
    pub channel_utilization_bits: u32,
    /// Share of airtime used for transmission in percent, as bits.
    pub air_util_tx_bits: u32,
    /// Seconds since the device started.
    pub uptime_seconds: u32,
}

impl DeviceMetrics {
    /// The metrics with every field at its default.
    pub open spec fn empty() -> DeviceMetrics {
        DeviceMetrics {
            battery_level: 0,
            voltage_bits: 0,
            channel_utilization_bits: 0,
            air_util_tx_bits: 0,
            uptime_seconds: 0,
        }
    }

    /// The metrics after one more field: 1 is the battery level, 2 the
    /// voltage, 3 the channel utilization, 4 the transmit share, 5 the
    /// uptime.
    pub open spec fn with_field(self, f: Field) -> Option<DeviceMetrics> {
        if f.number == 1 {
            match f.value {
                WireValue::Varint(v) => Some(DeviceMetrics { battery_level: low32(v), ..self }),
                _ => None,
            }
        } else if f.number == 2 {
            match f.value {
                WireValue::Fixed32(x) => Some(DeviceMetrics { voltage_bits: x, ..self }),
                _ => None,
            }
        } else if f.number == 3 {
            match f.value {
                WireValue::Fixed32(x) => Some(
                    DeviceMetrics { channel_utilization_bits: x, ..self },
                ),
                _ => None,
            }
        } else if f.number == 4 {
            match f.value {
                WireValue::Fixed32(x) => Some(DeviceMetrics { air_util_tx_bits: x, ..self }),
                _ => None,
            }
        } else if f.number == 5 {
            match f.value {
                WireValue::Varint(v) => Some(DeviceMetrics { uptime_seconds: low32(v), ..self }),
                _ => None,
            }
        } else {
            Some(self)
        }
    }

    /// The metrics after the first `n` of the fields.
    pub open spec fn after(self, fields: Seq<Field>, n: nat) -> Option<DeviceMetrics>
        decreases n,
    {
        if n == 0 {
            Some(self)
        } else {
            match self.after(fields, (n - 1) as nat) {
                Some(acc) => acc.with_field(fields[n - 1]),
                None => None,
            }
        }
    }

    /// The metrics that the bytes `b` spell, if they spell them.
    pub open spec fn decoded(b: Seq<u8>) -> Option<DeviceMetrics> {
        match fields_of(b) {
            Some(fields) => DeviceMetrics::empty().after(fields, fields.len()),
            None => None,
        }
    }

    /// Decodes device metrics from the bytes of their message.
    pub fn decode(b: &[u8]) -> (r: Option<DeviceMetrics>)
        ensures
            r == DeviceMetrics::decoded(b@),
    {
        let found = match scan_fields(b) {
            Some(found) => found,
            None => {
                return None;
            },
        };
        let ghost fields = found_fields(found@, b@);
        let mut acc = DeviceMetrics {
            battery_level: 0,
            voltage_bits: 0,
            channel_utilization_bits: 0,
            air_util_tx_bits: 0,
            uptime_seconds: 0,
        };
        let mut i: usize = 0;
        while i < found.len()
            invariant
                i <= found@.len(),
                fields == found_fields(found@, b@),
                fields_of(b@) == Some(fields),
                DeviceMetrics::empty().after(fields, i as nat) == Some(acc),
            decreases found.len() - i,
        {
            let f = found[i];
            assert(fields[i as int] == f.field(b@));
            let number = f.number;
            let mut spoiled = false;
            if number == 1 {
                match f.value {
                    FoundValue::Varint(v) => {
                        acc.battery_level = (v % 0x1_0000_0000) as u32;
                    },
                    _ => {
                        spoiled = true;
                    },
                }
            } else if number == 2 {
                match f.value {
                    FoundValue::Fixed32(x) => {
                        acc.voltage_bits = x;
                    },
                    _ => {
                        spoiled = true;
                    },
                }
            } else if number == 3 {
                match f.value {
                    FoundValue::Fixed32(x) => {
                        acc.channel_utilization_bits = x;
                    },
                    _ => {
                        spoiled = true;
                    },
                }
            } else if number == 4 {
                match f.value {
                    FoundValue::Fixed32(x) => {
                        acc.air_util_tx_bits = x;
                    },
                    _ => {
                        spoiled = true;
                    },
                }
            } else if number == 5 {
                match f.value {
                    FoundValue::Varint(v) => {
                        acc.uptime_seconds = (v % 0x1_0000_0000) as u32;
                    },
                    _ => {
                        spoiled = true;
                    },
                }
            }
            if spoiled {
                proof {
                    lemma_metrics_spoiled(fields, (i + 1) as nat, found@.len() as nat);
                }
                return None;
            }
            i = i + 1;
        }
        Some(acc)
    }
}

/// Once a field has spoiled device metrics, later fields do not mend them.
pub proof fn lemma_metrics_spoiled(fields: Seq<Field>, n: nat, m: nat)
    requires
        n <= m,
        DeviceMetrics::empty().after(fields, n) is None,
    ensures
        DeviceMetrics::empty().after(fields, m) is None,
    decreases m,
{
    if n < m {
        lemma_metrics_spoiled(fields, n, (m - 1) as nat);
    }
}

/// The device metrics after the first `n` fields of a telemetry message:
/// field 2 holds them as a message of its own; the last such field
/// counts; one that does not decode spoils the telemetry.
pub open spec fn telemetry_after(fields: Seq<Field>, n: nat) -> Option<Option<DeviceMetrics>>
    decreases n,
{
    if n == 0 {
        Some(None)
    } else {
        match telemetry_after(fields, (n - 1) as nat) {
            None => None,
            Some(acc) => if fields[n - 1].number == 2 {
                match fields[n - 1].value {
                    WireValue::Bytes(s) => match DeviceMetrics::decoded(s) {
                        Some(m) => Some(Some(m)),
                        None => None,
                    },
                    _ => None,
                }
            } else {
                Some(acc)
            },
        }
    }
}

/// The device metrics that the telemetry message `b` carries: nothing if the
/// message is malformed, `Some(None)` if it carries none.
pub open spec fn telemetry_metrics(b: Seq<u8>) -> Option<Option<DeviceMetrics>> {
    match fields_of(b) {
        Some(fields) => telemetry_after(fields, fields.len()),
        None => None,
    }
}

/// Once a field has spoiled a telemetry message, later fields do not mend it.
pub proof fn lemma_telemetry_spoiled(fields: Seq<Field>, n: nat, m: nat)
    requires
        n <= m,
        telemetry_after(fields, n) is None,
    ensures
        telemetry_after(fields, m) is None,
    decreases m,
{
    if n < m {
        lemma_telemetry_spoiled(fields, n, (m - 1) as nat);
    }
}

/// Decodes the device metrics out of a telemetry message.
pub fn decode_telemetry(b: &[u8]) -> (r: Option<Option<DeviceMetrics>>)
    ensures
        r == telemetry_metrics(b@),
{
    let found = match scan_fields(b) {
        Some(found) => found,
        None => {
            return None;
        },
    };
    let ghost fields = found_fields(found@, b@);
    let mut acc: Option<DeviceMetrics> = None;
    let mut i: usize = 0;
    while i < found.len()
        invariant
            i <= found@.len(),
            fields == found_fields(found@, b@),
            fields_of(b@) == Some(fields),
            forall|k: int| 0 <= k < found@.len() ==> (#[trigger] found@[k]).within(b@),
            telemetry_after(fields, i as nat) == Some(acc),
        decreases found.len() - i,
    {
        let f = found[i];
        assert(fields[i as int] == f.field(b@));
        assert(f.within(b@));
        if f.number == 2 {
            let inner = match f.value {
                FoundValue::Bytes { start, end } => {
                    let sub = copy_range(b, start, end);
                    DeviceMetrics::decode(sub.as_slice())
                },
                _ => None,
            };
            match inner {
                Some(m) => {
                    acc = Some(m);
                },
                None => {
                    proof {
                        lemma_telemetry_spoiled(fields, (i + 1) as nat, found@.len() as nat);
                    }
                    return None;
                },
            }
        }
        i = i + 1;
    }
    Some(acc)
}

} // verus!
