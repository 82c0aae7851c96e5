//! The message router between robots: length-prefixed byte arrays, and the
//! Lua tables that the robots exchange in them.
use vstd::prelude::*;
use vstd::utf8::{decode_utf8, valid_utf8};
use crate::wire::{be32, be32_bytes, copy_range, drop_prefix, read_be32};
use crate::text::utf8_to_string;

verus! {

/// Splits a byte stream into arrays, each preceded by its length as a
/// big-endian `u32`; `len` holds the length of an array whose header has
/// been read but whose bytes have not all arrived.
#[derive(Debug, Default)]
pub struct ByteArrayCodec {
    pub len: Option<usize>,
}

impl ByteArrayCodec {
    /// Takes the next complete array out of `buf`, if there is one.
    pub fn decode(&mut self, buf: &mut Vec<u8>) -> (res: Option<Vec<u8>>)
        ensures
            match old(self).len {
                Some(n) => if old(buf)@.len() >= n {
                    res matches Some(a) && a@ == old(buf)@.take(n as int)
                        && final(buf)@ == old(buf)@.skip(n as int) && final(self).len is None
                } else {
                    res is None && final(buf)@ == old(buf)@ && final(self).len == Some(n)
                },
                None => if old(buf)@.len() < 4 {
                    res is None && final(buf)@ == old(buf)@ && final(self).len is None
                } else {
                    let s = old(buf)@;
                    let n = be32(s[0], s[1], s[2], s[3]) as usize;
                    let rest = s.skip(4);
                    if rest.len() >= n {
                        res matches Some(a) && a@ == rest.take(n as int)
                            && final(buf)@ == rest.skip(n as int) && final(self).len is None
                    } else {
                        res is None && final(buf)@ == rest && final(self).len == Some(n)
                    }
                },
            },
    {
        if self.len.is_none() {
            if buf.len() >= 4 {
                let n = read_be32(buf[0], buf[1], buf[2], buf[3]) as usize;
                drop_prefix(buf, 4);
                self.len = Some(n);
            } else {
                return None;
            }
        }
        let len = match self.len {
            Some(len) => len,
            None => 0,
        };
        if buf.len() >= len {
            self.len = None;
            let mut rest = buf.split_off(len);
            std::mem::swap(buf, &mut rest);
            Some(rest)
        } else {
            None
        }
    }

    /// Appends `data` to `buf`, preceded by its length.
    pub fn encode(&mut self, data: &Vec<u8>, buf: &mut Vec<u8>)
        ensures
            final(buf)@ == old(buf)@ + be32_bytes(data@.len() as u32) + data@,
            final(self).len == old(self).len,
    {
        let header = crate::wire::write_be32(data.len() as u32);
        crate::wire::append_bytes(buf, &header);
        crate::wire::append_bytes(buf, data);
    }
}

/// An array written by `encode` into an empty stream is read back whole by
/// `decode`, which then expects a new header.
pub proof fn lemma_byte_array_roundtrip(data: Seq<u8>, rest: Seq<u8>)
    requires
        data.len() <= u32::MAX,
    ensures
        ({
            let s = be32_bytes(data.len() as u32) + data + rest;
            let n = be32(s[0], s[1], s[2], s[3]) as usize;
            &&& s.len() >= 4
            &&& n == data.len()
            &&& s.skip(4).take(n as int) == data
            &&& s.skip(4).skip(n as int) == rest
        }),
{
    let s = be32_bytes(data.len() as u32) + data + rest;
    crate::wire::lemma_be32_roundtrip(data.len() as u32);
    assert(s.skip(4).take(data.len() as int) =~= data);
    assert(s.skip(4).skip(data.len() as int) =~= rest);
}


/// Type tag of nil, which ends a table.
pub const LUA_TNIL: i8 = 0;
/// Type tag of a boolean.
pub const LUA_TBOOLEAN: i8 = 1;
/// Type tag of a number.
pub const LUA_TNUMBER: i8 = 3;
/// Type tag of a string.
pub const LUA_TSTRING: i8 = 4;
/// Type tag of a table.
pub const LUA_TTABLE: i8 = 5;
/// Type tag of user data (vectors and quaternions).
pub const LUA_TUSERDATA: i8 = 7;
/// User data tag of a two-dimensional vector.
pub const LUA_TUSERDATA_VECTOR2: u8 = 1;
/// User data tag of a three-dimensional vector.
pub const LUA_TUSERDATA_VECTOR3: u8 = 2;
/// User data tag of a quaternion.
pub const LUA_TUSERDATA_QUATERNION: u8 = 3;

/// A Lua number as sent: a signed mantissa and a binary exponent. The number
/// is 0 for a zero mantissa and otherwise
/// `sign(m) * ((|m| - 1) / 9223372036854775806 / 2 + 0.5) * 2^e`.
#[derive(Debug, Clone, Copy, PartialEq, Eq)]
pub struct LuaNumber {
    pub mantissa: i64,
    pub exponent: i32,
}

/// A value that robots exchange through the router.
#[derive(Debug)]
pub enum LuaType {
    String(String),
    Number(LuaNumber),
    Boolean(bool),
    Vector2(LuaNumber, LuaNumber),
    Vector3(LuaNumber, LuaNumber, LuaNumber),
    Quaternion(LuaNumber, LuaNumber, LuaNumber, LuaNumber),
    Table(Vec<(LuaType, LuaType)>),
}

/// The mathematical view of a Lua value.
pub enum LuaValue {
    Str(Seq<char>),
    Number(LuaNumber),
    Boolean(bool),
    Vector2(LuaNumber, LuaNumber),
    Vector3(LuaNumber, LuaNumber, LuaNumber),
    Quaternion(LuaNumber, LuaNumber, LuaNumber, LuaNumber),
    Table(Seq<(LuaValue, LuaValue)>),
}

/// The view of a Lua value.
pub open spec fn lua_view(t: LuaType) -> LuaValue
    decreases t,
{
    match t {
        LuaType::String(s) => LuaValue::Str(s@),
        LuaType::Number(n) => LuaValue::Number(n),
        LuaType::Boolean(b) => LuaValue::Boolean(b),
        LuaType::Vector2(x, y) => LuaValue::Vector2(x, y),
        LuaType::Vector3(x, y, z) => LuaValue::Vector3(x, y, z),
        LuaType::Quaternion(w, x, y, z) => LuaValue::Quaternion(w, x, y, z),
        LuaType::Table(v) => LuaValue::Table(Seq::new(v@.len(), |i: int|
            if 0 <= i < v@.len() {
                proof {
                    assert(decreases_to!(t => v));
                    assert(decreases_to!(v => v@));
                    assert(decreases_to!(v@ => v@[i]));
                    assert(decreases_to!(v@[i] => v@[i].0));
                    assert(decreases_to!(v@[i] => v@[i].1));
                }
                (lua_view(v@[i].0), lua_view(v@[i].1))
            } else {
                (LuaValue::Boolean(false), LuaValue::Boolean(false))
            }
        )),
    }
}

/// The view of the entries of a table.
pub open spec fn entries_view(v: Seq<(LuaType, LuaType)>) -> Seq<(LuaValue, LuaValue)> {
    v.map_values(|e: (LuaType, LuaType)| (lua_view(e.0), lua_view(e.1)))
}

/// A table's view holds the views of its entries.
pub proof fn lemma_table_view(v: Vec<(LuaType, LuaType)>)
    ensures
        lua_view(LuaType::Table(v)) == LuaValue::Table(entries_view(v@)),
{
    if let LuaValue::Table(es) = lua_view(LuaType::Table(v)) {
        assert(es =~= entries_view(v@));
    }
}

/// Eight bytes from `p` read as a big-endian two's-complement `i64`.
pub open spec fn be_i64(b: Seq<u8>, p: int) -> i64 {
    (b[p] * 0x100000000000000 + b[p + 1] * 0x1000000000000 + b[p + 2] * 0x10000000000
        + b[p + 3] * 0x100000000 + b[p + 4] * 0x1000000 + b[p + 5] * 0x10000 + b[p + 6] * 0x100
        + b[p + 7]) as u64 as i64
}

/// Four bytes from `p` read as a big-endian two's-complement `i32`.
pub open spec fn be_i32(b: Seq<u8>, p: int) -> i32 {
    be32(b[p], b[p + 1], b[p + 2], b[p + 3]) as i32
}

/// A number at `p`: decoded only where more than twelve bytes remain.
pub open spec fn number_spec(b: Seq<u8>, p: int) -> Option<(LuaNumber, int)> {
    if 0 <= p && b.len() - p > 12 {
        Some((LuaNumber { mantissa: be_i64(b, p), exponent: be_i32(b, p + 8) }, p + 12))
    } else {
        None
    }
}

/// Where the C string that starts at `p` ends: at its first zero byte, or
/// at the end of the buffer.
pub open spec fn string_end(b: Seq<u8>, p: int) -> int {
    if exists|z: int| p <= z < b.len() && b[z] == 0 {
        choose|z: int| p <= z < b.len() && b[z] == 0 && forall|y: int| p <= y < z ==> b[y] != 0
    } else {
        b.len() as int
    }
}

/// The value at `p` of the type with tag `tag`, and where it ends.
pub open spec fn value_spec(b: Seq<u8>, p: int, tag: i8) -> Option<(LuaValue, int)>
    decreases b.len() - p, 1int,
{
    if p < 0 || p > b.len() {
        None
    } else if tag == LUA_TBOOLEAN {
        if p < b.len() { Some((LuaValue::Boolean(b[p] != 0), p + 1)) } else { None }
    } else if tag == LUA_TNUMBER {
        match number_spec(b, p) {
            Some((n, e)) => Some((LuaValue::Number(n), e)),
            None => None,
        }
    } else if tag == LUA_TSTRING {
        let z = string_end(b, p);
        let data = b.subrange(p, z);
        if valid_utf8(data) {
            Some((LuaValue::Str(decode_utf8(data)), if z < b.len() { z + 1 } else { z }))
        } else {
            None
        }
    } else if tag == LUA_TUSERDATA {
        if p >= b.len() {
            None
        } else if b[p] == LUA_TUSERDATA_VECTOR2 {
            match (number_spec(b, p + 1), number_spec(b, p + 13)) {
                (Some((x, _)), Some((y, e))) => Some((LuaValue::Vector2(x, y), e)),
                _ => None,
            }
        } else if b[p] == LUA_TUSERDATA_VECTOR3 {
            match (number_spec(b, p + 1), number_spec(b, p + 13), number_spec(b, p + 25)) {
                (Some((x, _)), Some((y, _)), Some((z, e))) => Some((LuaValue::Vector3(x, y, z), e)),
                _ => None,
            }
        } else if b[p] == LUA_TUSERDATA_QUATERNION {
            match (number_spec(b, p + 1), number_spec(b, p + 13), number_spec(b, p + 25), number_spec(b, p + 37)) {
                (Some((w, _)), Some((x, _)), Some((y, _)), Some((z, e))) => Some((LuaValue::Quaternion(w, x, y, z), e)),
                _ => None,
            }
        } else {
            None
        }
    } else if tag == LUA_TTABLE {
        match entries_spec(b, p) {
            Some((entries, e)) => Some((LuaValue::Table(entries), e)),
            None => None,
        }
    } else {
        None
    }
}

/// The entries of the table that starts at `p`, and where it ends: entries
/// follow until the bytes run out or a nil tag ends the table.
pub open spec fn entries_spec(b: Seq<u8>, p: int) -> Option<(Seq<(LuaValue, LuaValue)>, int)>
    decreases b.len() - p, 0int,
{
    if p < 0 || p > b.len() {
        None
    } else if p == b.len() {
        Some((Seq::empty(), p))
    } else {
        let tag = b[p] as i8;
        if tag == LUA_TNIL {
            Some((Seq::empty(), p + 1))
        } else {
            match value_spec(b, p + 1, tag) {
                None => None,
                Some((key, q)) => if q < p + 1 || q >= b.len() {
                    None
                } else {
                    let vtag = b[q] as i8;
                    if vtag == LUA_TNIL {
                        None
                    } else {
                        match value_spec(b, q + 1, vtag) {
                            None => None,
                            Some((value, r)) => if r <= p || r > b.len() {
                                None
                            } else {
                                match entries_spec(b, r) {
                                    None => None,
                                    Some((rest, e)) => Some((seq![(key, value)] + rest, e)),
                                }
                            },
                        }
                    }
                },
            }
        }
    }
}

/// The table that a router message holds.
pub open spec fn message_spec(b: Seq<u8>) -> Option<LuaValue> {
    match entries_spec(b, 0) {
        Some((entries, _)) => Some(LuaValue::Table(entries)),
        None => None,
    }
}

/// User data is read component by component, in order: a two-dimensional
/// vector's x is the number right after its kind byte and its y the number
/// after that; a three-dimensional vector's x, y and z, and a quaternion's
/// w, x, y and z, follow one another likewise. The value ends where its
/// last number ends.
pub proof fn lemma_usertype_components_in_order(b: Seq<u8>, p: int)
    requires
        0 <= p < b.len(),
    ensures
        b[p] == LUA_TUSERDATA_VECTOR2 && number_spec(b, p + 1) is Some && number_spec(b, p + 13) is Some
            ==> value_spec(b, p, LUA_TUSERDATA) == Some((LuaValue::Vector2(
                number_spec(b, p + 1).unwrap().0,
                number_spec(b, p + 13).unwrap().0), p + 25)),
        b[p] == LUA_TUSERDATA_VECTOR3 && number_spec(b, p + 1) is Some && number_spec(b, p + 13) is Some
            && number_spec(b, p + 25) is Some
            ==> value_spec(b, p, LUA_TUSERDATA) == Some((LuaValue::Vector3(
                number_spec(b, p + 1).unwrap().0,
                number_spec(b, p + 13).unwrap().0,
                number_spec(b, p + 25).unwrap().0), p + 37)),
        b[p] == LUA_TUSERDATA_QUATERNION && number_spec(b, p + 1) is Some && number_spec(b, p + 13) is Some
            && number_spec(b, p + 25) is Some && number_spec(b, p + 37) is Some
            ==> value_spec(b, p, LUA_TUSERDATA) == Some((LuaValue::Quaternion(
                number_spec(b, p + 1).unwrap().0,
                number_spec(b, p + 13).unwrap().0,
                number_spec(b, p + 25).unwrap().0,
                number_spec(b, p + 37).unwrap().0), p + 49)),
{
}

/// The end of a C string lies within the buffer, after its start.
proof fn lemma_string_end(b: Seq<u8>, p: int)
    requires
        0 <= p <= b.len(),
    ensures
        p <= string_end(b, p) <= b.len(),
        string_end(b, p) < b.len() ==> b[string_end(b, p)] == 0,
        forall|y: int| p <= y < string_end(b, p) ==> b[y] != 0,
{
    if exists|z: int| p <= z < b.len() && b[z] == 0 {
        let z0 = choose|z: int| p <= z < b.len() && b[z] == 0;
        lemma_first_zero(b, p, z0);
    }
}

proof fn lemma_first_zero(b: Seq<u8>, p: int, z0: int)
    requires
        p <= z0 < b.len(),
        b[z0] == 0,
    ensures
        exists|z: int| p <= z < b.len() && b[z] == 0 && forall|y: int| p <= y < z ==> b[y] != 0,
    decreases z0 - p,
{
    if exists|y: int| p <= y < z0 && b[y] == 0 {
        let y0 = choose|y: int| p <= y < z0 && b[y] == 0;
        lemma_first_zero(b, p, y0);
    } else {
        assert(forall|y: int| p <= y < z0 ==> b[y] != 0);
    }
}

/// Decoded values end at or after where they start and within the buffer.
pub proof fn lemma_value_end(b: Seq<u8>, p: int, tag: i8)
    ensures
        value_spec(b, p, tag) matches Some((_, e)) ==> p <= e <= b.len(),
        entries_spec(b, p) matches Some((_, e)) ==> p <= e <= b.len(),
    decreases b.len() - p,
{
    if 0 <= p <= b.len() {
        if p < b.len() {
            lemma_value_end(b, p + 1, b[p] as i8);
            match entries_spec(b, p) {
                Some((_, e)) => {
                    if b[p] as i8 != LUA_TNIL {
                        let (_, q) = value_spec(b, p + 1, b[p] as i8).unwrap();
                        lemma_value_end(b, q + 1, b[q] as i8);
                        let (_, r) = value_spec(b, q + 1, b[q] as i8).unwrap();
                        lemma_value_end(b, r, 0);
                    }
                },
                None => {},
            }
        }
        if tag == LUA_TSTRING {
            lemma_string_end(b, p);
        }
    }
}

/// Reads the number at `pos`.
fn decode_lua_number(buf: &Vec<u8>, pos: usize) -> (res: Option<(LuaNumber, usize)>)
    requires
        pos <= buf@.len(),
    ensures
        match res {
            Some((n, e)) => number_spec(buf@, pos as int) == Some((n, e as int)),
            None => number_spec(buf@, pos as int) is None,
        },
{
    if buf.len() - pos > 12 {
        let b = buf;
        let p = pos;
        let raw: u64 = (b[p] as u64) * 0x100000000000000 + (b[p + 1] as u64) * 0x1000000000000
            + (b[p + 2] as u64) * 0x10000000000 + (b[p + 3] as u64) * 0x100000000
            + (b[p + 4] as u64) * 0x1000000 + (b[p + 5] as u64) * 0x10000 + (b[p + 6] as u64) * 0x100
            + (b[p + 7] as u64);
        let exponent = read_be32(b[p + 8], b[p + 9], b[p + 10], b[p + 11]) as i32;
        Some((LuaNumber { mantissa: raw as i64, exponent }, p + 12))
    } else {
        None
    }
}


/// Reads the C string at `pos` and decodes it as UTF-8.
fn decode_lua_string(buf: &Vec<u8>, pos: usize) -> (res: Option<(LuaType, usize)>)
    requires
        pos <= buf@.len(),
    ensures
        match res {
            Some((t, e)) => value_spec(buf@, pos as int, LUA_TSTRING) == Some((lua_view(t), e as int)),
            None => value_spec(buf@, pos as int, LUA_TSTRING) is None,
        },
{
    let mut z = pos;
    while z < buf.len() && buf[z] != 0
        invariant
            pos <= z <= buf@.len(),
            forall|y: int| pos <= y < z ==> buf@[y] != 0,
        decreases buf.len() - z,
    {
        z = z + 1;
    }
    proof {
        let b = buf@;
        if z < b.len() {
            let w = choose|w: int| pos <= w < b.len() && b[w] == 0 && forall|y: int| pos <= y < w ==> b[y] != 0;
            assert(w == z as int) by {
                if w < z { assert(b[w] != 0); }
                if w > z { assert(b[z as int] != 0); }
            }
        }
    }
    let data = copy_range(buf, pos, z);
    let end = if z < buf.len() { z + 1 } else { z };
    match utf8_to_string(data.as_slice()) {
        Ok(text) => Some((LuaType::String(text), end)),
        Err(_) => None,
    }
}

/// Reads the user data (vector or quaternion) at `pos`.
fn decode_lua_usertype(buf: &Vec<u8>, pos: usize) -> (res: Option<(LuaType, usize)>)
    requires
        pos <= buf@.len(),
    ensures
        match res {
            Some((t, e)) => value_spec(buf@, pos as int, LUA_TUSERDATA) == Some((lua_view(t), e as int)),
            None => value_spec(buf@, pos as int, LUA_TUSERDATA) is None,
        },
{
    if pos >= buf.len() {
        return None;
    }
    let kind = buf[pos];
    if kind != LUA_TUSERDATA_VECTOR2 && kind != LUA_TUSERDATA_VECTOR3 && kind != LUA_TUSERDATA_QUATERNION {
        return None;
    }
    let (x, e1) = match decode_lua_number(buf, pos + 1) {
        Some(r) => r,
        None => return None,
    };
    let (y, e2) = match decode_lua_number(buf, e1) {
        Some(r) => r,
        None => return None,
    };
    if kind == LUA_TUSERDATA_VECTOR2 {
        return Some((LuaType::Vector2(x, y), e2));
    }
    let (z, e3) = match decode_lua_number(buf, e2) {
        Some(r) => r,
        None => return None,
    };
    if kind == LUA_TUSERDATA_VECTOR3 {
        return Some((LuaType::Vector3(x, y, z), e3));
    }
    let (w, e4) = match decode_lua_number(buf, e3) {
        Some(r) => r,
        None => return None,
    };
    Some((LuaType::Quaternion(x, y, z, w), e4))
}

/// Reads the value of type `tag` at `pos`.
fn decode_lua_value(buf: &Vec<u8>, pos: usize, tag: i8) -> (res: Option<(LuaType, usize)>)
    requires
        pos <= buf@.len(),
    ensures
        match res {
            Some((t, e)) => value_spec(buf@, pos as int, tag) == Some((lua_view(t), e as int)),
            None => value_spec(buf@, pos as int, tag) is None,
        },
    decreases buf@.len() - pos, 1int,
{
    if tag == LUA_TBOOLEAN {
        if pos < buf.len() {
            Some((LuaType::Boolean(buf[pos] != 0), pos + 1))
        } else {
            None
        }
    } else if tag == LUA_TNUMBER {
        match decode_lua_number(buf, pos) {
            Some((n, e)) => Some((LuaType::Number(n), e)),
            None => None,
        }
    } else if tag == LUA_TSTRING {
        decode_lua_string(buf, pos)
    } else if tag == LUA_TUSERDATA {
        decode_lua_usertype(buf, pos)
    } else if tag == LUA_TTABLE {
        decode_lua_table(buf, pos)
    } else {
        None
    }
}

/// Reads the table that starts at `pos`: key-value pairs, each preceded by
/// its type tag, until the bytes run out or a nil tag ends the table.
pub fn decode_lua_table(buf: &Vec<u8>, pos: usize) -> (res: Option<(LuaType, usize)>)
    requires
        pos <= buf@.len(),
    ensures
        match res {
            Some((t, e)) => value_spec(buf@, pos as int, LUA_TTABLE) == Some((lua_view(t), e as int)),
            None => value_spec(buf@, pos as int, LUA_TTABLE) is None,
        },
    decreases buf@.len() - pos, 0int,
{
    let ghost b = buf@;
    let mut table: Vec<(LuaType, LuaType)> = Vec::new();
    let mut cur = pos;
    while cur < buf.len()
        invariant
            b == buf@,
            pos <= cur <= b.len(),
            entries_spec(b, pos as int) == match entries_spec(b, cur as int) {
                Some((rest, e)) => Some((entries_view(table@) + rest, e)),
                None => None,
            },
        decreases b.len() - cur,
    {
        let tag = buf[cur] as i8;
        if tag == LUA_TNIL {
            cur = cur + 1;
            let ghost done = entries_view(table@);
            assert(entries_view(table@) + Seq::<(LuaValue, LuaValue)>::empty() =~= done);
            proof { lemma_table_view(table); }
            return Some((LuaType::Table(table), cur));
        }
        let (key, q) = match decode_lua_value(buf, cur + 1, tag) {
            Some(r) => r,
            None => return None,
        };
        proof { lemma_value_end(b, cur + 1, tag); }
        if q >= buf.len() {
            return None;
        }
        let vtag = buf[q] as i8;
        if vtag == LUA_TNIL {
            return None;
        }
        let (value, r) = match decode_lua_value(buf, q + 1, vtag) {
            Some(r) => r,
            None => return None,
        };
        proof { lemma_value_end(b, q + 1, vtag); }
        let ghost before = table@;
        let ghost kv = (lua_view(key), lua_view(value));
        table.push((key, value));
        proof {
            assert(entries_view(table@) =~= entries_view(before).push(kv));
            match entries_spec(b, r as int) {
                Some((rest, e)) => {
                    assert(entries_view(before) + (seq![kv] + rest) =~= entries_view(table@) + rest);
                },
                None => {},
            }
        }
        cur = r;
    }
    proof {
        assert(entries_view(table@) + Seq::<(LuaValue, LuaValue)>::empty() =~= entries_view(table@));
        lemma_table_view(table);
    }
    Some((LuaType::Table(table), cur))
}

/// Decodes a router message: the entries of a Lua table that fill it.
pub fn decode_message(buf: &Vec<u8>) -> (res: Option<LuaType>)
    ensures
        match res {
            Some(t) => message_spec(buf@) == Some(lua_view(t)),
            None => message_spec(buf@) is None,
        },
{
    match decode_lua_table(buf, 0) {
        Some((t, _)) => Some(t),
        None => None,
    }
}

/// The address of a robot connected to the router: its IPv4 address and
/// port.
pub type PeerAddr = ([u8; 4], u16);

/// The connected robots other than `sender`, in order.
pub open spec fn others(peers: Seq<PeerAddr>, sender: PeerAddr) -> Seq<PeerAddr> {
    peers.filter(|p: PeerAddr| p != sender)
}

/// Appending a robot appends it to the others where it is not the sender.
proof fn lemma_others_push(peers: Seq<PeerAddr>, x: PeerAddr, sender: PeerAddr)
    ensures
        others(peers.push(x), sender) == if x != sender { others(peers, sender).push(x) } else { others(peers, sender) },
{
    reveal(Seq::filter);
    assert(peers.push(x).drop_last() =~= peers);
}

/// Whether two peer addresses are the same.
fn same_peer(a: &PeerAddr, b: &PeerAddr) -> (res: bool)
    ensures
        res == (*a == *b),
{
    crate::wire::bytes_equal(&a.0, &b.0) && a.1 == b.1
}

/// The robots connected to the router, in the order they connected.
#[derive(Debug)]
pub struct Peers {
    pub addrs: Vec<PeerAddr>,
}

impl Peers {
    /// No robot is connected.
    pub fn new() -> (res: Peers)
        ensures
            res.addrs@.len() == 0,
    {
        Peers { addrs: Vec::new() }
    }

    /// A robot connected: it receives the messages of the others from now
    /// on (a robot that connects again from the same address keeps one
    /// place).
    pub fn join(&mut self, addr: PeerAddr)
        ensures
            final(self).addrs@.to_set() == old(self).addrs@.to_set().insert(addr),
            old(self).addrs@.no_duplicates() ==> final(self).addrs@.no_duplicates(),
    {
        let mut i: usize = 0;
        while i < self.addrs.len()
            invariant
                i <= self.addrs@.len(),
                self.addrs@ == old(self).addrs@,
                forall|j: int| 0 <= j < i ==> self.addrs@[j] != addr,
            decreases self.addrs.len() - i,
        {
            if same_peer(&self.addrs[i], &addr) {
                assert(self.addrs@.to_set().insert(addr) =~= self.addrs@.to_set());
                return;
            }
            i = i + 1;
        }
        let ghost before = self.addrs@;
        self.addrs.push(addr);
        proof { before.lemma_push_to_set_commute(addr); }
    }

    /// A robot disconnected: it no longer receives messages.
    pub fn leave(&mut self, addr: PeerAddr)
        ensures
            final(self).addrs@ == others(old(self).addrs@, addr),
    {
        let ghost before = self.addrs@;
        let mut kept: Vec<PeerAddr> = Vec::new();
        let mut i: usize = 0;
        while i < self.addrs.len()
            invariant
                i <= before.len(),
                self.addrs@ == before,
                kept@ == others(before.take(i as int), addr),
            decreases self.addrs.len() - i,
        {
            let p = self.addrs[i];
            proof {
                lemma_others_push(before.take(i as int), p, addr);
                assert(before.take(i + 1) =~= before.take(i as int).push(p));
            }
            if !same_peer(&p, &addr) {
                kept.push(p);
            }
            i = i + 1;
        }
        assert(before.take(i as int) =~= before);
        self.addrs = kept;
    }

    /// The robots that a message from `sender` is forwarded to: every
    /// connected robot but the sender, in order.
    pub fn recipients(&self, sender: PeerAddr) -> (res: Vec<PeerAddr>)
        ensures
            res@ == others(self.addrs@, sender),
    {
        let mut res: Vec<PeerAddr> = Vec::new();
        let mut i: usize = 0;
        while i < self.addrs.len()
            invariant
                i <= self.addrs@.len(),
                res@ == others(self.addrs@.take(i as int), sender),
            decreases self.addrs.len() - i,
        {
            let p = self.addrs[i];
            proof {
                lemma_others_push(self.addrs@.take(i as int), p, sender);
                assert(self.addrs@.take(i + 1) =~= self.addrs@.take(i as int).push(p));
            }
            if !same_peer(&p, &sender) {
                res.push(p);
            }
            i = i + 1;
        }
        assert(self.addrs@.take(i as int) =~= self.addrs@);
        res
    }
}

/// A message never returns to its sender, and every other connected robot
/// receives it.
pub proof fn lemma_broadcast_excludes_sender(peers: Seq<PeerAddr>, sender: PeerAddr)
    ensures
        !others(peers, sender).contains(sender),
        forall|p: PeerAddr| peers.contains(p) && p != sender ==> #[trigger] others(peers, sender).contains(p),
{
    let pred = |q: PeerAddr| q != sender;
    if peers.filter(pred).contains(sender) {
        let k = choose|k: int| 0 <= k < peers.filter(pred).len() && peers.filter(pred)[k] == sender;
        peers.lemma_filter_pred(pred, k);
    }
    assert forall|p: PeerAddr| peers.contains(p) && p != sender implies #[trigger] others(peers, sender).contains(p) by {
        let k = choose|k: int| 0 <= k < peers.len() && peers[k] == p;
        peers.lemma_filter_contains(pred, k);
    }
}

} // verus!
