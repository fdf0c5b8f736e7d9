//! The protobuf wire format used by the handshake messages: base-128
//! varints, field keys and fields, following the protobuf encoding rules.
//! Varints are written and read with prost's primitives.
//!
//! A field starts with a varint key `tag * 8 + wire_type`. The wire types
//! read here are varint (0), fixed 64 bits (1), length-delimited (2) and
//! fixed 32 bits (5); groups (3, 4) are not part of this format and are
//! refused.

use vstd::prelude::*;
use vstd::utf8::{encode_utf8, decode_utf8, valid_utf8, encode_scalar, is_scalar, char_is_scalar};

verus! {

/// Errors met while reading the wire format.
#[derive(Debug, Clone, Copy, PartialEq, Eq, Structural)]
pub enum WireError {
    /// A varint that does not end within ten bytes or overflows 64 bits.
    InvalidVarint,
    /// A field key above the 32-bit range, with tag zero or with an
    /// unsupported wire type.
    InvalidKey,
    /// A field that runs past the end of the data.
    Truncated,
    /// A known field carried with the wrong wire type.
    WrongWireType,
    /// A string field that is not UTF-8.
    InvalidUtf8,
    /// A message larger than the frame it must fit in.
    TooLarge,
}

// ---------------------------------------------------------------------
// Varints
// ---------------------------------------------------------------------

/// The base-128 encoding of `v`: seven bits per byte, least significant
/// first, the high bit set on every byte but the last.
pub open spec fn varint_bytes(v: nat) -> Seq<u8>
    decreases v,
{
    if v < 128 {
        seq![v as u8]
    } else {
        seq![((v % 128) + 128) as u8] + varint_bytes(v / 128)
    }
}

/// The number of bytes of a varint at the start of `s`, looking at no more
/// than `budget` bytes.
pub open spec fn varint_len_within(s: Seq<u8>, budget: nat) -> Option<nat>
    decreases budget,
{
    if budget == 0 || s.len() == 0 {
        None
    } else if s[0] < 128 {
        Some(1)
    } else {
        match varint_len_within(s.drop_first(), (budget - 1) as nat) {
            Some(n) => Some(n + 1),
            None => None,
        }
    }
}

/// The number that the base-128 digits `s` stand for.
pub open spec fn leb_value(s: Seq<u8>) -> nat
    decreases s.len(),
{
    if s.len() == 0 {
        0
    } else {
        (s[0] % 128) as nat + 128 * leb_value(s.drop_first())
    }
}

/// The varint at the start of `s` and the number of bytes it takes, as
/// prost reads it: it ends at the first byte below 128 within ten bytes, and
/// a tenth byte above one overflows.
pub open spec fn parse_varint(s: Seq<u8>) -> Option<(nat, nat)> {
    match varint_len_within(s, 10) {
        None => None,
        Some(n) => if n == 10 && s[9] >= 2 {
            None
        } else {
            Some((leb_value(s.take(n as int)), n))
        },
    }
}

#[verifier::external_type_specification]
#[verifier::external_body]
pub struct ExDecodeError(prost::DecodeError);

/// Appends the varint of `value` to `buf` (prost's `encode_varint`, which
/// writes seven bits per byte, least significant first, with the high bit
/// set on all bytes but the last).
#[verifier::external_body]
fn put_varint(value: u64, buf: &mut Vec<u8>)
    ensures
        final(buf)@ == old(buf)@ + varint_bytes(value as nat),
{
    prost::encoding::encode_varint(value, buf)
}

/// Reads a varint from the start of `buf` (prost's `decode_varint`): on
/// success the value and the bytes after it; an error when the bytes do not
/// hold a varint as `parse_varint` reads it.
#[verifier::external_body]
fn take_varint<'a>(buf: &'a [u8]) -> (r: Result<(u64, &'a [u8]), prost::DecodeError>)
    ensures
        match parse_varint(buf@) {
            Some((v, n)) => r matches Ok((x, rest)) && x as nat == v && rest@ == buf@.skip(
                n as int,
            ),
            None => r is Err,
        },
{
    let mut rest = buf;
    match prost::encoding::decode_varint(&mut rest) {
        Ok(v) => Ok((v, rest)),
        Err(e) => Err(e),
    }
}

/// The varint starting at `pos` in `data`, with the position after it.
pub fn read_varint(data: &[u8], pos: usize) -> (r: Result<(u64, usize), WireError>)
    requires
        pos <= data.len(),
    ensures
        match parse_varint(data@.skip(pos as int)) {
            Some((v, n)) => r == Ok::<(u64, usize), WireError>((v as u64, (pos + n) as usize))
                && v <= u64::MAX && pos + n <= data.len(),
            None => r == Err::<(u64, usize), WireError>(WireError::InvalidVarint),
        },
{
    let tail = vstd::slice::slice_subrange(data, pos, data.len());
    assert(tail@ == data@.skip(pos as int));
    match take_varint(tail) {
        Ok((v, rest)) => {
            proof {
                lemma_parse_varint_len(data@.skip(pos as int));
            }
            Ok((v, data.len() - rest.len()))
        },
        Err(_) => Err(WireError::InvalidVarint),
    }
}

/// Appends the varint of `value` to `buf`.
pub fn write_varint(value: u64, buf: &mut Vec<u8>)
    ensures
        final(buf)@ == old(buf)@ + varint_bytes(value as nat),
{
    put_varint(value, buf)
}

proof fn lemma_varint_len_within_bounds(s: Seq<u8>, budget: nat)
    ensures
        varint_len_within(s, budget) matches Some(n) ==> 1 <= n <= budget && n <= s.len(),
    decreases budget,
{
    if budget > 0 && s.len() > 0 && s[0] >= 128 {
        lemma_varint_len_within_bounds(s.drop_first(), (budget - 1) as nat);
    }
}

/// A varint read from `s` takes between one and ten of its bytes.
pub proof fn lemma_parse_varint_len(s: Seq<u8>)
    ensures
        parse_varint(s) matches Some((v, n)) ==> 1 <= n <= 10 && n <= s.len(),
{
    lemma_varint_len_within_bounds(s, 10);
}

/// `bound(m)` is `2 * 128^m`.
pub open spec fn bound(m: nat) -> nat
    decreases m,
{
    if m == 0 {
        2
    } else {
        128 * bound((m - 1) as nat)
    }
}

proof fn lemma_varint_shape(v: nat, m: nat)
    requires
        v < bound(m),
    ensures
        1 <= varint_bytes(v).len() <= m + 1,
        varint_bytes(v).len() == m + 1 ==> varint_bytes(v).last() <= 1,
        varint_bytes(v).last() < 128,
        forall|i: int| 0 <= i < varint_bytes(v).len() - 1 ==> varint_bytes(v)[i] >= 128,
        leb_value(varint_bytes(v)) == v,
    decreases v,
{
    let b = varint_bytes(v);
    if v < 128 {
        assert(b.drop_first() =~= Seq::<u8>::empty());
        assert(leb_value(b.drop_first()) == 0);
        if m == 0 {
            assert(v < 2);
        }
    } else {
        assert(m > 0);
        let w = v / 128;
        assert(w < bound((m - 1) as nat));
        lemma_varint_shape(w, (m - 1) as nat);
        let t = varint_bytes(w);
        assert(b =~= seq![((v % 128) + 128) as u8] + t);
        assert(b.drop_first() =~= t);
        assert(b.last() == t.last());
        assert forall|i: int| 0 <= i < b.len() - 1 implies b[i] >= 128 by {
            if i > 0 {
                assert(b[i] == t[i - 1]);
            }
        }
        assert(((v % 128) + 128) as u8 % 128 == v % 128);
        assert(v == (v % 128) + 128 * w);
    }
}

/// `2^64` is `2 * 128^9`.
pub proof fn lemma_bound_nine()
    ensures
        bound(9) == 0x1_0000_0000_0000_0000,
{
    reveal_with_fuel(bound, 10);
}

proof fn lemma_varint_len_within_of_bytes(v: nat, rest: Seq<u8>, budget: nat)
    requires
        varint_bytes(v).len() <= budget,
        varint_bytes(v).last() < 128,
        forall|i: int| 0 <= i < varint_bytes(v).len() - 1 ==> varint_bytes(v)[i] >= 128,
    ensures
        varint_len_within(varint_bytes(v) + rest, budget) == Some(varint_bytes(v).len()),
    decreases v,
{
    let b = varint_bytes(v);
    let s = b + rest;
    if v < 128 {
        assert(s[0] == b[0]);
    } else {
        let t = varint_bytes(v / 128);
        assert(b =~= seq![((v % 128) + 128) as u8] + t);
        assert(s[0] == b[0]);
        assert(s.drop_first() =~= t + rest);
        assert(t.last() == b.last());
        assert forall|i: int| 0 <= i < t.len() - 1 implies t[i] >= 128 by {
            assert(t[i] == b[i + 1]);
        }
        lemma_varint_len_within_of_bytes(v / 128, rest, (budget - 1) as nat);
    }
}

/// Reading the varint of a 64-bit value, whatever follows it, gives back
/// the value and the length of its encoding.
pub proof fn lemma_varint_roundtrip(v: u64, rest: Seq<u8>)
    ensures
        parse_varint(varint_bytes(v as nat) + rest) == Some(
            (v as nat, varint_bytes(v as nat).len()),
        ),
        1 <= varint_bytes(v as nat).len() <= 10,
{
    lemma_bound_nine();
    lemma_varint_shape(v as nat, 9);
    lemma_varint_len_within_of_bytes(v as nat, rest, 10);
    let b = varint_bytes(v as nat);
    let s = b + rest;
    assert(s.take(b.len() as int) =~= b);
    if b.len() == 10 {
        assert(s[9] == b.last());
    }
}

/// A varint of a non-zero value holds no zero byte.
pub proof fn lemma_varint_nonzero(v: nat)
    requires
        v > 0,
    ensures
        forall|i: int| 0 <= i < varint_bytes(v).len() ==> varint_bytes(v)[i] != 0,
    decreases v,
{
    if v >= 128 {
        let t = varint_bytes(v / 128);
        lemma_varint_nonzero(v / 128);
        assert(varint_bytes(v) =~= seq![((v % 128) + 128) as u8] + t);
        assert forall|i: int| 0 <= i < varint_bytes(v).len() implies varint_bytes(v)[i] != 0 by {
            if i > 0 {
                assert(varint_bytes(v)[i] == t[i - 1]);
            }
        }
    }
}


// ---------------------------------------------------------------------
// Fields
// ---------------------------------------------------------------------

/// The key of a field: `tag * 8 + wire_type` as a varint.
pub open spec fn key_bytes(tag: nat, wire_type: nat) -> Seq<u8> {
    varint_bytes(tag * 8 + wire_type)
}

/// A length-delimited field holding `data`; absent when `data` is empty.
pub open spec fn bytes_field(tag: nat, data: Seq<u8>) -> Seq<u8> {
    if data.len() == 0 {
        Seq::empty()
    } else {
        key_bytes(tag, 2) + varint_bytes(data.len()) + data
    }
}

/// A varint field holding `v`; absent when `v` is zero.
pub open spec fn varint_field(tag: nat, v: nat) -> Seq<u8> {
    if v == 0 {
        Seq::empty()
    } else {
        key_bytes(tag, 0) + varint_bytes(v)
    }
}

/// The field at the start of `s`: its tag, its wire type, its value (the
/// number for a varint field, the length for a length-delimited field,
/// zero otherwise) and the number of bytes it takes.
pub open spec fn parse_field(s: Seq<u8>) -> Result<(nat, nat, nat, nat), WireError> {
    match parse_varint(s) {
        None => Err(WireError::InvalidVarint),
        Some((k, n1)) => {
            let tag = k / 8;
            let wt = k % 8;
            let r = s.skip(n1 as int);
            if k > u32::MAX || tag == 0 {
                Err(WireError::InvalidKey)
            } else if wt == 0 {
                match parse_varint(r) {
                    None => Err(WireError::InvalidVarint),
                    Some((v, n2)) => Ok((tag, 0, v, n1 + n2)),
                }
            } else if wt == 1 {
                if r.len() >= 8 {
                    Ok((tag, 1, 0, n1 + 8))
                } else {
                    Err(WireError::Truncated)
                }
            } else if wt == 2 {
                match parse_varint(r) {
                    None => Err(WireError::InvalidVarint),
                    Some((l, n2)) => if l <= r.len() - n2 {
                        Ok((tag, 2, l, n1 + n2 + l))
                    } else {
                        Err(WireError::Truncated)
                    },
                }
            } else if wt == 5 {
                if r.len() >= 4 {
                    Ok((tag, 5, 0, n1 + 4))
                } else {
                    Err(WireError::Truncated)
                }
            } else {
                Err(WireError::InvalidKey)
            }
        },
    }
}

/// The data of a length-delimited field `f` read from the start of `s`.
pub open spec fn field_data(s: Seq<u8>, f: (nat, nat, nat, nat)) -> Seq<u8> {
    s.subrange(f.3 - f.2, f.3 as int)
}

/// A field as read from a buffer: its tag, wire type, value (see
/// `parse_field`) and the position just after it.
#[derive(Debug, Clone, Copy)]
pub struct FieldInfo {
    pub tag: u64,
    pub wire_type: u64,
    pub value: u64,
    pub end: usize,
}

/// A field takes at least one byte and stays within the data.
pub proof fn lemma_parse_field_len(s: Seq<u8>)
    ensures
        parse_field(s) matches Ok(f) ==> 1 <= f.3 <= s.len() && (f.1 == 2 ==> f.2 <= f.3) && f.2
            <= u64::MAX,
{
    lemma_parse_varint_len(s);
    if parse_varint(s) is Some {
        let (k, n1) = parse_varint(s)->0;
        lemma_parse_varint_len(s.skip(n1 as int));
        lemma_parse_varint_value_bound(s.skip(n1 as int));
    }
}

proof fn lemma_leb_value_bound(s: Seq<u8>, m: nat)
    requires
        s.len() <= m,
    ensures
        leb_value(s) < bound(m) / 2,
    decreases s.len(),
{
    if s.len() > 0 {
        lemma_leb_value_bound(s.drop_first(), (m - 1) as nat);
        assert(bound(m) == 128 * bound((m - 1) as nat));
        lemma_bound_even((m - 1) as nat);
    } else {
        lemma_bound_positive(m);
    }
}

proof fn lemma_bound_positive(m: nat)
    ensures
        bound(m) >= 2,
    decreases m,
{
    if m > 0 {
        lemma_bound_positive((m - 1) as nat);
    }
}

proof fn lemma_bound_even(m: nat)
    ensures
        bound(m) % 2 == 0,
        bound(m) >= 2,
    decreases m,
{
    lemma_bound_positive(m);
    if m > 0 {
        lemma_bound_even((m - 1) as nat);
    }
}

/// A varint read by `parse_varint` fits in 64 bits.
pub proof fn lemma_parse_varint_value_bound(s: Seq<u8>)
    ensures
        parse_varint(s) matches Some((v, n)) ==> v <= u64::MAX,
{
    lemma_parse_varint_len(s);
    lemma_bound_nine();
    assert(bound(9) / 2 == 0x8000_0000_0000_0000);
    if parse_varint(s) is Some {
        let (v, n) = parse_varint(s)->0;
        let t = s.take(n as int);
        assert(v == leb_value(t));
        if n <= 9 {
            lemma_leb_value_bound(t, 9);
        } else {
            // ten bytes, the last of which is at most one
            assert(n == 10);
            assert(s[9] < 2);
            assert(t.take(9).len() == 9);
            lemma_leb_value_bound(t.take(9), 9);
            lemma_leb_split(t, 9);
            assert(t[9] == s[9]);
            lemma_pow128_nine();
            assert(leb_value(t) == leb_value(t.take(9)) + (t[9] % 128) as nat * pow128_nine());
        }
        assert(v <= u64::MAX);
    }
}

/// `128^9`, written out.
pub open spec fn pow128_nine() -> nat {
    0x8000_0000_0000_0000
}

proof fn lemma_pow128_nine()
    ensures
        pow128(9) == pow128_nine(),
{
    reveal_with_fuel(pow128, 10);
}

/// `128^m`.
pub open spec fn pow128(m: nat) -> nat
    decreases m,
{
    if m == 0 {
        1
    } else {
        128 * pow128((m - 1) as nat)
    }
}

proof fn lemma_leb_split(t: Seq<u8>, m: nat)
    requires
        m < t.len(),
        t.len() == m + 1,
    ensures
        leb_value(t) == leb_value(t.take(m as int)) + (t[m as int] % 128) as nat * pow128(m),
    decreases m,
{
    if m == 0 {
        assert(t.drop_first() =~= Seq::<u8>::empty());
        assert(t.take(0) =~= Seq::<u8>::empty());
        assert(leb_value(t.drop_first()) == 0);
        assert(leb_value(t.take(0)) == 0);
        assert(pow128(0) == 1);
        assert(leb_value(t) == (t[0] % 128) as nat);
    } else {
        let u = t.drop_first();
        lemma_leb_split(u, (m - 1) as nat);
        assert(u.take((m - 1) as int) =~= t.take(m as int).drop_first());
        assert(u[(m - 1) as int] == t[m as int]);
        assert(t.take(m as int)[0] == t[0]);
        assert(leb_value(t.take(m as int)) == (t[0] % 128) as nat + 128 * leb_value(
            t.take(m as int).drop_first(),
        ));
        assert(leb_value(t) == (t[0] % 128) as nat + 128 * leb_value(u));
        let a = leb_value(u.take((m - 1) as int));
        let d = (t[m as int] % 128) as nat;
        assert(128 * (a + d * pow128((m - 1) as nat)) == 128 * a + d * pow128(m)) by (nonlinear_arith)
            requires
                pow128(m) == 128 * pow128((m - 1) as nat),
        ;
    }
}

/// Reads the field that starts at `pos` in `data`.
pub fn read_field(data: &[u8], pos: usize) -> (r: Result<FieldInfo, WireError>)
    requires
        pos <= data.len(),
    ensures
        match parse_field(data@.skip(pos as int)) {
            Ok(f) => r matches Ok(info) && info.tag == f.0 && info.wire_type == f.1 && info.value
                == f.2 && info.end == pos + f.3,
            Err(e) => r == Err::<FieldInfo, WireError>(e),
        },
{
    let ghost s = data@.skip(pos as int);
    proof {
        lemma_parse_field_len(s);
        lemma_parse_varint_len(s);
        lemma_parse_varint_value_bound(s);
    }
    let (k, p1) = match read_varint(data, pos) {
        Ok(x) => x,
        Err(e) => return Err(e),
    };
    let tag = k / 8;
    let wt = k % 8;
    proof {
        let n1 = (p1 - pos) as nat;
        assert(data@.skip(p1 as int) =~= s.skip(n1 as int));
        lemma_parse_varint_len(s.skip(n1 as int));
        lemma_parse_varint_value_bound(s.skip(n1 as int));
    }
    if k > 0xFFFF_FFFF || tag == 0 {
        return Err(WireError::InvalidKey);
    }
    if wt == 0 {
        match read_varint(data, p1) {
            Ok((v, p2)) => Ok(FieldInfo { tag, wire_type: 0, value: v, end: p2 }),
            Err(e) => Err(e),
        }
    } else if wt == 1 {
        if data.len() - p1 >= 8 {
            Ok(FieldInfo { tag, wire_type: 1, value: 0, end: p1 + 8 })
        } else {
            Err(WireError::Truncated)
        }
    } else if wt == 2 {
        match read_varint(data, p1) {
            Ok((l, p2)) => {
                if l <= (data.len() - p2) as u64 {
                    Ok(FieldInfo { tag, wire_type: 2, value: l, end: p2 + l as usize })
                } else {
                    Err(WireError::Truncated)
                }
            },
            Err(e) => Err(e),
        }
    } else if wt == 5 {
        if data.len() - p1 >= 4 {
            Ok(FieldInfo { tag, wire_type: 5, value: 0, end: p1 + 4 })
        } else {
            Err(WireError::Truncated)
        }
    } else {
        Err(WireError::InvalidKey)
    }
}

/// Appends the key of a field.
pub fn write_key(tag: u64, wire_type: u64, buf: &mut Vec<u8>)
    requires
        tag <= 0x1FFF_FFFF,
        wire_type < 8,
    ensures
        final(buf)@ == old(buf)@ + key_bytes(tag as nat, wire_type as nat),
{
    write_varint(tag * 8 + wire_type, buf)
}

/// Appends the bytes `data` to `buf`.
pub fn push_bytes(buf: &mut Vec<u8>, data: &[u8])
    ensures
        final(buf)@ == old(buf)@ + data@,
{
    let mut i: usize = 0;
    while i < data.len()
        invariant
            i <= data.len(),
            buf@ == old(buf)@ + data@.take(i as int),
        decreases data.len() - i,
    {
        buf.push(data[i]);
        i = i + 1;
        assert(data@.take(i as int) == data@.take((i - 1) as int).push(data@[i - 1]));
    }
    assert(data@.take(data.len() as int) == data@);
}

/// Appends a length-delimited field holding the UTF-8 bytes of `s`, unless
/// `s` is empty.
pub fn write_string_field(tag: u64, s: &String, buf: &mut Vec<u8>)
    requires
        tag <= 0x1FFF_FFFF,
    ensures
        final(buf)@ == old(buf)@ + bytes_field(tag as nat, encode_utf8(s@)),
{
    let bytes = s.as_str().as_bytes();
    if bytes.len() > 0 {
        write_key(tag, 2, buf);
        write_varint(bytes.len() as u64, buf);
        push_bytes(buf, bytes);
        assert(final(buf)@ =~= old(buf)@ + bytes_field(tag as nat, encode_utf8(s@)));
    } else {
        assert(buf@ =~= old(buf)@ + bytes_field(tag as nat, encode_utf8(s@)));
    }
}

/// Appends a varint field holding `v`, unless `v` is zero.
pub fn write_varint_field(tag: u64, v: u64, buf: &mut Vec<u8>)
    requires
        tag <= 0x1FFF_FFFF,
    ensures
        final(buf)@ == old(buf)@ + varint_field(tag as nat, v as nat),
{
    if v != 0 {
        write_key(tag, 0, buf);
        write_varint(v, buf);
        assert(final(buf)@ =~= old(buf)@ + varint_field(tag as nat, v as nat));
    } else {
        assert(buf@ =~= old(buf)@ + varint_field(tag as nat, v as nat));
    }
}

/// The string whose UTF-8 bytes are `bytes`, if they are valid UTF-8
/// (std's `String::from_utf8`: an error exactly when the bytes are not
/// UTF-8, else a string made of these bytes).
#[verifier::external_body]
fn string_from_utf8(bytes: Vec<u8>) -> (r: Option<String>)
    ensures
        match r {
            Some(s) => valid_utf8(bytes@) && encode_utf8(s@) == bytes@,
            None => !valid_utf8(bytes@),
        },
{
    String::from_utf8(bytes).ok()
}

/// The string held by the bytes `data[from..to]`, if they are UTF-8.
pub fn read_string(data: &[u8], from: usize, to: usize) -> (r: Option<String>)
    requires
        from <= to <= data.len(),
    ensures
        match r {
            Some(s) => valid_utf8(data@.subrange(from as int, to as int)) && s@ == decode_utf8(
                data@.subrange(from as int, to as int),
            ),
            None => !valid_utf8(data@.subrange(from as int, to as int)),
        },
{
    let part = vstd::slice::slice_subrange(data, from, to);
    let bytes = vstd::slice::slice_to_vec(part);
    let r = string_from_utf8(bytes);
    proof {
        if r is Some {
            vstd::utf8::encode_utf8_decode_utf8(r->0@);
        }
    }
    r
}

/// Reading back a present length-delimited field gives its tag, its data
/// and its length, whatever follows it.
pub proof fn lemma_bytes_field_parse(tag: nat, data: Seq<u8>, rest: Seq<u8>)
    requires
        1 <= tag <= 0x1FFF_FFFF,
        0 < data.len() <= u64::MAX,
    ensures
        ({
            let f = bytes_field(tag, data);
            let s = f + rest;
            &&& parse_field(s) == Ok::<(nat, nat, nat, nat), WireError>(
                (tag, 2, data.len(), f.len()),
            )
            &&& field_data(s, (tag, 2, data.len(), f.len())) == data
            &&& s.skip(f.len() as int) == rest
        }),
{
    let k = key_bytes(tag, 2);
    let l = varint_bytes(data.len());
    let f = bytes_field(tag, data);
    let s = f + rest;
    assert(f == k + l + data);
    lemma_varint_roundtrip((tag * 8 + 2) as u64, l + data + rest);
    assert(s =~= k + (l + data + rest));
    let r = s.skip(k.len() as int);
    assert(r =~= l + (data + rest));
    lemma_varint_roundtrip(data.len() as u64, data + rest);
    assert(r.skip(l.len() as int) =~= data + rest);
    assert(s.subrange(f.len() - data.len(), f.len() as int) =~= data);
    assert(s.skip(f.len() as int) =~= rest);
}

/// Reading back a present varint field gives its tag and value, whatever
/// follows it.
pub proof fn lemma_varint_field_parse(tag: nat, v: nat, rest: Seq<u8>)
    requires
        1 <= tag <= 0x1FFF_FFFF,
        0 < v <= u64::MAX,
    ensures
        ({
            let f = varint_field(tag, v);
            let s = f + rest;
            &&& parse_field(s) == Ok::<(nat, nat, nat, nat), WireError>((tag, 0, v, f.len()))
            &&& s.skip(f.len() as int) == rest
        }),
{
    let k = key_bytes(tag, 0);
    let b = varint_bytes(v);
    let f = varint_field(tag, v);
    let s = f + rest;
    assert(f == k + b);
    lemma_varint_roundtrip((tag * 8) as u64, b + rest);
    assert(s =~= k + (b + rest));
    let r = s.skip(k.len() as int);
    assert(r =~= b + rest);
    lemma_varint_roundtrip(v as u64, rest);
    assert(s.skip(f.len() as int) =~= rest);
}

// ---------------------------------------------------------------------
// Zero bytes
// ---------------------------------------------------------------------

/// No byte of `s` is zero.
pub open spec fn has_no_zero(s: Seq<u8>) -> bool {
    forall|i: int| 0 <= i < s.len() ==> s[i] != 0
}

/// No character of `s` is NUL.
pub open spec fn has_no_nul(s: Seq<char>) -> bool {
    forall|i: int| 0 <= i < s.len() ==> s[i] != '\0'
}

proof fn lemma_scalar_nonzero(c: u32)
    requires
        c != 0,
        is_scalar(c),
    ensures
        has_no_zero(encode_scalar(c)),
{
    let e = encode_scalar(c);
    assert(c <= 0x7F ==> (c & 0x7F) as u8 != 0) by (bit_vector)
        requires
            c != 0,
    ;
    assert((0xC0u8 | ((c >> 6) & 0x1F) as u8) != 0) by (bit_vector);
    assert((0xE0u8 | ((c >> 12) & 0x0F) as u8) != 0) by (bit_vector);
    assert((0xF0u8 | ((c >> 18) & 0x7) as u8) != 0) by (bit_vector);
    assert((0x80u8 | (c & 0x3F) as u8) != 0) by (bit_vector);
    assert((0x80u8 | ((c >> 6) & 0x3F) as u8) != 0) by (bit_vector);
    assert((0x80u8 | ((c >> 12) & 0x3F) as u8) != 0) by (bit_vector);
}

/// The UTF-8 bytes of a string without NUL characters hold no zero byte.
pub proof fn lemma_utf8_no_zero(s: Seq<char>)
    requires
        has_no_nul(s),
    ensures
        has_no_zero(encode_utf8(s)),
    decreases s.len(),
{
    if s.len() > 0 {
        let c = s[0];
        char_is_scalar(c);
        assert((c as u32) != 0) by {
            vstd::utf8::char_u32_cast(c, c as u32);
            assert(c != '\0');
            if (c as u32) == 0 {
                assert(((c as u32) as char) == c);
                assert((0u32 as char) == '\0');
            }
        }
        lemma_scalar_nonzero(c as u32);
        lemma_utf8_no_zero(s.drop_first());
        let e = encode_scalar(c as u32);
        let t = encode_utf8(s.drop_first());
        assert(encode_utf8(s) == e + t);
        assert forall|i: int| 0 <= i < (e + t).len() implies (e + t)[i] != 0 by {
            if i >= e.len() {
                assert((e + t)[i] == t[i - e.len()]);
            }
        }
    }
}

/// A present field holds no zero byte when its key, its length and its
/// data hold none.
pub proof fn lemma_bytes_field_no_zero(tag: nat, data: Seq<u8>)
    requires
        tag > 0,
        has_no_zero(data),
    ensures
        has_no_zero(bytes_field(tag, data)),
{
    if data.len() > 0 {
        lemma_varint_nonzero(tag * 8 + 2);
        lemma_varint_nonzero(data.len());
        let a = key_bytes(tag, 2);
        let b = varint_bytes(data.len());
        lemma_concat_no_zero(a, b);
        lemma_concat_no_zero(a + b, data);
    }
}

/// A varint field holds no zero byte.
pub proof fn lemma_varint_field_no_zero(tag: nat, v: nat)
    requires
        tag > 0,
    ensures
        has_no_zero(varint_field(tag, v)),
{
    if v != 0 {
        lemma_varint_nonzero(tag * 8);
        lemma_varint_nonzero(v);
        lemma_concat_no_zero(key_bytes(tag, 0), varint_bytes(v));
    }
}

/// Joining two sequences without zero bytes gives one without zero bytes.
pub proof fn lemma_concat_no_zero(a: Seq<u8>, b: Seq<u8>)
    requires
        has_no_zero(a),
        has_no_zero(b),
    ensures
        has_no_zero(a + b),
{
    assert forall|i: int| 0 <= i < (a + b).len() implies (a + b)[i] != 0 by {
        if i >= a.len() {
            assert((a + b)[i] == b[i - a.len()]);
        }
    }
}

} // verus!
