//! The protobuf messages of the transfer handshake:
//!
//! ```text
//! message Metadata { string name = 1; uint64 size = 2; TransferType transfer_type = 3; }
//! message Answer   { bool accepted = 1; string hash = 2; }
//! message Trailer  { string hash = 1; }
//! ```
//!
//! Fields holding their default value (empty, zero, false) are left out
//! when writing and take that value when absent; unknown fields are
//! skipped when reading, and a field met twice keeps its last value.

use vstd::prelude::*;
use vstd::utf8::{decode_utf8, encode_utf8, valid_utf8};
use crate::p2p::wire::{
    bytes_field, field_data, has_no_nul, has_no_zero, lemma_bytes_field_no_zero,
    lemma_bytes_field_parse, lemma_concat_no_zero, lemma_parse_field_len, lemma_utf8_no_zero,
    lemma_varint_field_no_zero, lemma_varint_field_parse, parse_field, read_field, read_string,
    varint_field, write_string_field, write_varint_field, WireError,
};

verus! {

broadcast use vstd::utf8::group_utf8_lib;

/// The wire number of a signed 32-bit field: its two's complement on 64
/// bits.
pub open spec fn int32_wire(x: i32) -> nat {
    if x >= 0 {
        x as nat
    } else {
        (x + 0x1_0000_0000_0000_0000) as nat
    }
}

fn int32_to_wire(x: i32) -> (w: u64)
    ensures
        w as nat == int32_wire(x),
{
    if x >= 0 {
        x as u64
    } else {
        u64::MAX - ((-(x as i64) - 1) as u64)
    }
}

// ---------------------------------------------------------------------
// Metadata
// ---------------------------------------------------------------------

/// The announcement of an offered transfer.
#[derive(Debug)]
pub struct ProtoMetadata {
    pub name: String,
    pub size: u64,
    pub transfer_type: i32,
}

/// The bytes of a `Metadata` message.
pub open spec fn metadata_bytes(name: Seq<char>, size: nat, transfer_type: i32) -> Seq<u8> {
    bytes_field(1, encode_utf8(name)) + varint_field(2, size) + varint_field(
        3,
        int32_wire(transfer_type),
    )
}

/// Reads `Metadata` fields from `s` on top of the values `m` (name, size,
/// transfer type) read so far.
pub open spec fn metadata_fields(s: Seq<u8>, m: (Seq<char>, nat, i32)) -> Result<
    (Seq<char>, nat, i32),
    WireError,
>
    decreases s.len(),
{
    if s.len() == 0 {
        Ok(m)
    } else {
        match parse_field(s) {
            Err(e) => Err(e),
            Ok(f) => if f.3 == 0 || f.3 > s.len() {
                Err(WireError::Truncated)
            } else {
                let rest = s.skip(f.3 as int);
                if f.0 == 1 {
                    if f.1 != 2 {
                        Err(WireError::WrongWireType)
                    } else if !valid_utf8(field_data(s, f)) {
                        Err(WireError::InvalidUtf8)
                    } else {
                        metadata_fields(rest, (decode_utf8(field_data(s, f)), m.1, m.2))
                    }
                } else if f.0 == 2 {
                    if f.1 != 0 {
                        Err(WireError::WrongWireType)
                    } else {
                        metadata_fields(rest, (m.0, f.2, m.2))
                    }
                } else if f.0 == 3 {
                    if f.1 != 0 {
                        Err(WireError::WrongWireType)
                    } else {
                        metadata_fields(rest, (m.0, m.1, f.2 as i32))
                    }
                } else {
                    metadata_fields(rest, m)
                }
            },
        }
    }
}

/// The `Metadata` message held by `s`.
pub open spec fn parse_metadata(s: Seq<u8>) -> Result<(Seq<char>, nat, i32), WireError> {
    metadata_fields(s, (Seq::empty(), 0, 0))
}

impl ProtoMetadata {
    /// The message as bytes.
    pub fn encode(&self) -> (b: Vec<u8>)
        ensures
            b@ == metadata_bytes(self.name@, self.size as nat, self.transfer_type),
    {
        let mut b: Vec<u8> = Vec::new();
        write_string_field(1, &self.name, &mut b);
        write_varint_field(2, self.size, &mut b);
        write_varint_field(3, int32_to_wire(self.transfer_type), &mut b);
        assert(b@ =~= metadata_bytes(self.name@, self.size as nat, self.transfer_type));
        b
    }

    /// The message held by `data`.
    pub fn decode(data: &[u8]) -> (r: Result<ProtoMetadata, WireError>)
        ensures
            match parse_metadata(data@) {
                Ok(m) => r matches Ok(p) && p.name@ == m.0 && p.size as nat == m.1
                    && p.transfer_type == m.2,
                Err(e) => r matches Err(x) && x == e,
            },
    {
        let mut name = String::new();
        let mut size: u64 = 0;
        let mut transfer_type: i32 = 0;
        let mut pos: usize = 0;
        assert(data@.skip(0) =~= data@);
        while pos < data.len()
            invariant
                pos <= data.len(),
                parse_metadata(data@) == metadata_fields(
                    data@.skip(pos as int),
                    (name@, size as nat, transfer_type),
                ),
            decreases data.len() - pos,
        {
            let ghost s = data@.skip(pos as int);
            proof {
                lemma_parse_field_len(s);
            }
            let f = match read_field(data, pos) {
                Ok(f) => f,
                Err(e) => return Err(e),
            };
            let ghost fs = parse_field(s)->Ok_0;
            assert(data@.skip(f.end as int) =~= s.skip(fs.3 as int));
            if f.tag == 1 {
                if f.wire_type != 2 {
                    return Err(WireError::WrongWireType);
                }
                assert(data@.subrange(f.end - f.value, f.end as int) =~= field_data(s, fs));
                match read_string(data, f.end - f.value as usize, f.end) {
                    Some(n) => {
                        name = n;
                    },
                    None => {
                        return Err(WireError::InvalidUtf8);
                    },
                }
            } else if f.tag == 2 {
                if f.wire_type != 0 {
                    return Err(WireError::WrongWireType);
                }
                size = f.value;
            } else if f.tag == 3 {
                if f.wire_type != 0 {
                    return Err(WireError::WrongWireType);
                }
                transfer_type = f.value as i32;
            }
            pos = f.end;
        }
        assert(data@.skip(pos as int) =~= Seq::<u8>::empty());
        Ok(ProtoMetadata { name, size, transfer_type })
    }
}

/// Reading back a written `Metadata` message gives its fields back (for
/// transfer type numbers that are not negative).
pub proof fn lemma_metadata_roundtrip(name: Seq<char>, size: u64, transfer_type: i32)
    requires
        transfer_type >= 0,
        encode_utf8(name).len() <= u64::MAX,
    ensures
        parse_metadata(metadata_bytes(name, size as nat, transfer_type)) == Ok::<
            (Seq<char>, nat, i32),
            WireError,
        >((name, size as nat, transfer_type)),
{
    let a = bytes_field(1, encode_utf8(name));
    let b = varint_field(2, size as nat);
    let c = varint_field(3, int32_wire(transfer_type));
    let e = Seq::<u8>::empty();
    let s = metadata_bytes(name, size as nat, transfer_type);
    assert(s == a + b + c);
    // third field
    let m2 = (name, size as nat, 0i32);
    assert(metadata_fields(c, m2) == Ok::<(Seq<char>, nat, i32), WireError>(
        (name, size as nat, transfer_type),
    )) by {
        if transfer_type > 0 {
            lemma_varint_field_parse(3, int32_wire(transfer_type), e);
            assert(c + e =~= c);
            lemma_parse_field_len(c);
            assert(c.skip(c.len() as int) =~= e);
            let v = int32_wire(transfer_type);
            assert(v == transfer_type as int);
            assert((v as i32) == transfer_type);
            assert(metadata_fields(e, (name, size as nat, v as i32)) == Ok::<
                (Seq<char>, nat, i32),
                WireError,
            >((name, size as nat, transfer_type)));
        } else {
            assert(c =~= e);
        }
    }
    // second field
    let m1 = (name, 0nat, 0i32);
    assert(metadata_fields(b + c, m1) == metadata_fields(c, m2)) by {
        if size > 0 {
            lemma_varint_field_parse(2, size as nat, c);
            lemma_parse_field_len(b + c);
        } else {
            assert(b + c =~= c);
        }
    }
    // first field
    let m0 = (Seq::<char>::empty(), 0nat, 0i32);
    assert(metadata_fields(a + (b + c), m0) == metadata_fields(b + c, m1)) by {
        let d = encode_utf8(name);
        if d.len() > 0 {
            lemma_bytes_field_parse(1, d, b + c);
            lemma_parse_field_len(a + (b + c));
        } else {
            assert(name == decode_utf8(d));
            assert(d =~= Seq::<u8>::empty());
            assert(name =~= Seq::<char>::empty());
            assert(a + (b + c) =~= b + c);
        }
    }
    assert(a + b + c =~= a + (b + c));
}

/// A `Metadata` message whose name holds no NUL character holds no zero
/// byte.
pub proof fn lemma_metadata_no_zero(name: Seq<char>, size: nat, transfer_type: i32)
    requires
        has_no_nul(name),
    ensures
        has_no_zero(metadata_bytes(name, size, transfer_type)),
{
    lemma_utf8_no_zero(name);
    lemma_bytes_field_no_zero(1, encode_utf8(name));
    lemma_varint_field_no_zero(2, size);
    lemma_varint_field_no_zero(3, int32_wire(transfer_type));
    lemma_concat_no_zero(bytes_field(1, encode_utf8(name)), varint_field(2, size));
    lemma_concat_no_zero(
        bytes_field(1, encode_utf8(name)) + varint_field(2, size),
        varint_field(3, int32_wire(transfer_type)),
    );
}


// ---------------------------------------------------------------------
// Answer
// ---------------------------------------------------------------------

/// The receiver's answer to an offered transfer.
#[derive(Debug)]
pub struct ProtoAnswer {
    pub accepted: bool,
    pub hash: String,
}

/// The bytes of an `Answer` message.
pub open spec fn answer_bytes(accepted: bool, hash: Seq<char>) -> Seq<u8> {
    varint_field(1, if accepted { 1 } else { 0 }) + bytes_field(2, encode_utf8(hash))
}

/// Reads `Answer` fields from `s` on top of the values `m` read so far.
pub open spec fn answer_fields(s: Seq<u8>, m: (bool, Seq<char>)) -> Result<
    (bool, Seq<char>),
    WireError,
>
    decreases s.len(),
{
    if s.len() == 0 {
        Ok(m)
    } else {
        match parse_field(s) {
            Err(e) => Err(e),
            Ok(f) => if f.3 == 0 || f.3 > s.len() {
                Err(WireError::Truncated)
            } else {
                let rest = s.skip(f.3 as int);
                if f.0 == 1 {
                    if f.1 != 0 {
                        Err(WireError::WrongWireType)
                    } else {
                        answer_fields(rest, (f.2 != 0, m.1))
                    }
                } else if f.0 == 2 {
                    if f.1 != 2 {
                        Err(WireError::WrongWireType)
                    } else if !valid_utf8(field_data(s, f)) {
                        Err(WireError::InvalidUtf8)
                    } else {
                        answer_fields(rest, (m.0, decode_utf8(field_data(s, f))))
                    }
                } else {
                    answer_fields(rest, m)
                }
            },
        }
    }
}

/// The `Answer` message held by `s`.
pub open spec fn parse_answer(s: Seq<u8>) -> Result<(bool, Seq<char>), WireError> {
    answer_fields(s, (false, Seq::empty()))
}

impl ProtoAnswer {
    /// The message as bytes.
    pub fn encode(&self) -> (b: Vec<u8>)
        ensures
            b@ == answer_bytes(self.accepted, self.hash@),
    {
        let mut b: Vec<u8> = Vec::new();
        write_varint_field(1, if self.accepted { 1 } else { 0 }, &mut b);
        write_string_field(2, &self.hash, &mut b);
        b
    }

    /// The message held by `data`.
    pub fn decode(data: &[u8]) -> (r: Result<ProtoAnswer, WireError>)
        ensures
            match parse_answer(data@) {
                Ok(m) => r matches Ok(p) && p.accepted == m.0 && p.hash@ == m.1,
                Err(e) => r matches Err(x) && x == e,
            },
    {
        let mut accepted = false;
        let mut hash = String::new();
        let mut pos: usize = 0;
        assert(data@.skip(0) =~= data@);
        while pos < data.len()
            invariant
                pos <= data.len(),
                parse_answer(data@) == answer_fields(data@.skip(pos as int), (accepted, hash@)),
            decreases data.len() - pos,
        {
            let ghost s = data@.skip(pos as int);
            proof {
                lemma_parse_field_len(s);
            }
            let f = match read_field(data, pos) {
                Ok(f) => f,
                Err(e) => return Err(e),
            };
            let ghost fs = parse_field(s)->Ok_0;
            assert(data@.skip(f.end as int) =~= s.skip(fs.3 as int));
            if f.tag == 1 {
                if f.wire_type != 0 {
                    return Err(WireError::WrongWireType);
                }
                accepted = f.value != 0;
            } else if f.tag == 2 {
                if f.wire_type != 2 {
                    return Err(WireError::WrongWireType);
                }
                assert(data@.subrange(f.end - f.value, f.end as int) =~= field_data(s, fs));
                match read_string(data, f.end - f.value as usize, f.end) {
                    Some(h) => {
                        hash = h;
                    },
                    None => {
                        return Err(WireError::InvalidUtf8);
                    },
                }
            }
            pos = f.end;
        }
        assert(data@.skip(pos as int) =~= Seq::<u8>::empty());
        Ok(ProtoAnswer { accepted, hash })
    }
}

/// Reading back a written `Answer` message gives its fields back.
pub proof fn lemma_answer_roundtrip(accepted: bool, hash: Seq<char>)
    requires
        encode_utf8(hash).len() <= u64::MAX,
    ensures
        parse_answer(answer_bytes(accepted, hash)) == Ok::<(bool, Seq<char>), WireError>(
            (accepted, hash),
        ),
{
    let a = varint_field(1, if accepted { 1 } else { 0 });
    let d = encode_utf8(hash);
    let b = bytes_field(2, d);
    let e = Seq::<u8>::empty();
    assert(answer_fields_give(b, accepted, hash)) by {
        if d.len() > 0 {
            lemma_bytes_field_parse(2, d, e);
            assert(b + e =~= b);
            lemma_parse_field_len(b);
            assert(b.skip(b.len() as int) =~= e);
            assert(field_data(b, (2, 2, d.len(), b.len())) == d);
            assert(decode_utf8(d) == hash);
            assert(answer_fields(e, (accepted, hash)) == Ok::<(bool, Seq<char>), WireError>(
                (accepted, hash),
            ));
        } else {
            assert(hash == decode_utf8(d));
            assert(d =~= Seq::<u8>::empty());
            assert(hash =~= Seq::<char>::empty());
            assert(b =~= e);
        }
    }
    assert(answer_fields(a + b, (false, Seq::empty())) == answer_fields(b, (accepted, Seq::empty())))
        by {
        if accepted {
            lemma_varint_field_parse(1, 1, b);
            lemma_parse_field_len(a + b);
        } else {
            assert(a + b =~= b);
        }
    }
}

/// Reading the fields `b` of an answer yields `accepted` and `hash`.
spec fn answer_fields_give(b: Seq<u8>, accepted: bool, hash: Seq<char>) -> bool {
    answer_fields(b, (accepted, Seq::empty())) == Ok::<(bool, Seq<char>), WireError>(
        (accepted, hash),
    )
}

/// An `Answer` message whose hash holds no NUL character holds no zero
/// byte.
pub proof fn lemma_answer_no_zero(accepted: bool, hash: Seq<char>)
    requires
        has_no_nul(hash),
    ensures
        has_no_zero(answer_bytes(accepted, hash)),
{
    lemma_utf8_no_zero(hash);
    lemma_varint_field_no_zero(1, if accepted { 1 } else { 0 });
    lemma_bytes_field_no_zero(2, encode_utf8(hash));
    lemma_concat_no_zero(
        varint_field(1, if accepted { 1 } else { 0 }),
        bytes_field(2, encode_utf8(hash)),
    );
}

// ---------------------------------------------------------------------
// Trailer
// ---------------------------------------------------------------------

/// The digest sent after the transferred content.
#[derive(Debug)]
pub struct ProtoTrailer {
    pub hash: String,
}

/// The bytes of a `Trailer` message.
pub open spec fn trailer_bytes(hash: Seq<char>) -> Seq<u8> {
    bytes_field(1, encode_utf8(hash))
}

/// Reads `Trailer` fields from `s` on top of the hash `h` read so far.
pub open spec fn trailer_fields(s: Seq<u8>, h: Seq<char>) -> Result<Seq<char>, WireError>
    decreases s.len(),
{
    if s.len() == 0 {
        Ok(h)
    } else {
        match parse_field(s) {
            Err(e) => Err(e),
            Ok(f) => if f.3 == 0 || f.3 > s.len() {
                Err(WireError::Truncated)
            } else {
                let rest = s.skip(f.3 as int);
                if f.0 == 1 {
                    if f.1 != 2 {
                        Err(WireError::WrongWireType)
                    } else if !valid_utf8(field_data(s, f)) {
                        Err(WireError::InvalidUtf8)
                    } else {
                        trailer_fields(rest, decode_utf8(field_data(s, f)))
                    }
                } else {
                    trailer_fields(rest, h)
                }
            },
        }
    }
}

/// The `Trailer` message held by `s`.
pub open spec fn parse_trailer(s: Seq<u8>) -> Result<Seq<char>, WireError> {
    trailer_fields(s, Seq::empty())
}

impl ProtoTrailer {
    /// The message as bytes.
    pub fn encode(&self) -> (b: Vec<u8>)
        ensures
            b@ == trailer_bytes(self.hash@),
    {
        let mut b: Vec<u8> = Vec::new();
        write_string_field(1, &self.hash, &mut b);
        b
    }

    /// The message held by `data`.
    pub fn decode(data: &[u8]) -> (r: Result<ProtoTrailer, WireError>)
        ensures
            match parse_trailer(data@) {
                Ok(h) => r matches Ok(p) && p.hash@ == h,
                Err(e) => r matches Err(x) && x == e,
            },
    {
        let mut hash = String::new();
        let mut pos: usize = 0;
        assert(data@.skip(0) =~= data@);
        while pos < data.len()
            invariant
                pos <= data.len(),
                parse_trailer(data@) == trailer_fields(data@.skip(pos as int), hash@),
            decreases data.len() - pos,
        {
            let ghost s = data@.skip(pos as int);
            proof {
                lemma_parse_field_len(s);
            }
            let f = match read_field(data, pos) {
                Ok(f) => f,
                Err(e) => return Err(e),
            };
            let ghost fs = parse_field(s)->Ok_0;
            assert(data@.skip(f.end as int) =~= s.skip(fs.3 as int));
            if f.tag == 1 {
                if f.wire_type != 2 {
                    return Err(WireError::WrongWireType);
                }
                assert(data@.subrange(f.end - f.value, f.end as int) =~= field_data(s, fs));
                match read_string(data, f.end - f.value as usize, f.end) {
                    Some(h) => {
                        hash = h;
                    },
                    None => {
                        return Err(WireError::InvalidUtf8);
                    },
                }
            }
            pos = f.end;
        }
        assert(data@.skip(pos as int) =~= Seq::<u8>::empty());
        Ok(ProtoTrailer { hash })
    }
}

/// Reading back a written `Trailer` message gives its hash back.
pub proof fn lemma_trailer_roundtrip(hash: Seq<char>)
    requires
        encode_utf8(hash).len() <= u64::MAX,
    ensures
        parse_trailer(trailer_bytes(hash)) == Ok::<Seq<char>, WireError>(hash),
{
    let d = encode_utf8(hash);
    let b = trailer_bytes(hash);
    let e = Seq::<u8>::empty();
    if d.len() > 0 {
        lemma_bytes_field_parse(1, d, e);
        assert(b + e =~= b);
        lemma_parse_field_len(b);
        assert(b.skip(b.len() as int) =~= e);
        assert(field_data(b, (1, 2, d.len(), b.len())) == d);
        assert(decode_utf8(d) == hash);
        assert(trailer_fields(e, hash) == Ok::<Seq<char>, WireError>(hash));
    } else {
        assert(hash == decode_utf8(d));
        assert(d =~= Seq::<u8>::empty());
        assert(hash =~= Seq::<char>::empty());
        assert(b =~= e);
    }
}

/// A `Trailer` message whose hash holds no NUL character holds no zero
/// byte.
pub proof fn lemma_trailer_no_zero(hash: Seq<char>)
    requires
        has_no_nul(hash),
    ensures
        has_no_zero(trailer_bytes(hash)),
{
    lemma_utf8_no_zero(hash);
    lemma_bytes_field_no_zero(1, encode_utf8(hash));
}

} // verus!
