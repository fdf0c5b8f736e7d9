//! The protobuf message peers exchange when they meet:
//!
//! ```text
//! message Host { string hostname = 1; OperatingSystem os = 2; }
//! ```
//!
//! Fields holding their default value are left out when writing and take
//! that value when absent; unknown fields are skipped when reading.

use vstd::prelude::*;
use vstd::utf8::{decode_utf8, encode_utf8, valid_utf8};
use crate::p2p::transfer::proto::int32_wire;
use crate::p2p::wire::{
    bytes_field, field_data, lemma_bytes_field_parse, lemma_parse_field_len,
    lemma_varint_field_parse, parse_field, read_field, read_string, varint_field,
    write_string_field, write_varint_field, WireError,
};

verus! {

broadcast use vstd::utf8::group_utf8_lib;

/// A peer's host name and operating system number.
#[derive(Debug)]
pub struct Host {
    pub hostname: String,
    pub os: i32,
}

/// The bytes of a `Host` message.
pub open spec fn host_bytes(hostname: Seq<char>, os: i32) -> Seq<u8> {
    bytes_field(1, encode_utf8(hostname)) + varint_field(2, int32_wire(os))
}

/// Reads `Host` fields from `s` on top of the values `m` read so far.
pub open spec fn host_fields(s: Seq<u8>, m: (Seq<char>, i32)) -> Result<(Seq<char>, i32), WireError>
    decreases s.len(),
{
    if s.len() == 0 {
        Ok(m)
    } else {
        match parse_field(s) {
            Err(e) => Err(e),
            Ok(f) => if f.3 == 0 || f.3 > s.len() {
                Err(WireError::Truncated)
            } else {
                let rest = s.skip(f.3 as int);
                if f.0 == 1 {
                    if f.1 != 2 {
                        Err(WireError::WrongWireType)
                    } else if !valid_utf8(field_data(s, f)) {
                        Err(WireError::InvalidUtf8)
                    } else {
                        host_fields(rest, (decode_utf8(field_data(s, f)), m.1))
                    }
                } else if f.0 == 2 {
                    if f.1 != 0 {
                        Err(WireError::WrongWireType)
                    } else {
                        host_fields(rest, (m.0, f.2 as i32))
                    }
                } else {
                    host_fields(rest, m)
                }
            },
        }
    }
}

/// The `Host` message held by `s`.
pub open spec fn parse_host(s: Seq<u8>) -> Result<(Seq<char>, i32), WireError> {
    host_fields(s, (Seq::empty(), 0))
}

impl Host {
    /// The message as bytes.
    pub fn encode(&self) -> (b: Vec<u8>)
        requires
            self.os >= 0,
        ensures
            b@ == host_bytes(self.hostname@, self.os),
    {
        let mut b: Vec<u8> = Vec::new();
        write_string_field(1, &self.hostname, &mut b);
        write_varint_field(2, self.os as u64, &mut b);
        assert(b@ =~= host_bytes(self.hostname@, self.os));
        b
    }

    /// The message held by `data`.
    pub fn decode(data: &[u8]) -> (r: Result<Host, WireError>)
        ensures
            match parse_host(data@) {
                Ok(m) => r matches Ok(p) && p.hostname@ == m.0 && p.os == m.1,
                Err(e) => r matches Err(x) && x == e,
            },
    {
        let mut hostname = String::new();
        let mut os: i32 = 0;
        let mut pos: usize = 0;
        assert(data@.skip(0) =~= data@);
        while pos < data.len()
            invariant
                pos <= data.len(),
                parse_host(data@) == host_fields(data@.skip(pos as int), (hostname@, os)),
            decreases data.len() - pos,
        {
            let ghost s = data@.skip(pos as int);
            proof {
                lemma_parse_field_len(s);
            }
            let f = match read_field(data, pos) {
                Ok(f) => f,
                Err(e) => return Err(e),
            };
            let ghost fs = parse_field(s)->Ok_0;
            assert(data@.skip(f.end as int) =~= s.skip(fs.3 as int));
            if f.tag == 1 {
                if f.wire_type != 2 {
                    return Err(WireError::WrongWireType);
                }
                assert(data@.subrange(f.end - f.value, f.end as int) =~= field_data(s, fs));
                match read_string(data, f.end - f.value as usize, f.end) {
                    Some(h) => {
                        hostname = h;
                    },
                    None => {
                        return Err(WireError::InvalidUtf8);
                    },
                }
            } else if f.tag == 2 {
                if f.wire_type != 0 {
                    return Err(WireError::WrongWireType);
                }
                os = f.value as i32;
            }
            pos = f.end;
        }
        assert(data@.skip(pos as int) =~= Seq::<u8>::empty());
        Ok(Host { hostname, os })
    }
}

/// Reading back a written `Host` message gives its fields back (for
/// operating system numbers that are not negative).
pub proof fn lemma_host_roundtrip(hostname: Seq<char>, os: i32)
    requires
        os >= 0,
        encode_utf8(hostname).len() <= u64::MAX,
    ensures
        parse_host(host_bytes(hostname, os)) == Ok::<(Seq<char>, i32), WireError>((hostname, os)),
{
    let d = encode_utf8(hostname);
    let a = bytes_field(1, d);
    let b = varint_field(2, int32_wire(os));
    let e = Seq::<u8>::empty();
    assert(host_fields(b, (hostname, 0i32)) == Ok::<(Seq<char>, i32), WireError>((hostname, os)))
        by {
        if os > 0 {
            lemma_varint_field_parse(2, int32_wire(os), e);
            assert(b + e =~= b);
            lemma_parse_field_len(b);
            assert(b.skip(b.len() as int) =~= e);
            let v = int32_wire(os);
            assert((v as i32) == os);
            assert(host_fields(e, (hostname, v as i32)) == Ok::<(Seq<char>, i32), WireError>(
                (hostname, os),
            ));
        } else {
            assert(b =~= e);
        }
    }
    assert(host_fields(a + b, (Seq::empty(), 0i32)) == host_fields(b, (hostname, 0i32))) by {
        if d.len() > 0 {
            lemma_bytes_field_parse(1, d, b);
            lemma_parse_field_len(a + b);
        } else {
            assert(hostname == decode_utf8(d));
            assert(d =~= Seq::<u8>::empty());
            assert(hostname =~= Seq::<char>::empty());
            assert(a + b =~= b);
        }
    }
}

} // verus!
