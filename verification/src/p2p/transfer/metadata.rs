//! The handshake packets of a transfer. Each message is sent in a packet
//! of `PACKET_SIZE` bytes: the message's bytes followed by zero bytes. The
//! receiver collects at least `PACKET_SIZE` bytes and drops every zero byte
//! before reading the message.

use vstd::prelude::*;
use crate::p2p::peer::{transfer_type_number, transfer_type_of, transfer_type_text, TransferType};
use crate::text::{chars_of, decimal, push_all, push_decimal, string_of};
use crate::p2p::transfer::digest::{hex_lower, md5_digest, md5_hex, lemma_hex_no_nul};
use crate::p2p::transfer::proto::{
    answer_bytes, lemma_answer_no_zero, lemma_answer_roundtrip, lemma_metadata_no_zero,
    lemma_metadata_roundtrip, lemma_trailer_no_zero, lemma_trailer_roundtrip, metadata_bytes,
    parse_answer, parse_metadata, parse_trailer, trailer_bytes, ProtoAnswer, ProtoMetadata,
    ProtoTrailer,
};
use crate::p2p::wire::{has_no_nul, has_no_zero, WireError};
use crate::p2p::transfer::jobs::concat_chunks;
use crate::p2p::transfer::reader::HashingReader;
use vstd::utf8::encode_utf8;

verus! {

/// Size of an answer flag on the wire.
pub const ANSWER_SIZE: usize = 2;

/// Size of every handshake packet.
pub const PACKET_SIZE: usize = 1024;

/// Size of the chunks content is hashed in.
pub const HASH_BUFFER_SIZE: usize = 1024;

/// `msg` padded with zero bytes to a whole packet.
pub open spec fn packet_of(msg: Seq<u8>) -> Seq<u8> {
    msg + Seq::new((PACKET_SIZE - msg.len()) as nat, |i: int| 0u8)
}

/// `s` with every zero byte removed.
pub open spec fn drop_zeros(s: Seq<u8>) -> Seq<u8>
    decreases s.len(),
{
    if s.len() == 0 {
        Seq::empty()
    } else if s[0] == 0 {
        drop_zeros(s.drop_first())
    } else {
        seq![s[0]] + drop_zeros(s.drop_first())
    }
}

/// The packet that carries `msg`: `msg` followed by zero bytes up to
/// `PACKET_SIZE`.
pub fn frame_packet(msg: &Vec<u8>) -> (p: Vec<u8>)
    requires
        msg.len() <= PACKET_SIZE,
    ensures
        p@ == packet_of(msg@),
        p@.len() == PACKET_SIZE,
{
    let mut p: Vec<u8> = Vec::new();
    let mut i: usize = 0;
    while i < msg.len()
        invariant
            i <= msg.len(),
            p@ == msg@.take(i as int),
        decreases msg.len() - i,
    {
        p.push(msg[i]);
        i = i + 1;
        assert(msg@.take(i as int) == msg@.take((i - 1) as int).push(msg@[i - 1]));
    }
    assert(msg@.take(msg.len() as int) == msg@);
    while p.len() < PACKET_SIZE
        invariant
            msg.len() <= p.len() <= PACKET_SIZE,
            p@ == msg@ + Seq::new((p.len() - msg.len()) as nat, |i: int| 0u8),
        decreases PACKET_SIZE - p.len(),
    {
        p.push(0u8);
        assert(p@ =~= msg@ + Seq::new((p.len() - msg.len()) as nat, |i: int| 0u8));
    }
    p
}

/// The bytes of `data` that are not zero, in order.
pub fn strip_padding(data: &[u8]) -> (r: Vec<u8>)
    ensures
        r@ == drop_zeros(data@),
{
    let mut r: Vec<u8> = Vec::new();
    let mut i: usize = data.len();
    let ghost mut acc: Seq<u8> = Seq::empty();
    // walk backwards so that each step prepends to the remaining suffix
    let mut rev: Vec<u8> = Vec::new();
    while i > 0
        invariant
            i <= data.len(),
            drop_zeros(data@.skip(i as int)) == rev@.reverse(),
        decreases i,
    {
        i = i - 1;
        let b = data[i];
        assert(data@.skip(i as int).drop_first() =~= data@.skip(i + 1));
        assert(data@.skip(i as int)[0] == b);
        if b != 0 {
            rev.push(b);
            assert(rev@.reverse() =~= seq![b] + rev@.drop_last().reverse());
        }
    }
    assert(data@.skip(0) =~= data@);
    let mut j: usize = rev.len();
    while j > 0
        invariant
            j <= rev.len(),
            r@ == rev@.skip(j as int).reverse(),
        decreases j,
    {
        j = j - 1;
        r.push(rev[j]);
        assert(rev@.skip(j as int).reverse() =~= rev@.skip(j + 1).reverse().push(rev@[j as int]));
    }
    assert(rev@.skip(0) =~= rev@);
    r
}

/// Dropping the zero bytes of a packet gives back a message that holds no
/// zero byte.
pub proof fn law_packet_roundtrip(msg: Seq<u8>)
    requires
        msg.len() <= PACKET_SIZE,
        has_no_zero(msg),
    ensures
        drop_zeros(packet_of(msg)) == msg,
{
    lemma_drop_zeros_concat(msg, Seq::new((PACKET_SIZE - msg.len()) as nat, |i: int| 0u8));
    lemma_drop_zeros_nonzero(msg);
    lemma_drop_zeros_zeros((PACKET_SIZE - msg.len()) as nat);
    assert(msg + Seq::<u8>::empty() =~= msg);
}

proof fn lemma_drop_zeros_concat(a: Seq<u8>, b: Seq<u8>)
    ensures
        drop_zeros(a + b) == drop_zeros(a) + drop_zeros(b),
    decreases a.len(),
{
    if a.len() == 0 {
        assert(a + b =~= b);
        assert(Seq::<u8>::empty() + drop_zeros(b) =~= drop_zeros(b));
    } else {
        assert((a + b).drop_first() =~= a.drop_first() + b);
        lemma_drop_zeros_concat(a.drop_first(), b);
        assert((a + b)[0] == a[0]);
        if a[0] != 0 {
            assert(seq![a[0]] + (drop_zeros(a.drop_first()) + drop_zeros(b)) =~= (seq![a[0]]
                + drop_zeros(a.drop_first())) + drop_zeros(b));
        }
    }
}

proof fn lemma_drop_zeros_nonzero(a: Seq<u8>)
    requires
        has_no_zero(a),
    ensures
        drop_zeros(a) == a,
    decreases a.len(),
{
    if a.len() > 0 {
        assert(a[0] != 0);
        lemma_drop_zeros_nonzero(a.drop_first());
        assert(seq![a[0]] + a.drop_first() =~= a);
    }
}

proof fn lemma_drop_zeros_zeros(n: nat)
    ensures
        drop_zeros(Seq::new(n, |i: int| 0u8)) == Seq::<u8>::empty(),
    decreases n,
{
    if n > 0 {
        let z = Seq::new(n, |i: int| 0u8);
        assert(z.drop_first() =~= Seq::new((n - 1) as nat, |i: int| 0u8));
        lemma_drop_zeros_zeros((n - 1) as nat);
    }
}

/// Collects the bytes of a packet as they arrive from the socket.
pub struct PacketBuffer {
    data: Vec<u8>,
}

impl PacketBuffer {
    /// The bytes received so far.
    pub closed spec fn received(&self) -> Seq<u8> {
        self.data@
    }

    /// An empty buffer.
    pub fn new() -> (b: PacketBuffer)
        ensures
            b.received() == Seq::<u8>::empty(),
    {
        PacketBuffer { data: Vec::new() }
    }

    /// Adds the bytes of one read; true once at least a whole packet has
    /// been received.
    pub fn push_chunk(&mut self, chunk: &[u8]) -> (complete: bool)
        ensures
            final(self).received() == old(self).received() + chunk@,
            complete == (final(self).received().len() >= PACKET_SIZE),
    {
        let mut i: usize = 0;
        while i < chunk.len()
            invariant
                i <= chunk.len(),
                self.data@ == old(self).data@ + chunk@.take(i as int),
            decreases chunk.len() - i,
        {
            self.data.push(chunk[i]);
            i = i + 1;
            assert(chunk@.take(i as int) == chunk@.take((i - 1) as int).push(chunk@[i - 1]));
        }
        assert(chunk@.take(chunk.len() as int) == chunk@);
        self.data.len() >= PACKET_SIZE
    }

    /// The message carried by the received bytes: all of them but the zero
    /// bytes.
    pub fn message(&self) -> (m: Vec<u8>)
        ensures
            m@ == drop_zeros(self.received()),
    {
        strip_padding(self.data.as_slice())
    }
}

/// The offer of a transfer: what is sent, how large it is and its kind.
#[derive(Debug)]
pub struct Metadata {
    pub name: String,
    pub size: usize,
    pub transfer_type: TransferType,
}

/// The transfer type announced by a wire number; an unknown number counts
/// as a file.
pub open spec fn announced_type(n: i32) -> TransferType {
    match transfer_type_of(n) {
        Some(t) => t,
        None => TransferType::File,
    }
}

impl Metadata {
    /// The message bytes announcing this offer.
    pub fn encode(&self) -> (b: Vec<u8>)
        ensures
            b@ == metadata_bytes(
                self.name@,
                self.size as nat,
                transfer_type_number(self.transfer_type),
            ),
    {
        let proto = ProtoMetadata {
            name: self.name.clone(),
            size: self.size as u64,
            transfer_type: self.transfer_type.as_i32(),
        };
        proto.encode()
    }

    /// The packet announcing this offer (the message padded with zero bytes).
    pub fn write(&self) -> (p: Vec<u8>)
        requires
            metadata_bytes(
                self.name@,
                self.size as nat,
                transfer_type_number(self.transfer_type),
            ).len() <= PACKET_SIZE,
        ensures
            p@ == packet_of(
                metadata_bytes(
                    self.name@,
                    self.size as nat,
                    transfer_type_number(self.transfer_type),
                ),
            ),
    {
        frame_packet(&self.encode())
    }

    /// The offer announced by the received packet bytes `data`: the zero
    /// bytes are dropped and the rest is read as a `Metadata` message. The
    /// size is taken as a machine word and an unknown transfer type counts
    /// as a file.
    pub fn read(data: &[u8]) -> (r: Result<Metadata, WireError>)
        ensures
            match parse_metadata(drop_zeros(data@)) {
                Ok(m) => r matches Ok(meta) && meta.name@ == m.0 && meta.size == (m.1 as u64) as usize
                    && meta.transfer_type == announced_type(m.2),
                Err(e) => r matches Err(x) && x == e,
            },
    {
        let msg = strip_padding(data);
        match ProtoMetadata::decode(msg.as_slice()) {
            Ok(p) => {
                let transfer_type = match TransferType::try_from_i32(p.transfer_type) {
                    Some(t) => t,
                    None => TransferType::File,
                };
                Ok(Metadata { name: p.name, size: p.size as usize, transfer_type })
            },
            Err(e) => Err(e),
        }
    }

    /// A description of the offer, one field per line.
    pub fn describe(&self) -> (s: String)
        ensures
            s@ == "Metadata:\n name: "@ + self.name@ + "\n size: "@ + decimal(self.size as nat)
                + "\n type: "@ + transfer_type_text(self.transfer_type) + "\n"@,
    {
        let mut out = chars_of("Metadata:\n name: ");
        push_all(&mut out, &chars_of(self.name.as_str()));
        push_all(&mut out, &chars_of("\n size: "));
        push_decimal(self.size as u64, &mut out);
        push_all(&mut out, &chars_of("\n type: "));
        push_all(&mut out, &chars_of(self.transfer_type.describe()));
        push_all(&mut out, &chars_of("\n"));
        string_of(&out)
    }

    /// A file name for the received content that every system accepts:
    /// the announced name for files and directories, the hexadecimal MD5
    /// digest of the name's UTF-8 bytes for text.
    pub fn get_safe_file_name(&self) -> (n: String)
        ensures
            n@ == (match self.transfer_type {
                TransferType::Text => hex_lower(md5_digest(encode_utf8(self.name@))),
                _ => self.name@,
            }),
            self.transfer_type == TransferType::Text ==> n@.len() == 32,
    {
        match self.transfer_type {
            TransferType::Text => md5_hex(self.name.as_str().as_bytes()),
            _ => self.name.clone(),
        }
    }
}

/// Reading the packet that announces an offer gives the offer back, when
/// its name holds no NUL character and the message fits in a packet.
pub proof fn law_metadata_packet_roundtrip(name: Seq<char>, size: usize, transfer_type: TransferType)
    requires
        has_no_nul(name),
        metadata_bytes(name, size as nat, transfer_type_number(transfer_type)).len() <= PACKET_SIZE,
    ensures
        parse_metadata(
            drop_zeros(packet_of(metadata_bytes(name, size as nat, transfer_type_number(transfer_type)))),
        ) == Ok::<(Seq<char>, nat, i32), WireError>(
            (name, size as nat, transfer_type_number(transfer_type)),
        ),
        announced_type(transfer_type_number(transfer_type)) == transfer_type,
        ((size as nat) as u64) as usize == size,
{
    let m = metadata_bytes(name, size as nat, transfer_type_number(transfer_type));
    lemma_metadata_no_zero(name, size as nat, transfer_type_number(transfer_type));
    law_packet_roundtrip(m);
    assert(encode_utf8(name).len() <= m.len());
    lemma_metadata_roundtrip(name, size as u64, transfer_type_number(transfer_type));
}

/// The receiver's answer: whether it accepts, and the hash it refers to.
#[derive(Debug)]
pub struct Answer;

impl Answer {
    /// The packet carrying an answer.
    pub fn write(accepted: bool, hash: &String) -> (p: Vec<u8>)
        requires
            answer_bytes(accepted, hash@).len() <= PACKET_SIZE,
        ensures
            p@ == packet_of(answer_bytes(accepted, hash@)),
    {
        let proto = ProtoAnswer { accepted, hash: hash.clone() };
        frame_packet(&proto.encode())
    }

    /// Whether the answer in the received packet bytes `data` accepts.
    pub fn read(data: &[u8]) -> (r: Result<bool, WireError>)
        ensures
            match parse_answer(drop_zeros(data@)) {
                Ok(m) => r == Ok::<bool, WireError>(m.0),
                Err(e) => r == Err::<bool, WireError>(e),
            },
    {
        let msg = strip_padding(data);
        match ProtoAnswer::decode(msg.as_slice()) {
            Ok(p) => Ok(p.accepted),
            Err(e) => Err(e),
        }
    }
}

/// Reading the packet of an answer gives the answer back, when its hash
/// holds no NUL character and the message fits in a packet.
pub proof fn law_answer_packet_roundtrip(accepted: bool, hash: Seq<char>)
    requires
        has_no_nul(hash),
        answer_bytes(accepted, hash).len() <= PACKET_SIZE,
    ensures
        parse_answer(drop_zeros(packet_of(answer_bytes(accepted, hash)))) == Ok::<
            (bool, Seq<char>),
            WireError,
        >((accepted, hash)),
{
    lemma_answer_no_zero(accepted, hash);
    law_packet_roundtrip(answer_bytes(accepted, hash));
    lemma_answer_roundtrip(accepted, hash);
}

/// The digest sent after the content of a transfer.
#[derive(Debug)]
pub struct Trailer;

impl Trailer {
    /// The packet carrying a digest.
    pub fn write(hash: &String) -> (p: Vec<u8>)
        requires
            trailer_bytes(hash@).len() <= PACKET_SIZE,
        ensures
            p@ == packet_of(trailer_bytes(hash@)),
    {
        let proto = ProtoTrailer { hash: hash.clone() };
        frame_packet(&proto.encode())
    }

    /// The digest in the received packet bytes `data`.
    pub fn read(data: &[u8]) -> (r: Result<String, WireError>)
        ensures
            match parse_trailer(drop_zeros(data@)) {
                Ok(h) => r matches Ok(s) && s@ == h,
                Err(e) => r matches Err(x) && x == e,
            },
    {
        let msg = strip_padding(data);
        match ProtoTrailer::decode(msg.as_slice()) {
            Ok(p) => Ok(p.hash),
            Err(e) => Err(e),
        }
    }
}

/// Reading the packet of a hexadecimal digest gives the digest back.
pub proof fn law_trailer_packet_roundtrip(digest: Seq<u8>)
    requires
        trailer_bytes(hex_lower(digest)).len() <= PACKET_SIZE,
    ensures
        parse_trailer(drop_zeros(packet_of(trailer_bytes(hex_lower(digest))))) == Ok::<
            Seq<char>,
            WireError,
        >(hex_lower(digest)),
{
    lemma_hex_no_nul(digest);
    lemma_trailer_no_zero(hex_lower(digest));
    law_packet_roundtrip(trailer_bytes(hex_lower(digest)));
    lemma_trailer_roundtrip(hex_lower(digest));
}

/// The lowercase hexadecimal MD5 digest of the content read as `chunks`,
/// one read after another, and the number of bytes read. Every byte read is
/// hashed, in the order read.
pub fn hash_contents(chunks: &Vec<Vec<u8>>) -> (r: (String, u64))
    requires
        concat_chunks(chunks.deep_view()).len() <= u64::MAX,
    ensures
        r.0@ == hex_lower(md5_digest(concat_chunks(chunks.deep_view()))),
        r.0@.len() == 32,
        r.1 == concat_chunks(chunks.deep_view()).len(),
{
    let ghost all = chunks.deep_view();
    let mut total: u64 = 0;
    let mut i: usize = 0;
    while i < chunks.len()
        invariant
            i <= chunks.len(),
            all == chunks.deep_view(),
            concat_chunks(all).len() <= u64::MAX,
            total == concat_chunks(all.take(i as int)).len(),
        decreases chunks.len() - i,
    {
        proof {
            assert(all.take(i + 1).drop_last() == all.take(i as int));
            assert(all.take(i + 1).last() == chunks[i as int]@);
            lemma_concat_prefix_len(all, i + 1);
        }
        total = total + chunks[i].len() as u64;
        i = i + 1;
    }
    proof {
        assert(all.take(chunks.len() as int) == all);
    }
    let mut hasher = HashingReader::new(());
    hasher.observe_all(chunks);
    (hasher.finish(), total)
}

proof fn lemma_concat_prefix_len(bs: Seq<Seq<u8>>, k: int)
    requires
        0 <= k <= bs.len(),
    ensures
        concat_chunks(bs.take(k)).len() <= concat_chunks(bs).len(),
    decreases bs.len() - k,
{
    if k < bs.len() {
        lemma_concat_prefix_len(bs, k + 1);
        assert(bs.take(k + 1).drop_last() == bs.take(k));
    } else {
        assert(bs.take(k) == bs);
    }
}

} // verus!
