//! MD5 digests (md-5 crate) and their lowercase hexadecimal form (hex
//! crate), as used to name text transfers and to check transferred
//! content.

use vstd::prelude::*;
use md5::Digest;

verus! {

/// The MD5 digest of `data`: sixteen bytes.
pub uninterp spec fn md5_digest(data: Seq<u8>) -> Seq<u8>;

/// A running MD5 computation (md-5's `Md5`), kept opaque. `Md5` is an alias
/// of the `digest` crate's generic `CoreWrapper`, which cannot be declared
/// as an outside type, so the state is held in this struct and the bytes fed
/// into it are named by `md5_input`.
#[verifier::external_body]
pub struct Md5State {
    state: md5::Md5,
}

/// The bytes fed into a running MD5 computation so far.
pub uninterp spec fn md5_input(state: Md5State) -> Seq<u8>;

/// Starts an MD5 computation (`Md5::new`): nothing has been fed yet.
#[verifier::external_body]
pub(crate) fn md5_new() -> (s: Md5State)
    ensures
        md5_input(s) == Seq::<u8>::empty(),
{
    Md5State { state: md5::Md5::new() }
}

/// Feeds `data` into an MD5 computation (`Digest::update`): the input grows
/// by `data`.
#[verifier::external_body]
pub(crate) fn md5_update(s: &mut Md5State, data: &[u8])
    ensures
        md5_input(*final(s)) == md5_input(*old(s)) + data@,
{
    s.state.update(data)
}

/// Ends an MD5 computation (`Digest::finalize`): the digest of all bytes
/// fed into it, sixteen bytes long.
#[verifier::external_body]
pub(crate) fn md5_finalize(s: Md5State) -> (d: Vec<u8>)
    ensures
        d@ == md5_digest(md5_input(s)),
        d@.len() == 16,
{
    s.state.finalize().to_vec()
}

/// The lowercase hexadecimal digit for `d < 16`.
pub open spec fn hex_digit(d: nat) -> char {
    if d < 10 {
        ((48 + d) as u32) as char
    } else {
        ((87 + d) as u32) as char
    }
}

/// Two lowercase hexadecimal digits per byte, high nibble first.
pub open spec fn hex_lower(data: Seq<u8>) -> Seq<char>
    decreases data.len(),
{
    if data.len() == 0 {
        Seq::empty()
    } else {
        seq![hex_digit((data[0] / 16) as nat), hex_digit((data[0] % 16) as nat)] + hex_lower(
            data.drop_first(),
        )
    }
}

/// The lowercase hexadecimal form of `data` (hex's `encode`: two digits from
/// `0123456789abcdef` per byte, high nibble first).
#[verifier::external_body]
pub(crate) fn hex_encode(data: &[u8]) -> (s: String)
    ensures
        s@ == hex_lower(data@),
{
    hex::encode(data)
}

/// The hexadecimal MD5 digest of `data`.
pub fn md5_hex(data: &[u8]) -> (s: String)
    ensures
        s@ == hex_lower(md5_digest(data@)),
        s@.len() == 32,
{
    let mut state = md5_new();
    md5_update(&mut state, data);
    assert(md5_input(state) == Seq::<u8>::empty() + data@);
    assert(Seq::<u8>::empty() + data@ =~= data@);
    let d = md5_finalize(state);
    proof {
        lemma_hex_no_nul(d@);
    }
    hex_encode(d.as_slice())
}

/// A hexadecimal form holds no NUL character.
pub proof fn lemma_hex_no_nul(data: Seq<u8>)
    ensures
        forall|i: int| 0 <= i < hex_lower(data).len() ==> hex_lower(data)[i] != '\0',
        hex_lower(data).len() == 2 * data.len(),
    decreases data.len(),
{
    if data.len() > 0 {
        lemma_hex_no_nul(data.drop_first());
        let h = seq![hex_digit((data[0] / 16) as nat), hex_digit((data[0] % 16) as nat)];
        let t = hex_lower(data.drop_first());
        assert(hex_digit((data[0] / 16) as nat) != '\0');
        assert(hex_digit((data[0] % 16) as nat) != '\0');
        assert forall|i: int| 0 <= i < (h + t).len() implies (h + t)[i] != '\0' by {
            if i >= 2 {
                assert((h + t)[i] == t[i - 2]);
            }
        }
    }
}

} // verus!
