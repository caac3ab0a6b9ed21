//! The digest computer: SHA-256 over a stream of content chunks, delivered
//! as a lowercase hexadecimal string. The hash itself comes from the sha2
//! crate and its value is only named, never restated; the hex spelling is
//! pinned down exactly.

use vstd::prelude::*;
use sha2::Digest;

verus! {

/// The lowercase hexadecimal digit for a value below sixteen.
pub open spec fn hex_digit(n: int) -> char {
    if n == 0 { '0' }
    else if n == 1 { '1' }
    else if n == 2 { '2' }
    else if n == 3 { '3' }
    else if n == 4 { '4' }
    else if n == 5 { '5' }
    else if n == 6 { '6' }
    else if n == 7 { '7' }
    else if n == 8 { '8' }
    else if n == 9 { '9' }
    else if n == 10 { 'a' }
    else if n == 11 { 'b' }
    else if n == 12 { 'c' }
    else if n == 13 { 'd' }
    else if n == 14 { 'e' }
    else { 'f' }
}

/// The lowercase hexadecimal spelling of a byte string: two digits per
/// byte, high nibble first.
pub open spec fn spec_hex(b: Seq<u8>) -> Seq<char> {
    Seq::new(
        b.len() * 2,
        |i: int| if i % 2 == 0 {
            hex_digit((b[i / 2] as int) / 16)
        } else {
            hex_digit((b[i / 2] as int) % 16)
        },
    )
}

/// Streaming SHA-256 state; what it has been fed so far is only visible to
/// the verifier as `digest_fed`.
#[verifier::external_body]
pub struct DigestState {
    inner: sha2::Sha256,
}

pub uninterp spec fn digest_fed(h: DigestState) -> Seq<u8>;

pub uninterp spec fn sha256_of(data: Seq<u8>) -> Seq<u8>;

/// Relies on sha2::Sha256::new (through the Digest trait): a hasher that
/// has seen no input yet.
#[verifier::external_body]
fn digest_new() -> (h: DigestState)
    ensures
        digest_fed(h) == Seq::<u8>::empty(),
{
    DigestState { inner: sha2::Sha256::new() }
}

/// Relies on sha2::Sha256::update (through the Digest trait): appends the
/// given bytes to the input seen so far.
#[verifier::external_body]
fn digest_update(h: &mut DigestState, data: &[u8])
    ensures
        digest_fed(*final(h)) == digest_fed(*old(h)) + data@,
{
    h.inner.update(data);
}

/// Relies on sha2::Sha256::finalize (through the Digest trait): the
/// 32-byte SHA-256 digest of all input fed, a function of those bytes
/// alone.
#[verifier::external_body]
fn digest_finish(h: DigestState) -> (r: Vec<u8>)
    ensures
        r@ == sha256_of(digest_fed(h)),
        r@.len() == 32,
{
    h.inner.finalize().to_vec()
}

/// Relies on hex::encode: each byte becomes two lowercase hexadecimal
/// digits, high nibble first.
#[verifier::external_body]
fn hex_encode(b: &[u8]) -> (r: String)
    ensures
        r@ == spec_hex(b@),
{
    hex::encode(b)
}

/// A streaming SHA-256 computation: feed the content in chunks of any
/// size, then take the digest as a lowercase hex string.
pub struct Hasher {
    st: DigestState,
}

impl Hasher {
    /// The input fed so far.
    pub closed spec fn fed(&self) -> Seq<u8> {
        digest_fed(self.st)
    }

    /// A hasher that has seen no input.
    pub fn new() -> (h: Hasher)
        ensures
            h.fed() == Seq::<u8>::empty(),
    {
        Hasher { st: digest_new() }
    }

    /// Feeds the next chunk of content.
    pub fn update(&mut self, data: &[u8])
        ensures
            final(self).fed() == old(self).fed() + data@,
    {
        digest_update(&mut self.st, data)
    }

    /// The digest of everything fed, as a lowercase hex string.
    pub fn finish_hex(self) -> (r: String)
        ensures
            r@ == spec_hex(sha256_of(self.fed())),
    {
        let bytes = digest_finish(self.st);
        hex_encode(bytes.as_slice())
    }
}

/// The SHA-256 digest of a byte string in one call, as a lowercase hex
/// string.
pub fn sha256_hex(data: &[u8]) -> (r: String)
    ensures
        r@ == spec_hex(sha256_of(data@)),
{
    let mut h = Hasher::new();
    h.update(data);
    proof {
        assert(h.fed() =~= data@);
    }
    h.finish_hex()
}

} // verus!
