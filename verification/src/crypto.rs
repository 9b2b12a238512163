//! SHA-256 checksums of model artifacts, streamed chunk by chunk.

use crate::text::{eq_ignore_ascii_case, same_ignoring_case};
use vstd::prelude::*;
use vstd::string::*;

verus! {

/// The SHA-256 digest of `data`, as computed by the `sha2` crate: 32 bytes.
/// Nothing else is claimed of it here.
pub uninterp spec fn spec_sha256(data: Seq<u8>) -> Seq<u8>;

/// A running SHA-256 computation of the `sha2` crate.
///
/// Trusted: the hasher's type is built from traits and type-level numbers that
/// cannot be declared to the verifier, so the value is held opaquely.
#[verifier::external_body]
pub struct Sha256Stream {
    inner: sha2::Sha256,
}

/// The bytes that a running computation has been fed, in order.
pub uninterp spec fn absorbed(stream: Sha256Stream) -> Seq<u8>;

/// The hexadecimal digit of a number below 16, in lowercase.
pub open spec fn hex_digit(n: int) -> char {
    seq!['0', '1', '2', '3', '4', '5', '6', '7', '8', '9', 'a', 'b', 'c', 'd', 'e', 'f'][n]
}

/// The lowercase hexadecimal form of `bytes`: two digits for each byte, the
/// high half first.
pub open spec fn hex_lower(bytes: Seq<u8>) -> Seq<char> {
    Seq::new(
        2 * bytes.len(),
        |i: int|
            if i % 2 == 0 {
                hex_digit(bytes[i / 2] as int / 16)
            } else {
                hex_digit(bytes[i / 2] as int % 16)
            },
    )
}

/// The digest of `data` as text: lowercase hexadecimal.
pub open spec fn digest_text(data: Seq<u8>) -> Seq<char> {
    hex_lower(spec_sha256(data))
}

/// Starts a SHA-256 computation.
///
/// Trusted: calls `sha2::Digest::new` for `sha2::Sha256`. The contract claims
/// that a new hasher has been fed nothing.
#[verifier::external_body]
fn sha256_start() -> (stream: Sha256Stream)
    ensures
        absorbed(stream) == Seq::<u8>::empty(),
{
    Sha256Stream { inner: sha2::Digest::new() }
}

/// Feeds `data` to a SHA-256 computation.
///
/// Trusted: calls `sha2::Digest::update`. The contract claims that the hasher
/// has then been fed what it had been fed before, followed by `data`.
#[verifier::external_body]
fn sha256_update(stream: &mut Sha256Stream, data: &[u8])
    ensures
        absorbed(*final(stream)) == absorbed(*old(stream)) + data@,
{
    sha2::Digest::update(&mut stream.inner, data);
}

/// Ends a SHA-256 computation and gives the digest.
///
/// Trusted: calls `sha2::Digest::finalize`. The contract claims that the
/// result is the SHA-256 digest of all that the hasher was fed, 32 bytes.
#[verifier::external_body]
fn sha256_finalize(stream: Sha256Stream) -> (digest: Vec<u8>)
    ensures
        digest@ == spec_sha256(absorbed(stream)),
        digest@.len() == 32,
{
    sha2::Digest::finalize(stream.inner).to_vec()
}

/// The lowercase hexadecimal form of `bytes`.
///
/// Trusted: calls `hex::encode`. The contract claims what its source shows:
/// each byte becomes two digits of `0123456789abcdef`, the high half first.
#[verifier::external_body]
fn hex_encode(bytes: &[u8]) -> (text: String)
    ensures
        text@ == hex_lower(bytes@),
{
    hex::encode(bytes)
}

/// The checksum of a stream of bytes that arrives in chunks.
pub struct Checksum {
    stream: Sha256Stream,
}

impl View for Checksum {
    type V = Seq<u8>;

    /// The bytes absorbed so far.
    closed spec fn view(&self) -> Seq<u8> {
        absorbed(self.stream)
    }
}

impl Checksum {
    /// The checksum of no bytes yet.
    pub fn new() -> (checksum: Checksum)
        ensures
            checksum@ == Seq::<u8>::empty(),
    {
        Checksum { stream: sha256_start() }
    }

    /// Takes in the next chunk.
    pub fn absorb(&mut self, chunk: &[u8])
        ensures
            final(self)@ == old(self)@ + chunk@,
    {
        sha256_update(&mut self.stream, chunk);
    }

    /// The digest of all absorbed bytes, in lowercase hexadecimal: 64 digits.
    pub fn finish(self) -> (text: String)
        ensures
            text@ == digest_text(self@),
            text@.len() == 64,
    {
        let digest = sha256_finalize(self.stream);
        hex_encode(digest.as_slice())
    }

    /// Whether the digest of all absorbed bytes is `expected_hex`, whatever
    /// the case of its letters.
    pub fn matches(self, expected_hex: &str) -> (same: bool)
        ensures
            same == same_ignoring_case(digest_text(self@), expected_hex@),
    {
        let text = self.finish();
        eq_ignore_ascii_case(text.as_str(), expected_hex)
    }
}

/// Whether the SHA-256 digest of `data` is `expected_hex`, whatever the case
/// of its letters.
pub fn verify_sha256(data: &[u8], expected_hex: &str) -> (same: bool)
    ensures
        same == same_ignoring_case(digest_text(data@), expected_hex@),
{
    let mut checksum = Checksum::new();
    checksum.absorb(data);
    assert(Seq::<u8>::empty() + data@ =~= data@);
    checksum.matches(expected_hex)
}

} // verus!
