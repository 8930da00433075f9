//! SHA-256 digests: computing one over a stream of chunks and writing it in hex.
use vstd::prelude::*;
use sha2::Digest;
use crate::text::push_char;

verus! {

/// A running SHA-256 computation. The hasher type of `sha2` is a generic
/// alias that cannot be declared directly, so it is held here.
#[verifier::external_body]
pub struct Sha256Stream {
    inner: sha2::Sha256,
}

/// The bytes that a stream has taken in so far.
pub uninterp spec fn absorbed(h: Sha256Stream) -> Seq<u8>;

/// The SHA-256 digest of a byte sequence.
pub uninterp spec fn sha256_of(data: Seq<u8>) -> Seq<u8>;

/// Relies on `sha2::Sha256::new`: a hasher that has taken in nothing.
#[verifier::external_body]
fn stream_new() -> (r: Sha256Stream)
    ensures
        absorbed(r) == Seq::<u8>::empty(),
{
    Sha256Stream { inner: sha2::Sha256::new() }
}

/// Relies on `sha2::Sha256::update`: `data` is appended to what was taken in.
#[verifier::external_body]
fn stream_update(h: &mut Sha256Stream, data: &[u8])
    ensures
        absorbed(*final(h)) == absorbed(*old(h)) + data@,
{
    h.inner.update(data);
}

/// Relies on `sha2::Sha256::finalize`: the 32-byte digest of what was taken in.
#[verifier::external_body]
fn stream_finalize(h: Sha256Stream) -> (r: Vec<u8>)
    ensures
        r@ == sha256_of(absorbed(h)),
        r@.len() == 32,
{
    h.inner.finalize().to_vec()
}

pub open spec fn hex_digit(d: nat) -> char {
    if d < 10 {
        (('0' as u8) + d) as char
    } else {
        (('a' as u8) + (d - 10)) as char
    }
}

/// Two lower-case hexadecimal digits per byte, high nibble first.
pub open spec fn hex_of(b: Seq<u8>) -> Seq<char>
    decreases b.len(),
{
    if b.len() == 0 {
        seq![]
    } else {
        hex_of(b.drop_last()).push(hex_digit((b.last() / 16) as nat)).push(
            hex_digit((b.last() % 16) as nat),
        )
    }
}

fn hex_char(d: u8) -> (r: char)
    requires
        d < 16,
    ensures
        r == hex_digit(d as nat),
{
    if d < 10 {
        (('0' as u8) + d) as char
    } else {
        (('a' as u8) + (d - 10)) as char
    }
}

/// Writes bytes as lower-case hexadecimal.
pub fn to_hex(b: &[u8]) -> (r: String)
    ensures
        r@ == hex_of(b@),
{
    let mut s = String::new();
    let mut i: usize = 0;
    while i < b.len()
        invariant
            i <= b@.len(),
            s@ == hex_of(b@.subrange(0, i as int)),
        decreases b@.len() - i,
    {
        let x = b[i];
        push_char(&mut s, hex_char(x / 16));
        push_char(&mut s, hex_char(x % 16));
        proof {
            assert(b@.subrange(0, i + 1).drop_last() =~= b@.subrange(0, i as int));
        }
        i += 1;
    }
    assert(b@.subrange(0, i as int) =~= b@);
    s
}

impl Sha256Stream {
    /// A stream that has taken in nothing.
    pub fn new() -> (r: Sha256Stream)
        ensures
            absorbed(r) == Seq::<u8>::empty(),
    {
        stream_new()
    }

    /// Takes in one chunk.
    pub fn update(&mut self, chunk: &[u8])
        ensures
            absorbed(*final(self)) == absorbed(*old(self)) + chunk@,
    {
        stream_update(self, chunk)
    }

    /// The digest of everything taken in, as 64 lower-case hex digits.
    pub fn finish_hex(self) -> (r: String)
        ensures
            r@ == hex_of(sha256_of(absorbed(self))),
    {
        let d = stream_finalize(self);
        to_hex(d.as_slice())
    }
}

} // verus!
