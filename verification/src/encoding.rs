//! Bytes as text: hexadecimal, base64 and digests, computed by outside crates.

use base64::Engine;
use sha1::Digest;
use vstd::prelude::*;
use crate::text;

verus! {

/// The bytes as lower-case hexadecimal, two digits each.
pub open spec fn hex_text(data: Seq<u8>) -> Seq<char> {
    Seq::new(
        2 * data.len(),
        |i: int|
            if i % 2 == 0 {
                text::digit_char((data[i / 2] / 16) as int)
            } else {
                text::digit_char((data[i / 2] % 16) as int)
            },
    )
}

/// Whether a character is a hexadecimal digit of either case.
pub open spec fn is_hex_digit(c: char) -> bool {
    text::digit_value(c) is Some && text::digit_value(c)->0 < 16
}

/// The bytes that hexadecimal text stands for: an even number of digits of either case.
pub open spec fn hex_bytes(s: Seq<char>) -> Option<Seq<u8>> {
    if s.len() % 2 == 0 && forall|i: int| 0 <= i < s.len() ==> is_hex_digit(#[trigger] s[i]) {
        Some(
            Seq::new(
                s.len() / 2,
                |i: int|
                    (text::digit_value(s[2 * i])->0 * 16 + text::digit_value(s[2 * i + 1])->0) as u8,
            ),
        )
    } else {
        None
    }
}

/// The base64 text of bytes, in the standard alphabet with padding.
pub uninterp spec fn base64_text(data: Seq<u8>) -> Seq<char>;

/// The bytes that base64 text stands for, or what is wrong with it.
pub uninterp spec fn base64_result(s: Seq<char>) -> Result<Seq<u8>, Seq<char>>;

/// The bytes that base64 text stands for, where it is valid.
pub open spec fn base64_bytes(s: Seq<char>) -> Option<Seq<u8>> {
    match base64_result(s) {
        Ok(bytes) => Some(bytes),
        Err(_) => None,
    }
}

/// The SHA-1 digest of bytes.
pub uninterp spec fn sha1_of(data: Seq<u8>) -> Seq<u8>;

/// The SHA-256 digest of bytes.
pub uninterp spec fn sha256_of(data: Seq<u8>) -> Seq<u8>;

/// `hex::encode` writes each byte as two lower-case hexadecimal digits.
#[verifier::external_body]
pub(crate) fn hex_encode(data: &[u8]) -> (r: String)
    ensures
        r@ == hex_text(data@),
{
    hex::encode(data)
}

/// `hex::decode` reads pairs of hexadecimal digits of either case; it fails on an odd number of
/// characters and on any other character.
#[verifier::external_body]
pub(crate) fn hex_decode(s: &str) -> (r: Option<Vec<u8>>)
    ensures
        r is Some == hex_bytes(s@) is Some,
        r matches Some(v) ==> v@ == hex_bytes(s@)->0,
{
    hex::decode(s).ok()
}

/// `base64::engine::general_purpose::STANDARD.encode` gives the base64 text of its bytes, and
/// decoding that text gives the bytes back.
#[verifier::external_body]
pub(crate) fn base64_encode(data: &[u8]) -> (r: String)
    ensures
        r@ == base64_text(data@),
        base64_bytes(r@) == Some(data@),
{
    base64::engine::general_purpose::STANDARD.encode(data)
}

/// `base64::engine::general_purpose::STANDARD.decode` gives the bytes of base64 text, or an error
/// whose sentence says what is wrong with it.
#[verifier::external_body]
pub(crate) fn base64_decode(s: &str) -> (r: Result<Vec<u8>, String>)
    ensures
        match (r, base64_result(s@)) {
            (Ok(v), Ok(bytes)) => v@ == bytes,
            (Err(e), Err(f)) => e@ == f,
            _ => false,
        },
{
    base64::engine::general_purpose::STANDARD.decode(s).map_err(|e| e.to_string())
}

/// `sha2::Sha256::digest` gives the thirty-two bytes of the SHA-256 digest.
#[verifier::external_body]
pub(crate) fn sha256_digest(data: &[u8]) -> (r: Vec<u8>)
    ensures
        r@ == sha256_of(data@),
        r@.len() == 32,
{
    sha2::Sha256::digest(data).to_vec()
}

/// A SHA-256 state that takes its bytes piece by piece. It holds a `sha2::Sha256`, whose generic
/// form cannot be declared on its own.
#[verifier::external_body]
pub struct Sha256Stream {
    state: sha2::Sha256,
}

/// The bytes that a stream has taken so far, in order.
pub uninterp spec fn fed(stream: Sha256Stream) -> Seq<u8>;

/// `sha2::Sha256::new` gives a state that has taken nothing.
#[verifier::external_body]
pub(crate) fn sha256_stream() -> (r: Sha256Stream)
    ensures
        fed(r) == Seq::<u8>::empty(),
{
    Sha256Stream { state: sha2::Sha256::new() }
}

/// `sha2::Sha256::update` takes the given bytes after those it has taken before.
#[verifier::external_body]
pub(crate) fn sha256_update(stream: &mut Sha256Stream, data: &[u8])
    ensures
        fed(*final(stream)) == fed(*old(stream)) + data@,
{
    stream.state.update(data);
}

/// `sha2::Sha256::finalize` gives the digest of all the bytes that were taken.
#[verifier::external_body]
pub(crate) fn sha256_finish(stream: Sha256Stream) -> (r: Vec<u8>)
    ensures
        r@ == sha256_of(fed(stream)),
        r@.len() == 32,
{
    stream.state.finalize().to_vec()
}

/// A SHA-1 state that takes its bytes piece by piece. It holds a `sha1::Sha1`, whose generic form
/// cannot be declared on its own.
#[verifier::external_body]
pub struct Sha1Stream {
    state: sha1::Sha1,
}

/// The bytes that a SHA-1 stream has taken so far, in order.
pub uninterp spec fn sha1_fed(stream: Sha1Stream) -> Seq<u8>;

/// `sha1::Sha1::new` gives a state that has taken nothing.
#[verifier::external_body]
fn sha1_stream() -> (r: Sha1Stream)
    ensures
        sha1_fed(r) == Seq::<u8>::empty(),
{
    Sha1Stream { state: sha1::Sha1::new() }
}

/// `sha1::Sha1::update` takes the given bytes after those it has taken before.
#[verifier::external_body]
fn sha1_update(stream: &mut Sha1Stream, data: &[u8])
    ensures
        sha1_fed(*final(stream)) == sha1_fed(*old(stream)) + data@,
{
    stream.state.update(data);
}

/// `sha1::Sha1::finalize` gives the digest of all the bytes that were taken.
#[verifier::external_body]
fn sha1_finish(stream: Sha1Stream) -> (r: Vec<u8>)
    ensures
        r@ == sha1_of(sha1_fed(stream)),
        r@.len() == 20,
{
    stream.state.finalize().to_vec()
}

/// The SHA-1 digest of a file that is read piece by piece, with its length.
pub struct FileDigest {
    stream: Sha1Stream,
    length: u64,
}

impl FileDigest {
    /// The bytes taken so far.
    pub closed spec fn bytes(&self) -> Seq<u8> {
        sha1_fed(self.stream)
    }

    /// Whether the length is that of the bytes, as far as 64 bits hold it.
    pub closed spec fn wf(&self) -> bool {
        self.length == (if self.bytes().len() > u64::MAX {
            u64::MAX as int
        } else {
            self.bytes().len() as int
        })
    }

    /// The digest of an empty file.
    pub fn new() -> (r: FileDigest)
        ensures
            r.wf(),
            r.bytes() == Seq::<u8>::empty(),
    {
        FileDigest { stream: sha1_stream(), length: 0 }
    }

    /// Takes the next piece of the file.
    pub fn feed(&mut self, data: &[u8])
        requires
            old(self).wf(),
        ensures
            final(self).wf(),
            final(self).bytes() == old(self).bytes() + data@,
    {
        sha1_update(&mut self.stream, data);
        self.length = self.length.saturating_add(data.len() as u64);
    }

    /// The digest in hexadecimal, and the length.
    pub fn finish(self) -> (r: (String, u64))
        requires
            self.wf(),
        ensures
            r.0@ == hex_text(sha1_of(self.bytes())),
            self.bytes().len() <= u64::MAX ==> r.1 == self.bytes().len(),
    {
        (hex_encode(sha1_finish(self.stream).as_slice()), self.length)
    }
}

/// The first bytes of a PNG picture.
pub open spec fn png_signature() -> Seq<u8> {
    seq![0x89u8, 0x50, 0x4e, 0x47, 0x0d, 0x0a, 0x1a, 0x0a]
}

/// Whether bytes begin like a PNG picture.
pub open spec fn is_png(bytes: Seq<u8>) -> bool {
    bytes.len() >= 8 && bytes.take(8) == png_signature()
}

/// Whether bytes begin like a PNG picture.
pub fn starts_like_png(bytes: &[u8]) -> (r: bool)
    ensures
        r == is_png(bytes@),
{
    if bytes.len() < 8 {
        return false;
    }
    let r = bytes[0] == 0x89 && bytes[1] == 0x50 && bytes[2] == 0x4e && bytes[3] == 0x47 && bytes[4]
        == 0x0d && bytes[5] == 0x0a && bytes[6] == 0x1a && bytes[7] == 0x0a;
    proof {
        let first = bytes@.take(8);
        let want = png_signature();
        if r {
            assert(first =~= want);
        } else {
            assert(first[0] == bytes@[0] && first[1] == bytes@[1] && first[2] == bytes@[2]
                && first[3] == bytes@[3] && first[4] == bytes@[4] && first[5] == bytes@[5]
                && first[6] == bytes@[6] && first[7] == bytes@[7]);
            assert(want[0] == 0x89 && want[1] == 0x50 && want[2] == 0x4e && want[3] == 0x47
                && want[4] == 0x0d && want[5] == 0x0a && want[6] == 0x1a && want[7] == 0x0a);
        }
    }
    r
}

/// The SHA-256 digest of a file that is read piece by piece, with its length.
pub struct StateDigest {
    stream: Sha256Stream,
    length: u64,
}

impl StateDigest {
    /// The bytes taken so far.
    pub closed spec fn bytes(&self) -> Seq<u8> {
        fed(self.stream)
    }

    /// Whether the length is that of the bytes.
    pub closed spec fn wf(&self) -> bool {
        self.length == self.bytes().len()
    }

    /// The digest of an empty file.
    pub fn new() -> (r: StateDigest)
        ensures
            r.wf(),
            r.bytes() == Seq::<u8>::empty(),
    {
        StateDigest { stream: sha256_stream(), length: 0 }
    }

    /// Takes the next piece of the file, where its length can still be told.
    pub fn feed(&mut self, data: &[u8]) -> (r: bool)
        requires
            old(self).wf(),
        ensures
            final(self).wf(),
            r == (old(self).bytes().len() + data@.len() <= u64::MAX),
            final(self).bytes() == (if r {
                old(self).bytes() + data@
            } else {
                old(self).bytes()
            }),
    {
        match self.length.checked_add(data.len() as u64) {
            Some(length) => {
                sha256_update(&mut self.stream, data);
                self.length = length;
                true
            },
            None => false,
        }
    }

    /// The length, and the digest in hexadecimal.
    pub fn finish(self) -> (r: (u64, String))
        requires
            self.wf(),
        ensures
            r.0 == self.bytes().len(),
            r.1@ == hex_text(sha256_of(self.bytes())),
    {
        (self.length, hex_encode(sha256_finish(self.stream).as_slice()))
    }
}

/// Decoding what encoding wrote gives the bytes back.
pub proof fn hex_round_trip(data: Seq<u8>)
    ensures
        hex_bytes(hex_text(data)) == Some(data),
{
    let s = hex_text(data);
    assert forall|i: int| 0 <= i < s.len() implies is_hex_digit(#[trigger] s[i]) by {
        let b = data[i / 2];
        assert(0 <= b / 16 < 16 && 0 <= b % 16 < 16);
    }
    let back = hex_bytes(s)->0;
    assert forall|i: int| 0 <= i < data.len() implies back[i] == data[i] by {
        assert(s[2 * i] == text::digit_char((data[i] / 16) as int));
        assert(s[2 * i + 1] == text::digit_char((data[i] % 16) as int));
    }
    assert(back =~= data);
}

} // verus!
