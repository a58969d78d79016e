//! Hashing of text with a choice of algorithms, and the encodings of a
//! digest.
//!
//! A hasher is the algorithm and the bytes fed to it so far; its digest is
//! the hash of those bytes, which the hash functions compute the same way
//! whether the bytes were fed at once or in pieces.

use vstd::prelude::*;

use crate::text::{chars_eq_str, str_chars, string_from_utf8};
use vstd::utf8::{decode_utf8, encode_utf8, valid_utf8};

verus! {

// ---------------------------------------------------------------------
// Hash functions

/// The SHA-1 hash of some bytes.
pub uninterp spec fn spec_sha1(data: Seq<u8>) -> Seq<u8>;

/// The SHA-256 hash of some bytes.
pub uninterp spec fn spec_sha256(data: Seq<u8>) -> Seq<u8>;

/// The SHA-512 hash of some bytes.
pub uninterp spec fn spec_sha512(data: Seq<u8>) -> Seq<u8>;

/// The MD5 hash of some bytes.
pub uninterp spec fn spec_md5(data: Seq<u8>) -> Seq<u8>;

/// The BLAKE2s-256 hash of some bytes.
pub uninterp spec fn spec_blake2s256(data: Seq<u8>) -> Seq<u8>;

/// The BLAKE2b-512 hash of some bytes.
pub uninterp spec fn spec_blake2b512(data: Seq<u8>) -> Seq<u8>;

/// The SHA3-256 hash of some bytes.
pub uninterp spec fn spec_sha3_256(data: Seq<u8>) -> Seq<u8>;

/// The SHA3-512 hash of some bytes.
pub uninterp spec fn spec_sha3_512(data: Seq<u8>) -> Seq<u8>;

/// The SHA-1 hash of `data`.
///
/// Trusted: calls `Digest::digest` of `sha1::Sha1`, which hashes `data` and
/// depends on it alone; the output is 20 bytes.
#[verifier::external_body]
fn sha1_digest(data: &[u8]) -> (r: Vec<u8>)
    ensures
        r@ == spec_sha1(data@),
        r@.len() == 20,
{
    <sha1::Sha1 as digest::Digest>::digest(data).to_vec()
}

/// The SHA-256 hash of `data`.
///
/// Trusted: calls `Digest::digest` of `sha2::Sha256`; the output is 32 bytes.
#[verifier::external_body]
fn sha256_digest(data: &[u8]) -> (r: Vec<u8>)
    ensures
        r@ == spec_sha256(data@),
        r@.len() == 32,
{
    <sha2::Sha256 as digest::Digest>::digest(data).to_vec()
}

/// The SHA-512 hash of `data`.
///
/// Trusted: calls `Digest::digest` of `sha2::Sha512`; the output is 64 bytes.
#[verifier::external_body]
fn sha512_digest(data: &[u8]) -> (r: Vec<u8>)
    ensures
        r@ == spec_sha512(data@),
        r@.len() == 64,
{
    <sha2::Sha512 as digest::Digest>::digest(data).to_vec()
}

/// The MD5 hash of `data`.
///
/// Trusted: calls `Digest::digest` of `md5::Md5`; the output is 16 bytes.
#[verifier::external_body]
fn md5_digest(data: &[u8]) -> (r: Vec<u8>)
    ensures
        r@ == spec_md5(data@),
        r@.len() == 16,
{
    <md5::Md5 as digest::Digest>::digest(data).to_vec()
}

/// The BLAKE2s-256 hash of `data`.
///
/// Trusted: calls `Digest::digest` of `blake2::Blake2s256`; the output is
/// 32 bytes.
#[verifier::external_body]
fn blake2s256_digest(data: &[u8]) -> (r: Vec<u8>)
    ensures
        r@ == spec_blake2s256(data@),
        r@.len() == 32,
{
    <blake2::Blake2s256 as digest::Digest>::digest(data).to_vec()
}

/// The BLAKE2b-512 hash of `data`.
///
/// Trusted: calls `Digest::digest` of `blake2::Blake2b512`; the output is
/// 64 bytes.
#[verifier::external_body]
fn blake2b512_digest(data: &[u8]) -> (r: Vec<u8>)
    ensures
        r@ == spec_blake2b512(data@),
        r@.len() == 64,
{
    <blake2::Blake2b512 as digest::Digest>::digest(data).to_vec()
}

/// The SHA3-256 hash of `data`.
///
/// Trusted: calls `Digest::digest` of `sha3::Sha3_256`; the output is 32
/// bytes.
#[verifier::external_body]
fn sha3_256_digest(data: &[u8]) -> (r: Vec<u8>)
    ensures
        r@ == spec_sha3_256(data@),
        r@.len() == 32,
{
    <sha3::Sha3_256 as digest::Digest>::digest(data).to_vec()
}

/// The SHA3-512 hash of `data`.
///
/// Trusted: calls `Digest::digest` of `sha3::Sha3_512`; the output is 64
/// bytes.
#[verifier::external_body]
fn sha3_512_digest(data: &[u8]) -> (r: Vec<u8>)
    ensures
        r@ == spec_sha3_512(data@),
        r@.len() == 64,
{
    <sha3::Sha3_512 as digest::Digest>::digest(data).to_vec()
}

// ---------------------------------------------------------------------
// Encodings

/// The lowercase hexadecimal digit of a number below 16.
pub open spec fn hex_digit(n: int) -> char {
    if n < 10 {
        (48 + n) as char
    } else {
        (87 + n) as char
    }
}

/// Bytes as lowercase hexadecimal, two digits per byte.
pub open spec fn hex_lower(b: Seq<u8>) -> Seq<char>
    decreases b.len(),
{
    if b.len() == 0 {
        seq![]
    } else {
        hex_lower(b.drop_last()) + seq![hex_digit(b.last() as int / 16), hex_digit(b.last() as int % 16)]
    }
}

/// The character of a 6-bit value in the standard base64 alphabet.
pub open spec fn b64_char(n: int) -> char {
    if n < 26 {
        (65 + n) as char
    } else if n < 52 {
        (71 + n) as char
    } else if n < 62 {
        (n - 4) as char
    } else if n == 62 {
        '+'
    } else {
        '/'
    }
}

/// Bytes in standard base64, with `=` padding.
pub open spec fn base64_std(b: Seq<u8>) -> Seq<char>
    decreases b.len(),
{
    if b.len() == 0 {
        seq![]
    } else if b.len() == 1 {
        seq![b64_char((b[0] as int) / 4), b64_char(((b[0] as int) % 4) * 16), '=', '=']
    } else if b.len() == 2 {
        seq![
            b64_char((b[0] as int) / 4),
            b64_char(((b[0] as int) % 4) * 16 + (b[1] as int) / 16),
            b64_char(((b[1] as int) % 16) * 4),
            '=',
        ]
    } else {
        seq![
            b64_char((b[0] as int) / 4),
            b64_char(((b[0] as int) % 4) * 16 + (b[1] as int) / 16),
            b64_char(((b[1] as int) % 16) * 4 + (b[2] as int) / 64),
            b64_char((b[2] as int) % 64),
        ] + base64_std(b.skip(3))
    }
}

/// Bytes as lowercase hexadecimal.
///
/// Trusted: calls `hex::encode`, which its documentation describes as
/// encoding the data as a hex string of lowercase characters, two per byte.
#[verifier::external_body]
fn hex_encode(data: &[u8]) -> (r: String)
    ensures
        r@ == hex_lower(data@),
{
    hex::encode(data)
}

/// Bytes in standard base64.
///
/// Trusted: calls `Engine::encode` of `base64::engine::general_purpose::STANDARD`,
/// the standard alphabet with `=` padding.
#[verifier::external_body]
fn base64_encode(data: &[u8]) -> (r: String)
    ensures
        r@ == base64_std(data@),
{
    base64::Engine::encode(&base64::engine::general_purpose::STANDARD, data)
}

// ---------------------------------------------------------------------
// Hashers

/// A hash algorithm.
#[derive(Debug, Clone, Copy, PartialEq, Eq, Structural)]
pub enum CryptoAlgo {
    Sha1,
    Sha256,
    Sha512,
    Md5,
    Blake2s256,
    Blake2b512,
    Sha3_256,
    Sha3_512,
}

/// The hash of some bytes with an algorithm.
pub open spec fn spec_hash(algo: CryptoAlgo, data: Seq<u8>) -> Seq<u8> {
    match algo {
        CryptoAlgo::Sha1 => spec_sha1(data),
        CryptoAlgo::Sha256 => spec_sha256(data),
        CryptoAlgo::Sha512 => spec_sha512(data),
        CryptoAlgo::Md5 => spec_md5(data),
        CryptoAlgo::Blake2s256 => spec_blake2s256(data),
        CryptoAlgo::Blake2b512 => spec_blake2b512(data),
        CryptoAlgo::Sha3_256 => spec_sha3_256(data),
        CryptoAlgo::Sha3_512 => spec_sha3_512(data),
    }
}

/// The number of bytes of a hash with an algorithm.
pub open spec fn hash_len(algo: CryptoAlgo) -> nat {
    match algo {
        CryptoAlgo::Sha1 => 20,
        CryptoAlgo::Md5 => 16,
        CryptoAlgo::Sha256 | CryptoAlgo::Blake2s256 | CryptoAlgo::Sha3_256 => 32,
        CryptoAlgo::Sha512 | CryptoAlgo::Blake2b512 | CryptoAlgo::Sha3_512 => 64,
    }
}

/// Hashes bytes with an algorithm.
pub fn hash(algo: CryptoAlgo, data: &[u8]) -> (r: Vec<u8>)
    ensures
        r@ == spec_hash(algo, data@),
        r@.len() == hash_len(algo),
{
    match algo {
        CryptoAlgo::Sha1 => sha1_digest(data),
        CryptoAlgo::Sha256 => sha256_digest(data),
        CryptoAlgo::Sha512 => sha512_digest(data),
        CryptoAlgo::Md5 => md5_digest(data),
        CryptoAlgo::Blake2s256 => blake2s256_digest(data),
        CryptoAlgo::Blake2b512 => blake2b512_digest(data),
        CryptoAlgo::Sha3_256 => sha3_256_digest(data),
        CryptoAlgo::Sha3_512 => sha3_512_digest(data),
    }
}

/// How a digest is written as text.
#[derive(Debug, Clone, Copy, PartialEq, Eq, Structural)]
pub enum EncodingKind {
    Utf8,
    Base64,
    Hex,
}

/// The encoding that a number names, counting from zero.
pub open spec fn encoding_from_index(value: int) -> EncodingKind {
    if value == 0 {
        EncodingKind::Utf8
    } else if value == 1 {
        EncodingKind::Base64
    } else {
        EncodingKind::Hex
    }
}

/// The encoding that a name names, ignoring case, if any.
pub open spec fn encoding_from_name(name: Seq<char>) -> Option<EncodingKind> {
    let n = crate::text::ascii_lower(name);
    if n == "utf8"@ {
        Some(EncodingKind::Utf8)
    } else if n == "base64"@ {
        Some(EncodingKind::Base64)
    } else if n == "hex"@ {
        Some(EncodingKind::Hex)
    } else {
        None
    }
}

impl EncodingKind {
    /// The encoding that a number names: 0 for UTF-8, 1 for base64 and 2
    /// for hexadecimal.
    pub fn from_index(value: usize) -> (r: Self)
        requires
            value < 3,
        ensures
            r == encoding_from_index(value as int),
    {
        if value == 0 {
            EncodingKind::Utf8
        } else if value == 1 {
            EncodingKind::Base64
        } else {
            EncodingKind::Hex
        }
    }

    /// The encoding that a name names, ignoring case: `utf8`, `base64` or
    /// `hex`.
    pub fn from_name(value: &str) -> (r: Self)
        requires
            encoding_from_name(value@) is Some,
        ensures
            Some(r) == encoding_from_name(value@),
    {
        let n = crate::text::to_ascii_lower(str_chars(value).as_slice());
        if chars_eq_str(n.as_slice(), "utf8") {
            EncodingKind::Utf8
        } else if chars_eq_str(n.as_slice(), "base64") {
            EncodingKind::Base64
        } else {
            EncodingKind::Hex
        }
    }

    /// Whether a name names an encoding.
    pub fn is_valid_name(value: &str) -> (r: bool)
        ensures
            r == (encoding_from_name(value@) is Some),
    {
        let n = crate::text::to_ascii_lower(str_chars(value).as_slice());
        chars_eq_str(n.as_slice(), "utf8") || chars_eq_str(n.as_slice(), "base64")
            || chars_eq_str(n.as_slice(), "hex")
    }
}

/// Errors when writing a digest as text.
#[derive(Debug, Clone, Copy, PartialEq, Eq, Structural)]
pub enum DigestError {
    /// The digest is not valid UTF-8.
    InvalidUtf8,
}

/// A digest written as text with an encoding.
pub open spec fn spec_encode(digest: Seq<u8>, encoding: EncodingKind) -> Result<
    Seq<char>,
    DigestError,
> {
    match encoding {
        EncodingKind::Utf8 => if valid_utf8(digest) {
            Ok(decode_utf8(digest))
        } else {
            Err(DigestError::InvalidUtf8)
        },
        EncodingKind::Base64 => Ok(base64_std(digest)),
        EncodingKind::Hex => Ok(hex_lower(digest)),
    }
}

/// Writes a digest as text.
pub fn encode_digest(digest: Vec<u8>, encoding: EncodingKind) -> (r: Result<String, DigestError>)
    ensures
        match r {
            Ok(s) => spec_encode(digest@, encoding) == Ok::<Seq<char>, DigestError>(s@),
            Err(e) => spec_encode(digest@, encoding) == Err::<Seq<char>, DigestError>(e),
        },
{
    match encoding {
        EncodingKind::Utf8 => match string_from_utf8(digest) {
            Some(s) => Ok(s),
            None => Err(DigestError::InvalidUtf8),
        },
        EncodingKind::Base64 => Ok(base64_encode(digest.as_slice())),
        EncodingKind::Hex => Ok(hex_encode(digest.as_slice())),
    }
}

/// A hasher: an algorithm and the bytes fed to it so far.
#[derive(Debug, Clone)]
pub struct Crypto {
    algo: CryptoAlgo,
    data: Vec<u8>,
}

/// The mathematical value of a hasher.
pub ghost struct CryptoView {
    pub algo: CryptoAlgo,
    pub data: Seq<u8>,
}

/// A hasher after more bytes are fed to it.
pub open spec fn spec_update(c: CryptoView, content: Seq<u8>) -> CryptoView {
    CryptoView { algo: c.algo, data: c.data + content }
}

/// The digest of a hasher, as text.
pub open spec fn spec_digest(c: CryptoView, encoding: EncodingKind) -> Result<
    Seq<char>,
    DigestError,
> {
    spec_encode(spec_hash(c.algo, c.data), encoding)
}

/// The bytes of optional text, as UTF-8.
pub open spec fn content_bytes(content: Option<&str>) -> Seq<u8> {
    match content {
        Some(s) => encode_utf8(s@),
        None => seq![],
    }
}

impl Crypto {
    /// The algorithm and the bytes fed so far.
    pub closed spec fn view(&self) -> CryptoView {
        CryptoView { algo: self.algo, data: self.data@ }
    }

    /// A hasher for an algorithm, fed with the UTF-8 bytes of `content`
    /// if there is any.
    pub fn new(algo: CryptoAlgo, content: Option<&str>) -> (r: Self)
        ensures
            r.view() == (CryptoView { algo, data: content_bytes(content) }),
    {
        let mut c = Crypto { algo, data: Vec::new() };
        match content {
            Some(s) => {
                c.update(s.as_bytes());
            },
            None => {},
        }
        assert(c.view().data =~= content_bytes(content));
        c
    }

    /// A SHA-1 hasher.
    pub fn sha1(content: Option<&str>) -> (r: Self)
        ensures
            r.view() == (CryptoView { algo: CryptoAlgo::Sha1, data: content_bytes(content) }),
    {
        Self::new(CryptoAlgo::Sha1, content)
    }

    /// A SHA-256 hasher.
    pub fn sha256(content: Option<&str>) -> (r: Self)
        ensures
            r.view() == (CryptoView { algo: CryptoAlgo::Sha256, data: content_bytes(content) }),
    {
        Self::new(CryptoAlgo::Sha256, content)
    }

    /// A SHA-512 hasher.
    pub fn sha512(content: Option<&str>) -> (r: Self)
        ensures
            r.view() == (CryptoView { algo: CryptoAlgo::Sha512, data: content_bytes(content) }),
    {
        Self::new(CryptoAlgo::Sha512, content)
    }

    /// An MD5 hasher.
    pub fn md5(content: Option<&str>) -> (r: Self)
        ensures
            r.view() == (CryptoView { algo: CryptoAlgo::Md5, data: content_bytes(content) }),
    {
        Self::new(CryptoAlgo::Md5, content)
    }

    /// A BLAKE2s-256 hasher.
    pub fn blake2s256(content: Option<&str>) -> (r: Self)
        ensures
            r.view() == (CryptoView {
                algo: CryptoAlgo::Blake2s256,
                data: content_bytes(content),
            }),
    {
        Self::new(CryptoAlgo::Blake2s256, content)
    }

    /// A BLAKE2b-512 hasher.
    pub fn blake2b512(content: Option<&str>) -> (r: Self)
        ensures
            r.view() == (CryptoView {
                algo: CryptoAlgo::Blake2b512,
                data: content_bytes(content),
            }),
    {
        Self::new(CryptoAlgo::Blake2b512, content)
    }

    /// A SHA3-256 hasher.
    pub fn sha3_256(content: Option<&str>) -> (r: Self)
        ensures
            r.view() == (CryptoView { algo: CryptoAlgo::Sha3_256, data: content_bytes(content) }),
    {
        Self::new(CryptoAlgo::Sha3_256, content)
    }

    /// A SHA3-512 hasher.
    pub fn sha3_512(content: Option<&str>) -> (r: Self)
        ensures
            r.view() == (CryptoView { algo: CryptoAlgo::Sha3_512, data: content_bytes(content) }),
    {
        Self::new(CryptoAlgo::Sha3_512, content)
    }

    /// The algorithm of the hasher.
    pub fn algo(&self) -> (r: CryptoAlgo)
        ensures
            r == self.view().algo,
    {
        self.algo
    }

    /// Feeds more bytes to the hasher.
    pub fn update(&mut self, content: &[u8])
        ensures
            final(self).view() == spec_update(old(self).view(), content@),
    {
        let mut i: usize = 0;
        let ghost before = self.data@;
        while i < content.len()
            invariant
                i <= content@.len(),
                self.algo == old(self).algo,
                before == old(self).data@,
                self.data@ == before + content@.take(i as int),
            decreases content@.len() - i,
        {
            self.data.push(content[i]);
            assert(content@.take(i + 1) =~= content@.take(i as int).push(content@[i as int]));
            i = i + 1;
        }
        assert(content@.take(i as int) =~= content@);
    }

    /// The digest of the bytes fed so far, written with an encoding. The
    /// hasher is left as it is.
    pub fn digest(&self, encoding: EncodingKind) -> (r: Result<String, DigestError>)
        ensures
            match r {
                Ok(s) => spec_digest(self.view(), encoding) == Ok::<Seq<char>, DigestError>(s@),
                Err(e) => spec_digest(self.view(), encoding) == Err::<Seq<char>, DigestError>(e),
            },
    {
        let computed = hash(self.algo, self.data.as_slice());
        encode_digest(computed, encoding)
    }
}

/// Feeding a hasher two pieces one after the other is feeding it the two
/// pieces joined.
pub proof fn lemma_update_concat(c: CryptoView, a: Seq<u8>, b: Seq<u8>)
    ensures
        spec_update(spec_update(c, a), b) == spec_update(c, a + b),
{
    assert(c.data + a + b =~= c.data + (a + b));
}

/// So the digest after feeding two pieces is the digest after feeding the
/// two pieces joined.
pub proof fn lemma_digest_of_pieces(c: CryptoView, a: Seq<u8>, b: Seq<u8>, e: EncodingKind)
    ensures
        spec_digest(spec_update(spec_update(c, a), b), e) == spec_digest(spec_update(c, a + b), e),
{
    lemma_update_concat(c, a, b);
}

/// A hex digest has two digits per hash byte.
pub proof fn lemma_hex_len(b: Seq<u8>)
    ensures
        hex_lower(b).len() == 2 * b.len(),
    decreases b.len(),
{
    if b.len() > 0 {
        lemma_hex_len(b.drop_last());
    }
}

} // verus!
