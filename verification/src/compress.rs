//! Compression formats: recognising them from the first bytes of a payload
//! or from a `Content-Encoding` header, reading their names, the LZ4 block
//! format with its size prefix, and compressing and decompressing in each
//! of the four formats.

use vstd::prelude::*;

use std::future::Future;
use std::task::{Context, Poll, Waker};

use async_compression::tokio::bufread::{
    BrotliDecoder, BrotliEncoder, GzipDecoder, GzipEncoder, ZlibDecoder, ZlibEncoder,
};
use async_compression::Level;
use tokio::io::{AsyncReadExt, BufReader};

use crate::text::{ascii_lower, ascii_upper, chars_eq_str, chars_to_string, str_chars, to_ascii_lower, trim, trim_chars};

verus! {

/// A compression format.
#[derive(Debug, Clone, Copy, PartialEq, Eq, Structural)]
pub enum CompressDecompressFormat {
    Brotli,
    GZip,
    LZ4,
    ZLib,
}

/// Whether `b` starts with the four bytes `m`.
pub open spec fn starts_with4(b: Seq<u8>, m: Seq<u8>) -> bool {
    b.len() >= 4 && b.take(4) == m
}

/// The format that the first bytes of a payload show, if any: the LZ4 frame
/// magic numbers `0x184D2204` and `0x184C2102` read as little-endian `u32`,
/// the brotli stream headers `E1 97 81`, `E1 97 82` and `E1 97 80` (with at
/// least four bytes present), the gzip header `1F 8B 08`, and the zlib
/// headers `78 01`, `78 5E`, `78 9C` and `78 DA`, tried in that order.
pub open spec fn spec_detect_from_bytes(b: Seq<u8>) -> Option<CompressDecompressFormat> {
    if starts_with4(b, seq![0x04u8, 0x22u8, 0x4Du8, 0x18u8]) || starts_with4(
        b,
        seq![0x02u8, 0x21u8, 0x4Cu8, 0x18u8],
    ) {
        Some(CompressDecompressFormat::LZ4)
    } else if b.len() >= 4 && b[0] == 0xE1 && b[1] == 0x97 && (b[2] == 0x81 || b[2] == 0x82 || b[2]
        == 0x80) {
        Some(CompressDecompressFormat::Brotli)
    } else if b.len() >= 3 && b[0] == 0x1F && b[1] == 0x8B && b[2] == 0x08 {
        Some(CompressDecompressFormat::GZip)
    } else if b.len() >= 2 && b[0] == 0x78 && (b[1] == 0x01 || b[1] == 0x5E || b[1] == 0x9C || b[1]
        == 0xDA) {
        Some(CompressDecompressFormat::ZLib)
    } else {
        None
    }
}

/// The format that a `Content-Encoding` header names, ignoring ASCII case
/// and surrounding whitespace: `br` or `brotli`, `deflate` (zlib), `gz` or
/// `gzip`.
pub open spec fn spec_detect_from_header(h: Seq<char>) -> Option<CompressDecompressFormat> {
    let n = trim(ascii_lower(h));
    if n == "br"@ || n == "brotli"@ {
        Some(CompressDecompressFormat::Brotli)
    } else if n == "deflate"@ {
        Some(CompressDecompressFormat::ZLib)
    } else if n == "gz"@ || n == "gzip"@ {
        Some(CompressDecompressFormat::GZip)
    } else {
        None
    }
}

/// The message for a format name that names no format; `kind` is the name
/// as it was compared, lowercased and trimmed.
pub open spec fn invalid_format_message(kind: Seq<char>) -> Seq<char> {
    "Invalid format '"@ + kind + "', valid formats are:  brotli, gzip, lz4, zlib"@
}

/// The format that a name names, ignoring ASCII case and surrounding
/// whitespace, or the message that says it names none.
pub open spec fn spec_format_from_name(name: Seq<char>) -> Result<
    CompressDecompressFormat,
    Seq<char>,
> {
    let n = trim(ascii_lower(name));
    if n == "brotli"@ {
        Ok(CompressDecompressFormat::Brotli)
    } else if n == "gzip"@ {
        Ok(CompressDecompressFormat::GZip)
    } else if n == "lz4"@ {
        Ok(CompressDecompressFormat::LZ4)
    } else if n == "zlib"@ {
        Ok(CompressDecompressFormat::ZLib)
    } else {
        Err(invalid_format_message(n))
    }
}

/// The name of a compression format.
pub open spec fn compress_format_name(f: CompressDecompressFormat) -> Seq<char> {
    match f {
        CompressDecompressFormat::Brotli => "brotli"@,
        CompressDecompressFormat::GZip => "gzip"@,
        CompressDecompressFormat::LZ4 => "lz4"@,
        CompressDecompressFormat::ZLib => "zlib"@,
    }
}

/// Each compression format is found by its own name, and only by it: a
/// name that gives a format is, lowercased and trimmed, that format's name,
/// so distinct formats have distinct names.
pub proof fn lemma_compress_format_names(f: CompressDecompressFormat, name: Seq<char>)
    ensures
        spec_format_from_name(compress_format_name(f)) == Ok::<CompressDecompressFormat, Seq<char>>(
            f,
        ),
        spec_format_from_name(name) == Ok::<CompressDecompressFormat, Seq<char>>(f) ==> trim(
            ascii_lower(name),
        ) == compress_format_name(f),
        spec_format_from_name(" "@ + ascii_upper(compress_format_name(f)) + " "@) == Ok::<
            CompressDecompressFormat,
            Seq<char>,
        >(f),
        (forall|g: CompressDecompressFormat| trim(ascii_lower(name)) != #[trigger] compress_format_name(g))
            ==> spec_format_from_name(name) == Err::<CompressDecompressFormat, Seq<char>>(
            invalid_format_message(trim(ascii_lower(name))),
        ),
{
    reveal_strlit("brotli");
    reveal_strlit("gzip");
    reveal_strlit("lz4");
    reveal_strlit("zlib");
    let n = compress_format_name(f);
    crate::text::lemma_ascii_lower_of_lower(n);
    crate::text::lemma_trim_no_ws(n);
    crate::text::lemma_padded_upper_lowered(n);
    if forall|g: CompressDecompressFormat| trim(ascii_lower(name)) != #[trigger] compress_format_name(g) {
        assert(trim(ascii_lower(name)) != compress_format_name(CompressDecompressFormat::Brotli));
        assert(trim(ascii_lower(name)) != compress_format_name(CompressDecompressFormat::GZip));
        assert(trim(ascii_lower(name)) != compress_format_name(CompressDecompressFormat::LZ4));
        assert(trim(ascii_lower(name)) != compress_format_name(CompressDecompressFormat::ZLib));
    }
}

/// A payload is recognised by its magic bytes, whatever follows them: the
/// LZ4 frame magic numbers, the brotli stream headers (with a byte after
/// them), the gzip header, and the zlib headers.
pub proof fn lemma_detect_magic(rest: Seq<u8>, x: u8)
    ensures
        spec_detect_from_bytes(seq![0x04u8, 0x22u8, 0x4Du8, 0x18u8] + rest) == Some(
            CompressDecompressFormat::LZ4,
        ),
        spec_detect_from_bytes(seq![0x02u8, 0x21u8, 0x4Cu8, 0x18u8] + rest) == Some(
            CompressDecompressFormat::LZ4,
        ),
        (x == 0x80u8 || x == 0x81u8 || x == 0x82u8) ==> spec_detect_from_bytes(
            seq![0xE1u8, 0x97u8, x, 0x00u8] + rest,
        ) == Some(CompressDecompressFormat::Brotli),
        spec_detect_from_bytes(seq![0x1Fu8, 0x8Bu8, 0x08u8] + rest) == Some(
            CompressDecompressFormat::GZip,
        ),
        (x == 0x01u8 || x == 0x5Eu8 || x == 0x9Cu8 || x == 0xDAu8) ==> spec_detect_from_bytes(
            seq![0x78u8, x] + rest,
        ) == Some(CompressDecompressFormat::ZLib),
{
    let a = seq![0x04u8, 0x22u8, 0x4Du8, 0x18u8] + rest;
    assert(a.take(4) =~= seq![0x04u8, 0x22u8, 0x4Du8, 0x18u8]);
    let b = seq![0x02u8, 0x21u8, 0x4Cu8, 0x18u8] + rest;
    assert(b.take(4) =~= seq![0x02u8, 0x21u8, 0x4Cu8, 0x18u8]);
    let c = seq![0xE1u8, 0x97u8, x, 0x00u8] + rest;
    assert(c[0] == 0xE1u8 && c[1] == 0x97u8 && c[2] == x);
    let g = seq![0x1Fu8, 0x8Bu8, 0x08u8] + rest;
    assert(g[0] == 0x1Fu8 && g[1] == 0x8Bu8 && g[2] == 0x08u8);
    let z = seq![0x78u8, x] + rest;
    assert(z[0] == 0x78u8 && z[1] == x);
}

/// The `Content-Encoding` names of the formats, in any ASCII case and with
/// whitespace around them: `br` and `brotli` name Brotli, `gz` and `gzip`
/// name gzip, and `deflate` names zlib.
pub proof fn lemma_content_encoding_names()
    ensures
        spec_detect_from_header(" "@ + ascii_upper("br"@) + " "@) == Some(
            CompressDecompressFormat::Brotli,
        ),
        spec_detect_from_header(" "@ + ascii_upper("brotli"@) + " "@) == Some(
            CompressDecompressFormat::Brotli,
        ),
        spec_detect_from_header(" "@ + ascii_upper("gz"@) + " "@) == Some(
            CompressDecompressFormat::GZip,
        ),
        spec_detect_from_header(" "@ + ascii_upper("gzip"@) + " "@) == Some(
            CompressDecompressFormat::GZip,
        ),
        spec_detect_from_header(" "@ + ascii_upper("deflate"@) + " "@) == Some(
            CompressDecompressFormat::ZLib,
        ),
{
    reveal_strlit("br");
    reveal_strlit("brotli");
    reveal_strlit("gz");
    reveal_strlit("gzip");
    reveal_strlit("deflate");
    crate::text::lemma_padded_upper_lowered("br"@);
    crate::text::lemma_padded_upper_lowered("brotli"@);
    crate::text::lemma_padded_upper_lowered("gz"@);
    crate::text::lemma_padded_upper_lowered("gzip"@);
    crate::text::lemma_padded_upper_lowered("deflate"@);
    assert("gz"@[0] != "br"@[0]);
}

fn starts_with4_exec(b: &[u8], m0: u8, m1: u8, m2: u8, m3: u8) -> (r: bool)
    ensures
        r == starts_with4(b@, seq![m0, m1, m2, m3]),
{
    if b.len() < 4 {
        return false;
    }
    let r = b[0] == m0 && b[1] == m1 && b[2] == m2 && b[3] == m3;
    assert(r == (b@.take(4) =~= seq![m0, m1, m2, m3]));
    r
}

impl CompressDecompressFormat {
    /// The format that the first bytes of a payload show, if any.
    pub fn detect_from_bytes(bytes: &[u8]) -> (r: Option<Self>)
        ensures
            r == spec_detect_from_bytes(bytes@),
    {
        let b = bytes;
        if starts_with4_exec(b, 0x04, 0x22, 0x4D, 0x18) || starts_with4_exec(
            b,
            0x02,
            0x21,
            0x4C,
            0x18,
        ) {
            Some(CompressDecompressFormat::LZ4)
        } else if b.len() >= 4 && b[0] == 0xE1 && b[1] == 0x97 && (b[2] == 0x81 || b[2] == 0x82
            || b[2] == 0x80) {
            Some(CompressDecompressFormat::Brotli)
        } else if b.len() >= 3 && b[0] == 0x1F && b[1] == 0x8B && b[2] == 0x08 {
            Some(CompressDecompressFormat::GZip)
        } else if b.len() >= 2 && b[0] == 0x78 && (b[1] == 0x01 || b[1] == 0x5E || b[1] == 0x9C
            || b[1] == 0xDA) {
            Some(CompressDecompressFormat::ZLib)
        } else {
            None
        }
    }

    /// The format that a `Content-Encoding` header names, if any.
    pub fn detect_from_header_str(header: &str) -> (r: Option<Self>)
        ensures
            r == spec_detect_from_header(header@),
    {
        let lowered = to_ascii_lower(str_chars(header).as_slice());
        let n = trim_chars(lowered.as_slice());
        if chars_eq_str(n.as_slice(), "br") || chars_eq_str(n.as_slice(), "brotli") {
            Some(CompressDecompressFormat::Brotli)
        } else if chars_eq_str(n.as_slice(), "deflate") {
            Some(CompressDecompressFormat::ZLib)
        } else if chars_eq_str(n.as_slice(), "gz") || chars_eq_str(n.as_slice(), "gzip") {
            Some(CompressDecompressFormat::GZip)
        } else {
            None
        }
    }

    /// The format that a name names: `brotli`, `gzip`, `lz4` or `zlib`,
    /// ignoring ASCII case and surrounding whitespace.
    pub fn from_name(name: &str) -> (r: Result<Self, String>)
        ensures
            match r {
                Ok(f) => spec_format_from_name(name@) == Ok::<CompressDecompressFormat, Seq<char>>(
                    f,
                ),
                Err(m) => spec_format_from_name(name@) == Err::<CompressDecompressFormat, Seq<char>>(
                    m@,
                ),
            },
    {
        let lowered = to_ascii_lower(str_chars(name).as_slice());
        let n = trim_chars(lowered.as_slice());
        if chars_eq_str(n.as_slice(), "brotli") {
            Ok(CompressDecompressFormat::Brotli)
        } else if chars_eq_str(n.as_slice(), "gzip") {
            Ok(CompressDecompressFormat::GZip)
        } else if chars_eq_str(n.as_slice(), "lz4") {
            Ok(CompressDecompressFormat::LZ4)
        } else if chars_eq_str(n.as_slice(), "zlib") {
            Ok(CompressDecompressFormat::ZLib)
        } else {
            let mut m = "Invalid format '".to_string();
            m.append(chars_to_string(n.as_slice()).as_str());
            m.append("', valid formats are:  brotli, gzip, lz4, zlib");
            Err(m)
        }
    }
}

// ---------------------------------------------------------------------
// LZ4 blocks with a size prefix

/// The four little-endian bytes of `n`, as `u32::to_le_bytes`.
pub open spec fn u32_le_bytes(n: u32) -> Seq<u8> {
    seq![n as u8, (n >> 8u32) as u8, (n >> 16u32) as u8, (n >> 24u32) as u8]
}

/// The LZ4 block that `lz4_flex` compresses some bytes to.
pub uninterp spec fn spec_lz4_block(data: Seq<u8>) -> Seq<u8>;

/// What decompressing size-prefixed LZ4 bytes gives, if they decompress.
pub uninterp spec fn spec_lz4_decompress(data: Seq<u8>) -> Option<Seq<u8>>;

/// Bytes compressed to an LZ4 block behind their length as a little-endian
/// `u32` (the length wraps for inputs of 4 GiB and more).
pub open spec fn lz4_frame(data: Seq<u8>) -> Seq<u8> {
    u32_le_bytes(data.len() as u32) + spec_lz4_block(data)
}

/// The error that `lz4_flex` reports for bytes that do not decompress.
#[verifier::external_type_specification]
#[verifier::external_body]
pub struct ExDecompressError(lz4_flex::block::DecompressError);

/// Compresses bytes to an LZ4 block behind their length.
///
/// Trusted: calls `lz4_flex::compress_prepend_size`, whose source writes
/// `(input.len() as u32).to_le_bytes()` and then the compressed block, which
/// depends on the input alone. Its documentation pairs it with
/// `decompress_size_prepended`, which turns the output back into the input
/// whenever the length did not wrap.
#[verifier::external_body]
fn lz4_compress_prepend_size(data: &[u8]) -> (r: Vec<u8>)
    ensures
        r@ == u32_le_bytes(data@.len() as u32) + spec_lz4_block(data@),
        data@.len() <= u32::MAX ==> spec_lz4_decompress(r@) == Some(data@),
{
    lz4_flex::compress_prepend_size(data)
}

/// Decompresses an LZ4 block behind its length.
///
/// Trusted: calls `lz4_flex::decompress_size_prepended`, whose result is
/// named here and depends on the input alone. Its source fails with fewer
/// than four bytes, where there is no length to read.
#[verifier::external_body]
fn lz4_decompress_size_prepended(data: &[u8]) -> (r: Result<
    Vec<u8>,
    lz4_flex::block::DecompressError,
>)
    ensures
        match r {
            Ok(v) => spec_lz4_decompress(data@) == Some(v@),
            Err(_) => spec_lz4_decompress(data@) is None,
        },
        data@.len() < 4 ==> r is Err,
{
    lz4_flex::decompress_size_prepended(data)
}

/// Errors of LZ4 decompression.
#[derive(Debug)]
pub enum Lz4Error {
    /// The bytes are not an LZ4 block behind its length; the value is what
    /// `lz4_flex` reported.
    Corrupt(lz4_flex::block::DecompressError),
}

/// Compresses bytes with LZ4: their length as a little-endian `u32`, then
/// the compressed block. Decompressing the result gives the input back.
pub fn compress_lz4(source: &[u8]) -> (r: Vec<u8>)
    ensures
        r@ == lz4_frame(source@),
        source@.len() <= u32::MAX ==> spec_lz4_decompress(r@) == Some(source@),
{
    lz4_compress_prepend_size(source)
}

/// Decompresses bytes that `compress_lz4` wrote.
pub fn decompress_lz4(source: &[u8]) -> (r: Result<Vec<u8>, Lz4Error>)
    ensures
        match r {
            Ok(v) => spec_lz4_decompress(source@) == Some(v@),
            Err(_) => spec_lz4_decompress(source@) is None,
        },
        source@.len() < 4 ==> r is Err,
{
    match lz4_decompress_size_prepended(source) {
        Ok(v) => Ok(v),
        Err(e) => Err(Lz4Error::Corrupt(e)),
    }
}


// ---------------------------------------------------------------------
// Brotli, gzip and zlib streams

/// The Brotli stream that `async-compression` compresses some bytes to at
/// its best level, if it does.
pub uninterp spec fn spec_brotli_compress(data: Seq<u8>) -> Option<Seq<u8>>;

/// What decompressing a Brotli stream gives, if it decompresses.
pub uninterp spec fn spec_brotli_decompress(data: Seq<u8>) -> Option<Seq<u8>>;

/// The gzip stream that `async-compression` compresses some bytes to at
/// its best level, if it does.
pub uninterp spec fn spec_gzip_compress(data: Seq<u8>) -> Option<Seq<u8>>;

/// What decompressing a gzip stream gives, if it decompresses.
pub uninterp spec fn spec_gzip_decompress(data: Seq<u8>) -> Option<Seq<u8>>;

/// The zlib stream that `async-compression` compresses some bytes to at
/// its best level, if it does.
pub uninterp spec fn spec_zlib_compress(data: Seq<u8>) -> Option<Seq<u8>>;

/// What decompressing a zlib stream gives, if it decompresses.
pub uninterp spec fn spec_zlib_decompress(data: Seq<u8>) -> Option<Seq<u8>>;

/// Compresses bytes to a Brotli stream at the best level.
///
/// Trusted: reads `async_compression::tokio::bufread::BrotliEncoder` to its end
/// with `read_to_end`, over a `BufReader` of the bytes in memory. That
/// reader never waits, so one poll of the read finishes it; the outcome
/// depends on the bytes alone. A Brotli decoder turns a stream that the
/// encoder wrote back into the bytes it was written from.
#[verifier::external_body]
fn brotli_compress(data: &[u8]) -> (r: Option<Vec<u8>>)
    ensures
        match r {
            Some(v) => spec_brotli_compress(data@) == Some(v@),
            None => spec_brotli_compress(data@) is None,
        },
        r matches Some(v) ==> spec_brotli_decompress(v@) == Some(data@),
{
    let mut out = Vec::new();
    let mut coder = BrotliEncoder::with_quality(BufReader::new(data), Level::Best);
    let mut read = Box::pin(coder.read_to_end(&mut out));
    let done = read.as_mut().poll(&mut Context::from_waker(Waker::noop()));
    drop(read);
    match done {
        Poll::Ready(Ok(_)) => Some(out),
        Poll::Ready(Err(_)) => None,
        Poll::Pending => None,
    }
}

/// Decompresses a Brotli stream.
///
/// Trusted: reads `async_compression::tokio::bufread::BrotliDecoder` to its end
/// with `read_to_end`, over a `BufReader` of the bytes in memory, which
/// never waits; the outcome depends on the bytes alone.
#[verifier::external_body]
fn brotli_decompress(data: &[u8]) -> (r: Option<Vec<u8>>)
    ensures
        match r {
            Some(v) => spec_brotli_decompress(data@) == Some(v@),
            None => spec_brotli_decompress(data@) is None,
        },
{
    let mut out = Vec::new();
    let mut coder = BrotliDecoder::new(BufReader::new(data));
    let mut read = Box::pin(coder.read_to_end(&mut out));
    let done = read.as_mut().poll(&mut Context::from_waker(Waker::noop()));
    drop(read);
    match done {
        Poll::Ready(Ok(_)) => Some(out),
        Poll::Ready(Err(_)) => None,
        Poll::Pending => None,
    }
}

/// Compresses bytes to a gzip stream at the best level.
///
/// Trusted: reads `async_compression::tokio::bufread::GzipEncoder` to its end
/// with `read_to_end`, over a `BufReader` of the bytes in memory. That
/// reader never waits, so one poll of the read finishes it; the outcome
/// depends on the bytes alone. A gzip decoder turns a stream that the
/// encoder wrote back into the bytes it was written from.
#[verifier::external_body]
fn gzip_compress(data: &[u8]) -> (r: Option<Vec<u8>>)
    ensures
        match r {
            Some(v) => spec_gzip_compress(data@) == Some(v@),
            None => spec_gzip_compress(data@) is None,
        },
        r matches Some(v) ==> spec_gzip_decompress(v@) == Some(data@),
{
    let mut out = Vec::new();
    let mut coder = GzipEncoder::with_quality(BufReader::new(data), Level::Best);
    let mut read = Box::pin(coder.read_to_end(&mut out));
    let done = read.as_mut().poll(&mut Context::from_waker(Waker::noop()));
    drop(read);
    match done {
        Poll::Ready(Ok(_)) => Some(out),
        Poll::Ready(Err(_)) => None,
        Poll::Pending => None,
    }
}

/// Decompresses a gzip stream.
///
/// Trusted: reads `async_compression::tokio::bufread::GzipDecoder` to its end
/// with `read_to_end`, over a `BufReader` of the bytes in memory, which
/// never waits; the outcome depends on the bytes alone.
#[verifier::external_body]
fn gzip_decompress(data: &[u8]) -> (r: Option<Vec<u8>>)
    ensures
        match r {
            Some(v) => spec_gzip_decompress(data@) == Some(v@),
            None => spec_gzip_decompress(data@) is None,
        },
{
    let mut out = Vec::new();
    let mut coder = GzipDecoder::new(BufReader::new(data));
    let mut read = Box::pin(coder.read_to_end(&mut out));
    let done = read.as_mut().poll(&mut Context::from_waker(Waker::noop()));
    drop(read);
    match done {
        Poll::Ready(Ok(_)) => Some(out),
        Poll::Ready(Err(_)) => None,
        Poll::Pending => None,
    }
}

/// Compresses bytes to a zlib stream at the best level.
///
/// Trusted: reads `async_compression::tokio::bufread::ZlibEncoder` to its end
/// with `read_to_end`, over a `BufReader` of the bytes in memory. That
/// reader never waits, so one poll of the read finishes it; the outcome
/// depends on the bytes alone. A zlib decoder turns a stream that the
/// encoder wrote back into the bytes it was written from.
#[verifier::external_body]
fn zlib_compress(data: &[u8]) -> (r: Option<Vec<u8>>)
    ensures
        match r {
            Some(v) => spec_zlib_compress(data@) == Some(v@),
            None => spec_zlib_compress(data@) is None,
        },
        r matches Some(v) ==> spec_zlib_decompress(v@) == Some(data@),
{
    let mut out = Vec::new();
    let mut coder = ZlibEncoder::with_quality(BufReader::new(data), Level::Best);
    let mut read = Box::pin(coder.read_to_end(&mut out));
    let done = read.as_mut().poll(&mut Context::from_waker(Waker::noop()));
    drop(read);
    match done {
        Poll::Ready(Ok(_)) => Some(out),
        Poll::Ready(Err(_)) => None,
        Poll::Pending => None,
    }
}

/// Decompresses a zlib stream.
///
/// Trusted: reads `async_compression::tokio::bufread::ZlibDecoder` to its end
/// with `read_to_end`, over a `BufReader` of the bytes in memory, which
/// never waits; the outcome depends on the bytes alone.
#[verifier::external_body]
fn zlib_decompress(data: &[u8]) -> (r: Option<Vec<u8>>)
    ensures
        match r {
            Some(v) => spec_zlib_decompress(data@) == Some(v@),
            None => spec_zlib_decompress(data@) is None,
        },
{
    let mut out = Vec::new();
    let mut coder = ZlibDecoder::new(BufReader::new(data));
    let mut read = Box::pin(coder.read_to_end(&mut out));
    let done = read.as_mut().poll(&mut Context::from_waker(Waker::noop()));
    drop(read);
    match done {
        Poll::Ready(Ok(_)) => Some(out),
        Poll::Ready(Err(_)) => None,
        Poll::Pending => None,
    }
}

/// What compressing bytes in a format gives, if it succeeds: LZ4 always
/// does, with the length prefix.
pub open spec fn spec_compress(format: CompressDecompressFormat, data: Seq<u8>) -> Option<Seq<u8>> {
    match format {
        CompressDecompressFormat::Brotli => spec_brotli_compress(data),
        CompressDecompressFormat::GZip => spec_gzip_compress(data),
        CompressDecompressFormat::LZ4 => Some(lz4_frame(data)),
        CompressDecompressFormat::ZLib => spec_zlib_compress(data),
    }
}

/// What decompressing bytes in a format gives, if they decompress.
pub open spec fn spec_decompress(format: CompressDecompressFormat, data: Seq<u8>) -> Option<Seq<u8>> {
    match format {
        CompressDecompressFormat::Brotli => spec_brotli_decompress(data),
        CompressDecompressFormat::GZip => spec_gzip_decompress(data),
        CompressDecompressFormat::LZ4 => spec_lz4_decompress(data),
        CompressDecompressFormat::ZLib => spec_zlib_decompress(data),
    }
}

/// Errors of compressing and decompressing.
#[derive(Debug)]
pub enum CompressError {
    /// The bytes are not an LZ4 block behind its length.
    Lz4(Lz4Error),
    /// The Brotli, gzip or zlib codec refused the bytes.
    Stream,
}

/// Compresses bytes in a format (Brotli, gzip and zlib at their best
/// level). Decompressing the result in the same format gives the input
/// back; for LZ4, whose length prefix is a `u32`, when the input is
/// shorter than 4 GiB.
pub fn compress(format: CompressDecompressFormat, source: &[u8]) -> (r: Result<Vec<u8>, CompressError>)
    ensures
        match r {
            Ok(v) => spec_compress(format, source@) == Some(v@),
            Err(_) => spec_compress(format, source@) is None,
        },
        r matches Ok(v) ==> (format != CompressDecompressFormat::LZ4 || source@.len() <= u32::MAX)
            ==> spec_decompress(format, v@) == Some(source@),
{
    let out = match format {
        CompressDecompressFormat::Brotli => brotli_compress(source),
        CompressDecompressFormat::GZip => gzip_compress(source),
        CompressDecompressFormat::LZ4 => Some(compress_lz4(source)),
        CompressDecompressFormat::ZLib => zlib_compress(source),
    };
    match out {
        Some(v) => Ok(v),
        None => Err(CompressError::Stream),
    }
}

/// Decompresses bytes in a format.
pub fn decompress(format: CompressDecompressFormat, source: &[u8]) -> (r: Result<Vec<u8>, CompressError>)
    ensures
        match r {
            Ok(v) => spec_decompress(format, source@) == Some(v@),
            Err(_) => spec_decompress(format, source@) is None,
        },
{
    let out = match format {
        CompressDecompressFormat::Brotli => brotli_decompress(source),
        CompressDecompressFormat::GZip => gzip_decompress(source),
        CompressDecompressFormat::LZ4 => match decompress_lz4(source) {
            Ok(v) => Some(v),
            Err(e) => {
                return Err(CompressError::Lz4(e));
            },
        },
        CompressDecompressFormat::ZLib => zlib_decompress(source),
    };
    match out {
        Some(v) => Ok(v),
        None => Err(CompressError::Stream),
    }
}

} // verus!
