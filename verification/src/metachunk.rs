//! The trailer that turns a Lune executable into a standalone binary.
//!
//! A standalone binary is the base executable followed by the script's
//! bytecode, the bytecode's length as a big-endian `u64`, and the eight
//! magic bytes `cr3sc3nt`.

use vstd::prelude::*;

verus! {

/// The magic bytes at the very end of a standalone binary.
pub open spec fn magic() -> Seq<u8> {
    seq![0x63u8, 0x72u8, 0x33u8, 0x73u8, 0x63u8, 0x33u8, 0x6eu8, 0x74u8]
}

/// The eight big-endian bytes of `n`, as `u64::to_be_bytes`.
pub open spec fn u64_be_bytes(n: u64) -> Seq<u8> {
    seq![
        (n >> 56u64) as u8,
        (n >> 48u64) as u8,
        (n >> 40u64) as u8,
        (n >> 32u64) as u8,
        (n >> 24u64) as u8,
        (n >> 16u64) as u8,
        (n >> 8u64) as u8,
        n as u8,
    ]
}

/// The number that eight big-endian bytes encode, as `u64::from_be_bytes`.
pub open spec fn be_u64(b: Seq<u8>) -> u64
    recommends
        b.len() == 8,
{
    ((b[0] as u64) << 56u64) | ((b[1] as u64) << 48u64) | ((b[2] as u64) << 40u64) | ((
    b[3] as u64) << 32u64) | ((b[4] as u64) << 24u64) | ((b[5] as u64) << 16u64) | ((
    b[6] as u64) << 8u64) | (b[7] as u64)
}

/// Whether `b` ends with the magic bytes.
pub open spec fn ends_with_magic(b: Seq<u8>) -> bool {
    b.len() >= 8 && b.skip(b.len() - 8) == magic()
}

/// The bytecode length stored in the trailer of `b`.
pub open spec fn stored_size(b: Seq<u8>) -> u64
    recommends
        b.len() >= 16,
{
    be_u64(b.subrange(b.len() - 16, b.len() - 8))
}

/// Whether `b` is recognised as a standalone binary.
pub open spec fn is_standalone(b: Seq<u8>) -> bool {
    b.len() >= 16 && ends_with_magic(b)
}

/// Errors when reading a standalone binary.
#[derive(Debug, Clone, Copy, PartialEq, Eq, Structural)]
pub enum MetaChunkError {
    /// The bytes do not end with a trailer.
    NotStandalone,
    /// The stored bytecode length does not fit in `usize`.
    SizeTooLarge,
    /// The stored bytecode length is more than the bytes in front of the
    /// trailer.
    SizeOutOfBounds,
}

/// What reading a standalone binary gives.
pub open spec fn spec_from_bytes(b: Seq<u8>) -> Result<Seq<u8>, MetaChunkError> {
    if !is_standalone(b) {
        Err(MetaChunkError::NotStandalone)
    } else if stored_size(b) > usize::MAX {
        Err(MetaChunkError::SizeTooLarge)
    } else if stored_size(b) > b.len() - 16 {
        Err(MetaChunkError::SizeOutOfBounds)
    } else {
        Ok(b.subrange(b.len() - 16 - stored_size(b), b.len() - 16))
    }
}

/// The bytes that a chunk is written as.
pub open spec fn spec_to_bytes(bytecode: Seq<u8>) -> Seq<u8> {
    bytecode + u64_be_bytes(bytecode.len() as u64) + magic()
}

/// Metadata of a standalone executable: the bytecode it carries.
#[derive(Debug, Clone)]
pub struct MetaChunk {
    pub bytecode: Vec<u8>,
}

impl MetaChunkError {
    /// The message of the error.
    pub fn message(&self) -> (r: &'static str)
        ensures
            r@ == (match self {
                MetaChunkError::NotStandalone => "not a standalone binary"@,
                MetaChunkError::SizeTooLarge => "bytecode size does not fit in usize"@,
                MetaChunkError::SizeOutOfBounds => "bytecode size exceeds the binary"@,
            }),
    {
        match self {
            MetaChunkError::NotStandalone => "not a standalone binary",
            MetaChunkError::SizeTooLarge => "bytecode size does not fit in usize",
            MetaChunkError::SizeOutOfBounds => "bytecode size exceeds the binary",
        }
    }
}

fn magic_bytes() -> (r: Vec<u8>)
    ensures
        r@ == magic(),
{
    let r: Vec<u8> = vec![0x63u8, 0x72u8, 0x33u8, 0x73u8, 0x63u8, 0x33u8, 0x6eu8, 0x74u8];
    assert(r@ =~= magic());
    r
}

impl MetaChunk {
    /// Reads a standalone binary: the bytecode in front of its trailer.
    pub fn from_bytes(bytes: &[u8]) -> (r: Result<Self, MetaChunkError>)
        ensures
            match r {
                Ok(c) => spec_from_bytes(bytes@) == Ok::<Seq<u8>, MetaChunkError>(c.bytecode@),
                Err(e) => spec_from_bytes(bytes@) == Err::<Seq<u8>, MetaChunkError>(e),
            },
    {
        let n = bytes.len();
        if n < 16 {
            return Err(MetaChunkError::NotStandalone);
        }
        let m = magic_bytes();
        let mut k: usize = 0;
        while k < 8
            invariant
                n == bytes@.len(),
                n >= 16,
                m@ == magic(),
                k <= 8,
                forall|j: int| 0 <= j < k ==> bytes@[n - 8 + j] == magic()[j],
            decreases 8 - k,
        {
            if bytes[n - 8 + k] != m[k] {
                assert(bytes@.skip(n - 8)[k as int] != magic()[k as int]);
                return Err(MetaChunkError::NotStandalone);
            }
            k = k + 1;
        }
        assert(bytes@.skip(n - 8) =~= magic());
        let s = n - 16;
        let size: u64 = ((bytes[s] as u64) << 56u64) | ((bytes[s + 1] as u64) << 48u64) | ((
        bytes[s + 2] as u64) << 40u64) | ((bytes[s + 3] as u64) << 32u64) | ((bytes[s
            + 4] as u64) << 24u64) | ((bytes[s + 5] as u64) << 16u64) | ((bytes[s + 6] as u64)
            << 8u64) | (bytes[s + 7] as u64);
        assert(size == stored_size(bytes@));
        if size > usize::MAX as u64 {
            return Err(MetaChunkError::SizeTooLarge);
        }
        let size = size as usize;
        if size > s {
            return Err(MetaChunkError::SizeOutOfBounds);
        }
        let start = s - size;
        let mut bytecode: Vec<u8> = Vec::new();
        let mut i: usize = start;
        while i < s
            invariant
                start <= i <= s,
                s < bytes@.len(),
                bytecode@ == bytes@.subrange(start as int, i as int),
            decreases s - i,
        {
            bytecode.push(bytes[i]);
            assert(bytes@.subrange(start as int, i + 1) =~= bytes@.subrange(
                start as int,
                i as int,
            ).push(bytes@[i as int]));
            i = i + 1;
        }
        Ok(MetaChunk { bytecode })
    }

    /// Writes the chunk: the bytecode, its length as a big-endian `u64`,
    /// and the magic bytes.
    pub fn to_bytes(&self) -> (r: Vec<u8>)
        ensures
            r@ == spec_to_bytes(self.bytecode@),
    {
        let mut bytes: Vec<u8> = Vec::new();
        let mut i: usize = 0;
        while i < self.bytecode.len()
            invariant
                i <= self.bytecode@.len(),
                bytes@ == self.bytecode@.take(i as int),
            decreases self.bytecode@.len() - i,
        {
            bytes.push(self.bytecode[i]);
            assert(self.bytecode@.take(i + 1) =~= self.bytecode@.take(i as int).push(
                self.bytecode@[i as int],
            ));
            i = i + 1;
        }
        assert(self.bytecode@.take(i as int) =~= self.bytecode@);
        let len = self.bytecode.len() as u64;
        bytes.push((len >> 56u64) as u8);
        bytes.push((len >> 48u64) as u8);
        bytes.push((len >> 40u64) as u8);
        bytes.push((len >> 32u64) as u8);
        bytes.push((len >> 24u64) as u8);
        bytes.push((len >> 16u64) as u8);
        bytes.push((len >> 8u64) as u8);
        bytes.push(len as u8);
        let m = magic_bytes();
        let mut k: usize = 0;
        let ghost prefix = bytes@;
        while k < 8
            invariant
                k <= 8,
                m@ == magic(),
                bytes@ == prefix + magic().take(k as int),
            decreases 8 - k,
        {
            bytes.push(m[k]);
            assert(magic().take(k + 1) =~= magic().take(k as int).push(magic()[k as int]));
            k = k + 1;
        }
        assert(magic().take(8) =~= magic());
        assert(bytes@ =~= spec_to_bytes(self.bytecode@));
        bytes
    }
}

/// The big-endian bytes of a number read back give the number.
pub proof fn lemma_be_u64_roundtrip(n: u64)
    ensures
        be_u64(u64_be_bytes(n)) == n,
{
    let b = u64_be_bytes(n);
    let b0 = (n >> 56u64) as u8;
    let b1 = (n >> 48u64) as u8;
    let b2 = (n >> 40u64) as u8;
    let b3 = (n >> 32u64) as u8;
    let b4 = (n >> 24u64) as u8;
    let b5 = (n >> 16u64) as u8;
    let b6 = (n >> 8u64) as u8;
    let b7 = n as u8;
    assert(((b0 as u64) << 56u64) | ((b1 as u64) << 48u64) | ((b2 as u64) << 40u64) | ((
    b3 as u64) << 32u64) | ((b4 as u64) << 24u64) | ((b5 as u64) << 16u64) | ((b6 as u64)
        << 8u64) | (b7 as u64) == n) by (bit_vector)
        requires
            b0 == (n >> 56u64) as u8,
            b1 == (n >> 48u64) as u8,
            b2 == (n >> 40u64) as u8,
            b3 == (n >> 32u64) as u8,
            b4 == (n >> 24u64) as u8,
            b5 == (n >> 16u64) as u8,
            b6 == (n >> 8u64) as u8,
            b7 == n as u8,
    ;
}

/// A chunk written with `to_bytes` and read back with `from_bytes` carries
/// the same bytecode.
pub proof fn lemma_meta_chunk_roundtrip(bytecode: Seq<u8>)
    requires
        bytecode.len() <= usize::MAX - 16,
    ensures
        spec_from_bytes(spec_to_bytes(bytecode)) == Ok::<Seq<u8>, MetaChunkError>(bytecode),
{
    let b = spec_to_bytes(bytecode);
    let n = bytecode.len();
    let len = n as u64;
    assert(b.skip(b.len() - 8) =~= magic());
    assert(b.subrange(b.len() - 16, b.len() - 8) =~= u64_be_bytes(len));
    lemma_be_u64_roundtrip(len);
    assert(stored_size(b) == len);
    assert(b.subrange(b.len() - 16 - stored_size(b), b.len() - 16) =~= bytecode);
}

/// Whether bytes end with the magic bytes, as a standalone executable does.
pub fn is_standalone_binary(bytes: &[u8]) -> (r: bool)
    ensures
        r == ends_with_magic(bytes@),
{
    let n = bytes.len();
    if n < 8 {
        return false;
    }
    let m = magic_bytes();
    let mut k: usize = 0;
    while k < 8
        invariant
            n == bytes@.len(),
            n >= 8,
            m@ == magic(),
            k <= 8,
            forall|j: int| 0 <= j < k ==> bytes@[n - 8 + j] == magic()[j],
        decreases 8 - k,
    {
        if bytes[n - 8 + k] != m[k] {
            assert(bytes@.skip(n - 8)[k as int] != magic()[k as int]);
            return false;
        }
        k = k + 1;
    }
    assert(bytes@.skip(n - 8) =~= magic());
    true
}

} // verus!
