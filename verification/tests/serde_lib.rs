use lune::builtins::{EncodeDecodeConfig, EncodeDecodeFormat};
use lune::compress::{
    compress, compress_lz4, decompress, decompress_lz4, CompressDecompressFormat, CompressError, Lz4Error,
};
use lune::crypto::{hash, Crypto, CryptoAlgo, DigestError, EncodingKind};

#[test]
fn crypto_hex_digests_of_abc() {
    let cases = [
        (Crypto::sha1(Some("abc")), "a9993e364706816aba3e25717850c26c9cd0d89d"),
        (
            Crypto::sha256(Some("abc")),
            "ba7816bf8f01cfea414140de5dae2223b00361a396177a9cb410ff61f20015ad",
        ),
        (Crypto::md5(Some("abc")), "900150983cd24fb0d6963f7d28e17f72"),
        (
            Crypto::blake2s256(Some("abc")),
            "508c5e8c327c14e2e1a72ba34eeb452f37458b209ed63a294d999b4c86675982",
        ),
        (
            Crypto::sha3_256(Some("abc")),
            "3a985da74fe225b2045c172d6bd390bd855f086e3e9d525b46bfe24511431532",
        ),
    ];
    for (c, expected) in cases {
        assert_eq!(c.digest(EncodingKind::Hex).unwrap(), expected);
    }
    assert_eq!(
        Crypto::sha512(Some("abc")).digest(EncodingKind::Hex).unwrap(),
        "ddaf35a193617abacc417349ae20413112e6fa4e89a97ea20a9eeee64b55d39a2192992a274fc1a836ba3c23a3feebbd454d4423643ce80e2a9ac94fa54ca49f"
    );
    assert_eq!(
        Crypto::blake2b512(Some("abc")).digest(EncodingKind::Hex).unwrap(),
        "ba80a53f981c4d0d6a2797b69f12f6e94c212f14685ac4b74b12bb6fdbffa2d17d87c5392aab792dc252d5de4533cc9518d38aa8dbf1925ab92386edd4009923"
    );
    assert_eq!(
        Crypto::sha3_512(Some("abc")).digest(EncodingKind::Hex).unwrap(),
        "b751850b1a57168a5693cd924b6b096e08f621827444f70d884f5d0240d2712e10e116e9192af3c91a7ec57647e3934057340b4cf408d5a56592f8274eec53f0"
    );
}

#[test]
fn crypto_update_in_pieces_equals_whole() {
    let mut pieces = Crypto::sha256(Some("hello"));
    pieces.update(b" ");
    pieces.update(b"world");
    let whole = Crypto::sha256(Some("hello world"));
    assert_eq!(pieces.digest(EncodingKind::Hex).unwrap(), whole.digest(EncodingKind::Hex).unwrap());
    assert_eq!(
        whole.digest(EncodingKind::Hex).unwrap(),
        "b94d27b9934d3e08a52e52d7da7dabfac484efe37a5380ee9088f7ace2efcde9"
    );
}

#[test]
fn crypto_digest_leaves_hasher_unchanged() {
    let c = Crypto::md5(Some("abc"));
    let first = c.digest(EncodingKind::Hex).unwrap();
    let second = c.digest(EncodingKind::Hex).unwrap();
    assert_eq!(first, second);
    assert_eq!(c.algo(), CryptoAlgo::Md5);
}

#[test]
fn crypto_base64_and_utf8_encodings() {
    let c = Crypto::md5(Some("abc"));
    assert_eq!(c.digest(EncodingKind::Base64).unwrap(), "kAFQmDzST7DWlj99KOF/cg==");
    assert_eq!(c.digest(EncodingKind::Utf8), Err(DigestError::InvalidUtf8));
    let empty = Crypto::new(CryptoAlgo::Sha1, None);
    assert_eq!(
        empty.digest(EncodingKind::Hex).unwrap(),
        "da39a3ee5e6b4b0d3255bfef95601890afd80709"
    );
}

#[test]
fn crypto_hash_lengths() {
    assert_eq!(hash(CryptoAlgo::Sha1, b"x").len(), 20);
    assert_eq!(hash(CryptoAlgo::Md5, b"x").len(), 16);
    assert_eq!(hash(CryptoAlgo::Sha256, b"x").len(), 32);
    assert_eq!(hash(CryptoAlgo::Sha512, b"x").len(), 64);
}

#[test]
fn crypto_encoding_names() {
    assert_eq!(EncodingKind::from_index(0), EncodingKind::Utf8);
    assert_eq!(EncodingKind::from_index(1), EncodingKind::Base64);
    assert_eq!(EncodingKind::from_index(2), EncodingKind::Hex);
    assert_eq!(EncodingKind::from_name("HEX"), EncodingKind::Hex);
    assert_eq!(EncodingKind::from_name("Base64"), EncodingKind::Base64);
    assert!(EncodingKind::is_valid_name("utf8"));
    assert!(!EncodingKind::is_valid_name("utf-8"));
}

#[test]
fn compress_detect_from_bytes() {
    assert_eq!(
        CompressDecompressFormat::detect_from_bytes(&[0x04, 0x22, 0x4D, 0x18, 0x00]),
        Some(CompressDecompressFormat::LZ4)
    );
    assert_eq!(
        CompressDecompressFormat::detect_from_bytes(&[0x02, 0x21, 0x4C, 0x18]),
        Some(CompressDecompressFormat::LZ4)
    );
    assert_eq!(
        CompressDecompressFormat::detect_from_bytes(&[0xE1, 0x97, 0x81, 0x00]),
        Some(CompressDecompressFormat::Brotli)
    );
    assert_eq!(CompressDecompressFormat::detect_from_bytes(&[0xE1, 0x97, 0x81]), None);
    assert_eq!(
        CompressDecompressFormat::detect_from_bytes(&[0x1F, 0x8B, 0x08]),
        Some(CompressDecompressFormat::GZip)
    );
    assert_eq!(
        CompressDecompressFormat::detect_from_bytes(&[0x78, 0x9C, 0xAA]),
        Some(CompressDecompressFormat::ZLib)
    );
    assert_eq!(CompressDecompressFormat::detect_from_bytes(&[0x78, 0x00]), None);
    assert_eq!(CompressDecompressFormat::detect_from_bytes(b""), None);
}

#[test]
fn compress_detect_from_header() {
    assert_eq!(
        CompressDecompressFormat::detect_from_header_str(" BR "),
        Some(CompressDecompressFormat::Brotli)
    );
    assert_eq!(
        CompressDecompressFormat::detect_from_header_str("deflate"),
        Some(CompressDecompressFormat::ZLib)
    );
    assert_eq!(
        CompressDecompressFormat::detect_from_header_str("GZip"),
        Some(CompressDecompressFormat::GZip)
    );
    assert_eq!(CompressDecompressFormat::detect_from_header_str("lz4"), None);
}

#[test]
fn compress_format_names() {
    assert_eq!(CompressDecompressFormat::from_name(" LZ4"), Ok(CompressDecompressFormat::LZ4));
    assert_eq!(CompressDecompressFormat::from_name("zlib"), Ok(CompressDecompressFormat::ZLib));
    assert_eq!(
        CompressDecompressFormat::from_name(" Snappy "),
        Err("Invalid format 'snappy', valid formats are:  brotli, gzip, lz4, zlib".to_string())
    );
}

#[test]
fn lz4_roundtrip_and_size_prefix() {
    let data = b"hello hello hello hello hello hello".to_vec();
    let compressed = compress_lz4(&data);
    assert_ne!(compressed, data);
    assert_eq!(&compressed[..4], &(data.len() as u32).to_le_bytes());
    let back = decompress_lz4(&compressed).unwrap();
    assert_eq!(back, data);
    let empty = compress_lz4(b"");
    assert_eq!(decompress_lz4(&empty).unwrap(), Vec::<u8>::new());
}

#[test]
fn lz4_decompress_errors() {
    assert!(matches!(decompress_lz4(&[1, 2]), Err(Lz4Error::Corrupt(_))));
}

#[test]
fn encode_decode_format_names() {
    assert_eq!(EncodeDecodeFormat::from_name(" JSON "), Ok(EncodeDecodeFormat::Json));
    assert_eq!(EncodeDecodeFormat::from_name("toml"), Ok(EncodeDecodeFormat::Toml));
    assert_eq!(
        EncodeDecodeFormat::from_name("Xml"),
        Err("Invalid format 'xml', valid formats are:  json, yaml, toml".to_string())
    );
    let c = EncodeDecodeConfig::from_format(EncodeDecodeFormat::Yaml);
    assert!(!c.pretty);
    let c = EncodeDecodeConfig::from_format_pretty(EncodeDecodeFormat::Json, true);
    assert!(c.pretty);
    assert_eq!(c.format, EncodeDecodeFormat::Json);
}

#[test]
fn compress_roundtrip_in_every_format() {
    let text = b"hello hello hello hello hello hello, lune".to_vec();
    for format in [
        CompressDecompressFormat::Brotli,
        CompressDecompressFormat::GZip,
        CompressDecompressFormat::LZ4,
        CompressDecompressFormat::ZLib,
    ] {
        let packed = compress(format, &text).unwrap();
        assert_ne!(packed, text);
        assert_eq!(decompress(format, &packed).unwrap(), text);
        let empty = compress(format, b"").unwrap();
        assert_eq!(decompress(format, &empty).unwrap(), Vec::<u8>::new());
    }
}

#[test]
fn compressed_streams_carry_their_headers() {
    let text = b"some text to compress".to_vec();
    let gz = compress(CompressDecompressFormat::GZip, &text).unwrap();
    assert_eq!(CompressDecompressFormat::detect_from_bytes(&gz), Some(CompressDecompressFormat::GZip));
    let z = compress(CompressDecompressFormat::ZLib, &text).unwrap();
    assert_eq!(&z[0..2], &[0x78, 0xDA]);
    assert_eq!(CompressDecompressFormat::detect_from_bytes(&z), Some(CompressDecompressFormat::ZLib));
    let lz = compress(CompressDecompressFormat::LZ4, &text).unwrap();
    assert_eq!(&lz[0..4], &[21, 0, 0, 0]);
}

#[test]
fn decompressing_garbage_fails() {
    let junk = [0xFFu8, 0x00, 0x13, 0x37, 0x42];
    assert!(matches!(decompress(CompressDecompressFormat::GZip, &junk), Err(CompressError::Stream)));
    assert!(matches!(decompress(CompressDecompressFormat::ZLib, &junk), Err(CompressError::Stream)));
    assert!(matches!(decompress(CompressDecompressFormat::Brotli, &junk), Err(CompressError::Stream)));
    assert!(matches!(decompress(CompressDecompressFormat::LZ4, &[1, 0]), Err(CompressError::Lz4(_))));
}
