use pngme::chunk::Chunk;
use pngme::chunk_type::ChunkType;
use pngme::codec::{decode_message, encode_message};
use pngme::error::PngError;
use pngme::png::Png;

const SIGNATURE: [u8; 8] = [137, 80, 78, 71, 13, 10, 26, 10];

fn empty_file() -> Vec<u8> {
    SIGNATURE.to_vec()
}

fn file_with_chunks(chunks: Vec<(&str, &[u8])>) -> Vec<u8> {
    let mut png = Png::parse(&empty_file()).ok().unwrap();
    for (t, d) in chunks {
        let ct = ChunkType::from_str(t).unwrap();
        png.append_chunk(Chunk::new(ct, d.to_vec()));
    }
    png.as_bytes()
}

#[test]
fn test_png_parse_empty() {
    let file = empty_file();
    let png = Png::parse(&file).ok().unwrap();
    assert_eq!(png.as_bytes(), file);
}

#[test]
fn test_png_parse_bad_signature() {
    let mut file = empty_file();
    file[0] = 0x89 ^ 0xFF;
    let r = Png::parse(&file);
    assert_eq!(r.err().unwrap(), PngError::InvalidSignature);

    let short: Vec<u8> = vec![137, 80, 78];
    assert_eq!(Png::parse(&short).err().unwrap(), PngError::InvalidSignature);
}

#[test]
fn test_png_roundtrip() {
    let file = file_with_chunks(vec![
        ("FrSt", b"I am the first chunk"),
        ("miDl", b"I am another chunk"),
        ("LASt", b"I am the last chunk"),
    ]);
    let png = Png::parse(&file).ok().unwrap();
    assert_eq!(png.as_bytes(), file);
}

#[test]
fn test_png_parse_propagates_chunk_error() {
    let mut file = file_with_chunks(vec![("FrSt", b"payload")]);
    let n = file.len();
    file[n - 1] ^= 0x10;
    assert_eq!(Png::parse(&file).err().unwrap(), PngError::CrcMismatch);
}

#[test]
fn test_png_parse_truncated_chunk() {
    let mut file = empty_file();
    // Declared length far beyond the remaining bytes.
    file.extend_from_slice(&[0, 0, 0, 99]);
    file.extend_from_slice(b"teXt");
    file.extend_from_slice(&[1, 2, 3]);
    assert_eq!(Png::parse(&file).err().unwrap(), PngError::UnexpectedEof);
}

#[test]
fn test_append_and_lookup() {
    let file = file_with_chunks(vec![("FrSt", b"other data")]);
    let mut png = Png::parse(&file).ok().unwrap();
    let ct = ChunkType::from_str("ruSt").unwrap();
    png.append_chunk(Chunk::new(ct, b"secret".to_vec()));
    let found = png.chunk_by_type("ruSt").unwrap();
    assert_eq!(found.data(), &b"secret".to_vec());
    assert!(png.chunk_by_type("noNe").is_none());
}

#[test]
fn test_lookup_first_match_wins() {
    let file = file_with_chunks(vec![("duPl", b"first"), ("duPl", b"second")]);
    let png = Png::parse(&file).ok().unwrap();
    let found = png.chunk_by_type("duPl").unwrap();
    assert_eq!(found.data(), &b"first".to_vec());
}

#[test]
fn test_encode_then_decode() {
    let file = file_with_chunks(vec![("FrSt", b"image data")]);
    let secret = "this is where your secret message will be!";
    let encoded = encode_message(&file, "ruSt", &secret.as_bytes().to_vec()).unwrap();
    assert_eq!(decode_message(&encoded, "ruSt").unwrap(), secret);
}

#[test]
fn test_encode_preserves_existing_bytes() {
    let file = file_with_chunks(vec![("FrSt", b"image data")]);
    let encoded = encode_message(&file, "ruSt", &b"secret".to_vec()).unwrap();
    assert_eq!(&encoded[..file.len()], &file[..]);
}

#[test]
fn test_encode_rejects_bad_type() {
    let file = empty_file();
    let r = encode_message(&file, "ru1t", &b"secret".to_vec());
    assert_eq!(r.unwrap_err(), PngError::InvalidByte);
}

#[test]
fn test_decode_not_found() {
    let file = file_with_chunks(vec![("FrSt", b"image data")]);
    assert_eq!(decode_message(&file, "ruSt").unwrap_err(), PngError::NotFound);
}

#[test]
fn test_decode_invalid_utf8() {
    let file = file_with_chunks(vec![("ruSt", &[0xC0, 0x80])]);
    assert_eq!(decode_message(&file, "ruSt").unwrap_err(), PngError::InvalidUtf8);
}

#[test]
fn test_decode_propagates_parse_error() {
    let file: Vec<u8> = vec![1, 2, 3];
    assert_eq!(decode_message(&file, "ruSt").unwrap_err(), PngError::InvalidSignature);
}
