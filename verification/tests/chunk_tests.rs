use pngme::chunk::Chunk;
use pngme::chunk_type::ChunkType;
use pngme::error::PngError;

fn iend_bytes() -> Vec<u8> {
    vec![0, 0, 0, 0, 73, 69, 78, 68, 0xAE, 0x42, 0x60, 0x82]
}

#[test]
fn test_chunk_new_crc() {
    let ct = ChunkType::from_str("IEND").unwrap();
    let chunk = Chunk::new(ct, Vec::new());
    assert_eq!(chunk.length(), 0);
    assert_eq!(chunk.crc(), 0xAE42_6082);
}

#[test]
fn test_chunk_serialize_exact() {
    let ct = ChunkType::from_str("IEND").unwrap();
    let chunk = Chunk::new(ct, Vec::new());
    assert_eq!(chunk.as_bytes(), iend_bytes());
}

#[test]
fn test_chunk_parse_roundtrip() {
    let ct = ChunkType::from_str("teXt").unwrap();
    let payload: Vec<u8> = b"hello there".to_vec();
    let chunk = Chunk::new(ct, payload.clone());
    let wire = chunk.as_bytes();
    assert_eq!(wire.len(), 12 + payload.len());
    assert_eq!(&wire[0..4], &[0, 0, 0, 11]);
    assert_eq!(&wire[4..8], b"teXt");
    assert_eq!(&wire[8..19], b"hello there");

    let (parsed, consumed) = Chunk::parse(&wire, 0).ok().unwrap();
    assert_eq!(consumed, wire.len());
    assert_eq!(parsed.length() as usize, payload.len());
    assert_eq!(parsed.data(), &payload);
    assert_eq!(parsed.chunk_type().bytes(), [b't', b'e', b'X', b't']);
    assert_eq!(parsed.crc(), chunk.crc());
    assert_eq!(parsed.as_bytes(), wire);
}

#[test]
fn test_chunk_parse_crc_mismatch() {
    let ct = ChunkType::from_str("teXt").unwrap();
    let chunk = Chunk::new(ct, b"payload".to_vec());
    let mut wire = chunk.as_bytes();
    wire[8] ^= 0x01;
    let r = Chunk::parse(&wire, 0);
    assert_eq!(r.err().unwrap(), PngError::CrcMismatch);
}

#[test]
fn test_chunk_crc_detects_every_payload_bit_flip() {
    let ct = ChunkType::from_str("ruSt").unwrap();
    let payload: Vec<u8> = b"this is where your secret message will be!".to_vec();
    let chunk = Chunk::new(ct, payload.clone());
    let wire = chunk.as_bytes();
    assert!(Chunk::parse(&wire, 0).is_ok());
    for byte_index in 0..payload.len() {
        for bit in 0..8 {
            let mut corrupt = wire.clone();
            corrupt[8 + byte_index] ^= 1u8 << bit;
            let r = Chunk::parse(&corrupt, 0);
            assert_eq!(r.err().unwrap(), PngError::CrcMismatch);
        }
    }
}

#[test]
fn test_chunk_parse_truncated_eof() {
    // Declared length 100, but only 4 payload bytes follow the header.
    let mut wire: Vec<u8> = vec![0, 0, 0, 100];
    wire.extend_from_slice(b"teXt");
    wire.extend_from_slice(&[1, 2, 3, 4]);
    let r = Chunk::parse(&wire, 0);
    assert_eq!(r.err().unwrap(), PngError::UnexpectedEof);
}

#[test]
fn test_chunk_parse_short_header_eof() {
    let wire: Vec<u8> = vec![0, 0, 0];
    let r = Chunk::parse(&wire, 0);
    assert_eq!(r.err().unwrap(), PngError::UnexpectedEof);
}

#[test]
fn test_chunk_parse_invalid_type_byte() {
    let ct = ChunkType::from_str("teXt").unwrap();
    let chunk = Chunk::new(ct, Vec::new());
    let mut wire = chunk.as_bytes();
    wire[4] = b'1';
    let r = Chunk::parse(&wire, 0);
    assert_eq!(r.err().unwrap(), PngError::InvalidByte);
}

#[test]
fn test_chunk_data_as_string() {
    let ct = ChunkType::from_str("teXt").unwrap();
    let chunk = Chunk::new(ct, "grüße".as_bytes().to_vec());
    assert_eq!(chunk.data_as_string().unwrap(), "grüße");
}

#[test]
fn test_chunk_data_as_string_invalid_utf8() {
    let ct = ChunkType::from_str("teXt").unwrap();
    let chunk = Chunk::new(ct, vec![0xFF, 0xFE, 0x00]);
    assert_eq!(chunk.data_as_string().unwrap_err(), PngError::InvalidUtf8);
}
