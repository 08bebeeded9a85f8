use pngme::chunk::Chunk;
use pngme::chunk_type::ChunkType;
use pngme::pngme_error::PngMeError;

const MESSAGE: &str = "This is where your secret message will be!";

fn rust_chunk() -> Chunk {
    let t = ChunkType::from_string("RuSt").unwrap();
    Chunk::new(t, MESSAGE.as_bytes().to_vec())
}

#[test]
fn new_chunk_has_length_and_crc() {
    let c = rust_chunk();
    assert_eq!(c.length(), 42);
    assert_eq!(c.crc(), 2882656334);
    assert_eq!(c.chunk_type().to_string(), "RuSt");
    assert_eq!(c.data(), MESSAGE.as_bytes());
}

#[test]
fn crc_of_empty_data_is_crc_of_type() {
    let t = ChunkType::from_string("IEND").unwrap();
    let c = Chunk::new(t, Vec::new());
    assert_eq!(c.crc(), 0xAE42_6082);
    assert_eq!(
        c.serialize(),
        vec![0, 0, 0, 0, 73, 69, 78, 68, 0xAE, 0x42, 0x60, 0x82]
    );
}

#[test]
fn serialize_lays_out_the_record() {
    let c = rust_chunk();
    let bytes = c.serialize();
    assert_eq!(bytes.len(), 12 + 42);
    assert_eq!(&bytes[0..4], &[0, 0, 0, 42]);
    assert_eq!(&bytes[4..8], b"RuSt");
    assert_eq!(&bytes[8..50], MESSAGE.as_bytes());
    assert_eq!(&bytes[50..54], &2882656334u32.to_be_bytes());
}

#[test]
fn chunk_round_trips_through_its_record() {
    let c = rust_chunk();
    let bytes = c.serialize();
    let (back, used) = Chunk::deserialize(&bytes).unwrap();
    assert_eq!(back, c);
    assert_eq!(used, 12 + 42);
    assert_eq!(back.data_as_string().unwrap(), MESSAGE);
}

#[test]
fn empty_chunk_round_trips() {
    let t = ChunkType::from_string("ruSt").unwrap();
    let c = Chunk::new(t, Vec::new());
    let bytes = c.serialize();
    let (back, used) = Chunk::deserialize(&bytes).unwrap();
    assert_eq!(back, c);
    assert_eq!(used, 12);
}

#[test]
fn deserialize_stops_after_one_record() {
    let c = rust_chunk();
    let mut bytes = c.serialize();
    bytes.extend_from_slice(&[1, 2, 3]);
    let (back, used) = Chunk::deserialize(&bytes).unwrap();
    assert_eq!(back, c);
    assert_eq!(used, 54);
}

#[test]
fn flipping_a_data_or_case_bit_is_detected() {
    let c = rust_chunk();
    let bytes = c.serialize();
    for i in 8..50 {
        for bit in 0..8 {
            let mut t = bytes.clone();
            t[i] ^= 1 << bit;
            match Chunk::deserialize(&t) {
                Err(PngMeError::CrcDoNotMatch(given, _)) => assert_eq!(given, 2882656334),
                other => panic!("byte {} bit {}: {:?}", i, bit, other),
            }
        }
    }
    for i in 4..8 {
        let mut t = bytes.clone();
        t[i] ^= 0x20;
        assert!(matches!(Chunk::deserialize(&t), Err(PngMeError::CrcDoNotMatch(_, _))));
    }
}

#[test]
fn wrong_stored_crc_is_reported_with_both_values() {
    let mut bytes = rust_chunk().serialize();
    bytes[53] ^= 1;
    assert_eq!(
        Chunk::deserialize(&bytes),
        Err(PngMeError::CrcDoNotMatch(2882656335, 2882656334))
    );
}

#[test]
fn bad_type_byte_is_rejected() {
    let mut bytes = rust_chunk().serialize();
    bytes[5] = b'1';
    assert_eq!(Chunk::deserialize(&bytes), Err(PngMeError::InvalidCharacterChunkType));
}

#[test]
fn short_buffers_are_truncated_input() {
    let bytes = rust_chunk().serialize();
    assert_eq!(Chunk::deserialize(&bytes[..7]), Err(PngMeError::TruncatedInput));
    assert_eq!(Chunk::deserialize(&bytes[..53]), Err(PngMeError::TruncatedInput));
    assert_eq!(Chunk::deserialize(&[]), Err(PngMeError::TruncatedInput));
    let mut huge = bytes.clone();
    huge[0] = 0xFF;
    assert_eq!(Chunk::deserialize(&huge), Err(PngMeError::TruncatedInput));
}

#[test]
fn data_that_is_not_utf8_is_reported() {
    let t = ChunkType::from_string("RuSt").unwrap();
    let c = Chunk::new(t, vec![0xFF, 0xFE]);
    assert_eq!(c.data_as_string(), Err(PngMeError::NotUtf8));
}
