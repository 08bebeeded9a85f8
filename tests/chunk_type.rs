use std::convert::TryFrom;
use std::str::FromStr;

use pngme::chunk_type::ChunkType;
use pngme::pngme_error::PngMeError;

#[test]
pub fn test_chunk_type_from_bytes() {
    let expected = [82, 117, 83, 116];
    let actual = ChunkType::try_from([82, 117, 83, 116]).unwrap();

    assert_eq!(expected, actual.bytes());
}

#[test]
pub fn test_chunk_type_from_illegal_bytes() {
    let actual = ChunkType::try_from([0, 0, 0, 0]);
    assert!(actual.is_err());
}

#[test]
pub fn test_chunk_type_from_str() {
    let expected = ChunkType::try_from([82, 117, 83, 116]).unwrap();
    let actual = ChunkType::from_str("RuSt").unwrap();
    assert_eq!(expected, actual);
}

#[test]
pub fn test_chunk_type_is_critical() {
    let chunk = ChunkType::from_str("RuSt").unwrap();
    assert!(chunk.is_critical());
}

#[test]
pub fn test_chunk_type_is_not_critical() {
    let chunk = ChunkType::from_str("ruSt").unwrap();
    assert!(!chunk.is_critical());
}

#[test]
pub fn test_chunk_type_is_public() {
    let chunk = ChunkType::from_str("RUSt").unwrap();
    assert!(chunk.is_public());
}

#[test]
pub fn test_chunk_type_is_not_public() {
    let chunk = ChunkType::from_str("RuSt").unwrap();
    assert!(!chunk.is_public());
}

#[test]
pub fn test_chunk_type_is_reserved_bit_valid() {
    let chunk = ChunkType::from_str("RuSt").unwrap();
    assert!(chunk.is_reserved_bit_valid());
}

#[test]
pub fn test_chunk_type_is_reserved_bit_invalid() {
    let chunk = ChunkType::from_str("Rust").unwrap();
    assert!(!chunk.is_reserved_bit_valid());
}

#[test]
pub fn test_chunk_type_is_safe_to_copy() {
    let chunk = ChunkType::from_str("RuSt").unwrap();
    assert!(chunk.is_safe_to_copy());
}

#[test]
pub fn test_chunk_type_is_unsafe_to_copy() {
    let chunk = ChunkType::from_str("RuST").unwrap();
    assert!(!chunk.is_safe_to_copy());
}

#[test]
pub fn test_valid_chunk_is_valid() {
    let chunk = ChunkType::from_str("RuSt").unwrap();
    assert!(chunk.is_valid());
}

#[test]
pub fn test_invalid_chunk_is_valid() {
    let chunk = ChunkType::from_str("Rust").unwrap();
    assert!(!chunk.is_valid());

    let chunk = ChunkType::from_str("Ru1t");
    assert!(chunk.is_err());
}

#[test]
pub fn test_chunk_type_string() {
    let chunk = ChunkType::from_str("RuSt").unwrap();
    assert_eq!(&chunk.to_string(), "RuSt");
}

#[test]
pub fn test_chunk_from_too_long_string() {
    let s = "RUSTT";
    let chunk = ChunkType::from_str(s).err().unwrap();
    assert_eq!(chunk, PngMeError::ChunkTypeByteLengthError(s.len()));
}

#[test]
pub fn test_chunk_from_too_short_string() {
    let s = "RUS";
    let chunk = ChunkType::from_str(s).err().unwrap();
    assert_eq!(chunk, PngMeError::ChunkTypeByteLengthError(s.len()));
}

#[test]
pub fn test_chunk_type_trait_impls() {
    let chunk_type_1: ChunkType = TryFrom::try_from([82, 117, 83, 116]).unwrap();
    let chunk_type_2: ChunkType = FromStr::from_str("RuSt").unwrap();
    let _chunk_string = chunk_type_1.to_string();
    let _are_chunks_equal = chunk_type_1 == chunk_type_2;
}

#[test]
fn every_letter_quadruple_is_accepted() {
    let letters: Vec<u8> = (b'A'..=b'Z').chain(b'a'..=b'z').collect();
    for &a in &letters {
        for &b in &[b'A', b'z'] {
            let t = ChunkType::from_bytes([a, b, a, b]).unwrap();
            assert_eq!(t.bytes(), [a, b, a, b]);
        }
    }
}

#[test]
fn any_non_letter_byte_is_rejected() {
    for x in 0u8..=255 {
        if x.is_ascii_alphabetic() {
            continue;
        }
        for pos in 0..4 {
            let mut b = *b"RuSt";
            b[pos] = x;
            assert_eq!(ChunkType::from_bytes(b), Err(PngMeError::InvalidCharacterChunkType));
        }
    }
}

#[test]
fn case_bits_give_the_properties() {
    let t = ChunkType::from_string("RuSt").unwrap();
    assert!(t.is_critical());
    assert!(!t.is_public());
    assert!(t.is_reserved_bit_valid());
    assert!(t.is_safe_to_copy());
    assert!(t.is_valid());

    let t = ChunkType::from_string("aBcD").unwrap();
    assert!(!t.is_critical());
    assert!(t.is_public());
    assert!(!t.is_reserved_bit_valid());
    assert!(!t.is_safe_to_copy());
    assert!(!t.is_valid());
}

#[test]
fn lowercase_third_letter_is_not_valid() {
    let t = ChunkType::from_string("Rust").unwrap();
    assert!(!t.is_reserved_bit_valid());
    assert!(!t.is_valid());
}

#[test]
fn wrong_length_text_reports_its_length() {
    assert_eq!(ChunkType::from_string("RUSTT"), Err(PngMeError::ChunkTypeByteLengthError(5)));
    assert_eq!(ChunkType::from_string("RUS"), Err(PngMeError::ChunkTypeByteLengthError(3)));
    assert_eq!(ChunkType::from_string(""), Err(PngMeError::ChunkTypeByteLengthError(0)));
    // four characters, but five bytes in UTF-8
    assert_eq!(ChunkType::from_string("RuSé"), Err(PngMeError::ChunkTypeByteLengthError(5)));
}

#[test]
fn to_string_gives_the_letters() {
    let t = ChunkType::from_bytes([73, 69, 78, 68]).unwrap();
    assert_eq!(t.to_string(), "IEND");
}

#[test]
fn try_from_accepts_range_ends_and_rejects_neighbours() {
    let t = ChunkType::try_from([65, 90, 97, 122]).unwrap();
    assert_eq!(t.bytes(), [65, 90, 97, 122]);
    assert_eq!(ChunkType::try_from([64, 91, 96, 123]), Err(PngMeError::InvalidCharacterChunkType));
    assert_eq!(ChunkType::try_from([0, 0, 0, 0]), Err(PngMeError::InvalidCharacterChunkType));
}

#[test]
fn from_str_reads_back_to_string() {
    for text in ["RuSt", "IEND", "aBcD"] {
        let t = ChunkType::from_str(text).unwrap();
        assert_eq!(ChunkType::from_str(&t.to_string()), Ok(t));
    }
}

#[test]
fn four_bytes_that_are_not_letters_are_rejected() {
    // three characters, four bytes in UTF-8
    assert_eq!(ChunkType::from_str("Rüs"), Err(PngMeError::InvalidCharacterChunkType));
    assert_eq!(ChunkType::from_str("Ru1t"), Err(PngMeError::InvalidCharacterChunkType));
}
