use vstd::prelude::*;

use vstd::std_specs::convert::TryFromSpec;
use vstd::string::StringSliceAdditionalSpecFns;
use vstd::utf8::{
    decode_utf8, encode_utf8, encode_utf8_decode_utf8, encode_utf8_valid_utf8, is_ascii_chars,
    is_ascii_chars_encode_utf8, valid_utf8,
};

use crate::pngme_error::PngMeError;

verus! {

/// The bit that tells an upper-case ASCII letter from its lower-case form.
pub const CASE_BIT: u8 = 32;

/// `b` is an ASCII letter, upper or lower case.
pub open spec fn is_type_letter(b: u8) -> bool {
    (65 <= b && b <= 90) || (97 <= b && b <= 122)
}

/// Four bytes, each an ASCII letter.
pub open spec fn valid_type_bytes(s: Seq<u8>) -> bool {
    &&& s.len() == 4
    &&& is_type_letter(s[0])
    &&& is_type_letter(s[1])
    &&& is_type_letter(s[2])
    &&& is_type_letter(s[3])
}

/// The case bit of `b` is set (for a letter: it is lower case).
pub open spec fn case_bit_set(b: u8) -> bool {
    b & CASE_BIT == CASE_BIT
}

/// What `ChunkType::from_bytes` gives for `b`.
pub open spec fn type_from_bytes_result(b: Seq<u8>) -> Result<Seq<u8>, PngMeError> {
    if valid_type_bytes(b) {
        Ok(b)
    } else {
        Err(PngMeError::InvalidCharacterChunkType)
    }
}

/// What `ChunkType::from_string` gives for a text whose UTF-8 bytes are `b`.
pub open spec fn type_from_text_result(b: Seq<u8>) -> Result<Seq<u8>, PngMeError> {
    if b.len() != 4 {
        Err(PngMeError::ChunkTypeByteLengthError(b.len() as usize))
    } else {
        type_from_bytes_result(b)
    }
}

/// Relies on `String::from_utf8`: it succeeds exactly when the bytes are valid UTF-8, and
/// then holds the characters that they encode.
#[verifier::external_body]
pub(crate) fn utf8_string(bytes: Vec<u8>) -> (r: Option<String>)
    ensures
        r is Some <==> valid_utf8(bytes@),
        r matches Some(s) ==> s@ == decode_utf8(bytes@),
{
    String::from_utf8(bytes).ok()
}

/// The characters of an ASCII byte string.
pub open spec fn ascii_chars(b: Seq<u8>) -> Seq<char> {
    b.map_values(|x: u8| x as char)
}

/// Letters, as UTF-8, decode to the characters of the same codes.
proof fn lemma_ascii_decode(b: Seq<u8>)
    requires
        valid_type_bytes(b),
    ensures
        valid_utf8(b),
        decode_utf8(b) == ascii_chars(b),
{
    let chars = ascii_chars(b);
    type_text_round_trip(b);
    encode_utf8_valid_utf8(chars);
    encode_utf8_decode_utf8(chars);
}

/// The text of a type code, as UTF-8, is the code's bytes again: parsing what `to_string`
/// gives yields the same code.
pub proof fn type_text_round_trip(b: Seq<u8>)
    requires
        valid_type_bytes(b),
    ensures
        encode_utf8(ascii_chars(b)) == b,
{
    let chars = ascii_chars(b);
    assert(is_ascii_chars(chars)) by {
        assert forall|i: int| 0 <= i < chars.len() implies '\0' <= #[trigger] chars[i] <= '\u{7f}' by {
            assert(i == 0 || i == 1 || i == 2 || i == 3);
        }
    }
    is_ascii_chars_encode_utf8(chars);
    assert forall|i: int| 0 <= i < 4 implies #[trigger] encode_utf8(chars)[i] == b[i] by {
        assert(i == 0 || i == 1 || i == 2 || i == 3);
        assert(chars[i] as u8 == b[i]);
    }
    assert(encode_utf8(chars) =~= b);
}

/// A chunk type code: four ASCII letters, whose case bits carry the chunk's properties.
#[derive(Debug, Clone, Copy, PartialEq, Eq)]
pub struct ChunkType {
    bytes: [u8; 4],
}

impl View for ChunkType {
    type V = Seq<u8>;

    closed spec fn view(&self) -> Seq<u8> {
        self.bytes@
    }
}

/// Letter test on one byte.
fn is_letter(b: u8) -> (r: bool)
    ensures
        r == is_type_letter(b),
{
    (65 <= b && b <= 90) || (97 <= b && b <= 122)
}

impl ChunkType {
    #[verifier::type_invariant]
    spec fn inv(self) -> bool {
        valid_type_bytes(self.bytes@)
    }

    /// The four bytes of the code.
    pub fn bytes(&self) -> (r: [u8; 4])
        ensures
            r@ == self@,
            valid_type_bytes(self@),
    {
        proof {
            use_type_invariant(self);
        }
        self.bytes
    }

    /// Builds a code from four bytes; each must be an ASCII letter.
    pub fn from_bytes(bytes: [u8; 4]) -> (r: Result<ChunkType, PngMeError>)
        ensures
            r.is_ok() <==> valid_type_bytes(bytes@),
            r matches Ok(t) ==> t@ == bytes@,
            r matches Err(e) ==> type_from_bytes_result(bytes@) == Err::<Seq<u8>, _>(e),
    {
        if !Self::are_bytes_valid(&bytes) {
            return Err(PngMeError::InvalidCharacterChunkType);
        }
        Ok(ChunkType { bytes })
    }

    /// Builds a code from text, which must be four bytes long, each an ASCII letter.
    pub fn from_string(s: &str) -> (r: Result<ChunkType, PngMeError>)
        ensures
            r.is_ok() <==> valid_type_bytes(s.spec_bytes()),
            r matches Ok(t) ==> t@ == s.spec_bytes(),
            r matches Err(e) ==> type_from_text_result(s.spec_bytes()) == Err::<Seq<u8>, _>(e),
    {
        let b = s.as_bytes();
        if b.len() != 4 {
            return Err(PngMeError::ChunkTypeByteLengthError(b.len()));
        }
        let bytes: [u8; 4] = [b[0], b[1], b[2], b[3]];
        assert(bytes@ =~= b@);
        Self::from_bytes(bytes)
    }

    /// Ancillary bit clear: the chunk is critical.
    pub fn is_critical(&self) -> (r: bool)
        ensures
            r == !case_bit_set(self@[0]),
    {
        self.bytes[0] & CASE_BIT != CASE_BIT
    }

    /// Private bit clear: the chunk type is public.
    pub fn is_public(&self) -> (r: bool)
        ensures
            r == !case_bit_set(self@[1]),
    {
        self.bytes[1] & CASE_BIT != CASE_BIT
    }

    /// Reserved bit clear: the code conforms to the current PNG version.
    pub fn is_reserved_bit_valid(&self) -> (r: bool)
        ensures
            r == !case_bit_set(self@[2]),
    {
        self.bytes[2] & CASE_BIT != CASE_BIT
    }

    /// Safe-to-copy bit set.
    pub fn is_safe_to_copy(&self) -> (r: bool)
        ensures
            r == case_bit_set(self@[3]),
    {
        self.bytes[3] & CASE_BIT == CASE_BIT
    }

    /// All four bytes are letters and the reserved bit is valid.
    pub fn is_valid(&self) -> (r: bool)
        ensures
            r == (valid_type_bytes(self@) && !case_bit_set(self@[2])),
    {
        Self::are_bytes_valid(&self.bytes) && self.is_reserved_bit_valid()
    }

    /// The code as text: its four letters.
    pub fn to_string(&self) -> (r: String)
        ensures
            r@ == ascii_chars(self@),
    {
        proof {
            use_type_invariant(self);
        }
        let v: Vec<u8> = vec![self.bytes[0], self.bytes[1], self.bytes[2], self.bytes[3]];
        assert(v@ =~= self@);
        proof {
            lemma_ascii_decode(self@);
        }
        match utf8_string(v) {
            Some(s) => s,
            None => String::new(),
        }
    }

    fn are_bytes_valid(bytes: &[u8; 4]) -> (r: bool)
        ensures
            r == valid_type_bytes(bytes@),
    {
        is_letter(bytes[0]) && is_letter(bytes[1]) && is_letter(bytes[2]) && is_letter(bytes[3])
    }
}

/// Two arrays with the same elements are equal.
proof fn lemma_array_eq(a: [u8; 4], b: [u8; 4])
    requires
        a@ == b@,
    ensures
        a == b,
{
    assert(a =~= b);
}

/// The code whose bytes are `b`.
pub closed spec fn chunk_type_of(b: [u8; 4]) -> ChunkType {
    ChunkType { bytes: b }
}

/// The code whose bytes are `b` has `b` as its value.
pub broadcast proof fn chunk_type_of_view(b: [u8; 4])
    ensures
        #[trigger] chunk_type_of(b)@ == b@,
{
}

/// What `ChunkType::try_from` returns for `v`: a code holding `v` exactly when all four
/// bytes are ASCII letters, and `InvalidCharacterChunkType` otherwise.
pub proof fn try_from_result(v: [u8; 4])
    ensures
        <ChunkType as TryFromSpec<[u8; 4]>>::try_from_spec(v) is Ok <==> valid_type_bytes(v@),
        <ChunkType as TryFromSpec<[u8; 4]>>::try_from_spec(v) matches Ok(t) ==> t@ == v@,
        <ChunkType as TryFromSpec<[u8; 4]>>::try_from_spec(v) matches Err(e) ==> e
            == PngMeError::InvalidCharacterChunkType,
{
}

impl TryFrom<[u8; 4]> for ChunkType {
    type Error = PngMeError;

    fn try_from(value: [u8; 4]) -> Result<Self, Self::Error> {
        let r = Self::from_bytes(value);
        proof {
            if let Ok(t) = r {
                assert(t.bytes@ == value@);
                lemma_array_eq(t.bytes, value);
            }
        }
        r
    }
}

impl vstd::std_specs::convert::TryFromSpecImpl<[u8; 4]> for ChunkType {
    open spec fn obeys_try_from_spec() -> bool {
        true
    }

    open spec fn try_from_spec(v: [u8; 4]) -> Result<Self, PngMeError> {
        if valid_type_bytes(v@) {
            Ok(chunk_type_of(v))
        } else {
            Err(PngMeError::InvalidCharacterChunkType)
        }
    }
}

impl std::str::FromStr for ChunkType {
    type Err = PngMeError;

    fn from_str(s: &str) -> (r: Result<Self, Self::Err>)
        ensures
            r.is_ok() <==> valid_type_bytes(s.spec_bytes()),
            r matches Ok(t) ==> t@ == s.spec_bytes(),
            r matches Err(e) ==> type_from_text_result(s.spec_bytes()) == Err::<Seq<u8>, _>(e),
    {
        Self::from_string(s)
    }
}

} // verus!
