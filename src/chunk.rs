use vstd::prelude::*;

use vstd::utf8::{decode_utf8, valid_utf8};

use crate::chunk_type::{utf8_string, valid_type_bytes, ChunkType};
use crate::pngme_error::PngMeError;

verus! {

/// The CRC-32/ISO-HDLC checksum of `bytes`.
pub uninterp spec fn crc32_of(bytes: Seq<u8>) -> u32;

/// Relies on `crc::Crc::<u32>::checksum` under `crc::CRC_32_ISO_HDLC`: the checksum is
/// a function of the bytes alone.
#[verifier::external_body]
fn crc32(bytes: &[u8]) -> (r: u32)
    ensures
        r == crc32_of(bytes@),
{
    crc::Crc::<u32>::new(&crc::CRC_32_ISO_HDLC).checksum(bytes)
}

/// The four big-endian bytes of `n`.
pub open spec fn be_bytes(n: u32) -> Seq<u8> {
    seq![(n >> 24u32) as u8, (n >> 16u32) as u8, (n >> 8u32) as u8, n as u8]
}

/// The number that the first four bytes of `s` spell in big-endian order.
pub open spec fn be_value(s: Seq<u8>) -> u32 {
    ((s[0] as u32) << 24u32) | ((s[1] as u32) << 16u32) | ((s[2] as u32) << 8u32) | (s[3] as u32)
}

/// A chunk as a value: its type code and its data.
pub struct ChunkModel {
    pub chunk_type: Seq<u8>,
    pub data: Seq<u8>,
}

/// A chunk that can stand in a file: a valid type code, and data whose length fits the
/// four-byte length field.
pub open spec fn chunk_model_valid(m: ChunkModel) -> bool {
    valid_type_bytes(m.chunk_type) && m.data.len() <= u32::MAX
}

/// The CRC of a chunk, taken over its type code followed by its data.
pub open spec fn chunk_crc(m: ChunkModel) -> u32 {
    crc32_of(m.chunk_type + m.data)
}

/// The record of a chunk in a file: length, type code, data, CRC.
pub open spec fn chunk_wire(m: ChunkModel) -> Seq<u8> {
    be_bytes(m.data.len() as u32) + m.chunk_type + m.data + be_bytes(chunk_crc(m))
}

/// Reading one chunk record from the front of `buf`: the chunk and the number of bytes
/// that its record takes, or why there is none.
#[verifier::opaque]
pub open spec fn read_chunk(buf: Seq<u8>) -> Result<(ChunkModel, nat), PngMeError> {
    if buf.len() < 8 {
        Err(PngMeError::TruncatedInput)
    } else if !valid_type_bytes(buf.subrange(4, 8)) {
        Err(PngMeError::InvalidCharacterChunkType)
    } else {
        let len = be_value(buf) as int;
        if buf.len() < 12 + len {
            Err(PngMeError::TruncatedInput)
        } else {
            let m = ChunkModel { chunk_type: buf.subrange(4, 8), data: buf.subrange(8, 8 + len) };
            let stored = be_value(buf.subrange(8 + len, 12 + len));
            if stored != chunk_crc(m) {
                Err(PngMeError::CrcDoNotMatch(stored, chunk_crc(m)))
            } else {
                Ok((m, (12 + len) as nat))
            }
        }
    }
}

/// A chunk record in front of any bytes reads back as that chunk.
pub proof fn lemma_read_chunk_prefix(m: ChunkModel, rest: Seq<u8>)
    requires
        chunk_model_valid(m),
    ensures
        read_chunk(chunk_wire(m) + rest) == Ok::<(ChunkModel, nat), PngMeError>(
            (m, 12 + m.data.len()),
        ),
{
    reveal(read_chunk);
    let buf = chunk_wire(m) + rest;
    let len = m.data.len() as u32;
    let n = m.data.len() as int;
    lemma_be_round_trip(len);
    lemma_be_round_trip(chunk_crc(m));
    assert(buf.subrange(0, 4) =~= be_bytes(len));
    assert(be_value(buf) == be_value(buf.subrange(0, 4)));
    assert(buf.subrange(4, 8) =~= m.chunk_type);
    assert(buf.subrange(8, 8 + n) =~= m.data);
    assert(buf.subrange(8 + n, 12 + n) =~= be_bytes(chunk_crc(m)));
}

/// A chunk's record, read back, gives the same chunk and takes all `12 + len` bytes of it.
pub proof fn chunk_round_trip(m: ChunkModel)
    requires
        chunk_model_valid(m),
    ensures
        read_chunk(chunk_wire(m)) == Ok::<(ChunkModel, nat), PngMeError>((m, 12 + m.data.len())),
        chunk_wire(m).len() == 12 + m.data.len(),
{
    lemma_read_chunk_prefix(m, Seq::empty());
    assert(chunk_wire(m) + Seq::<u8>::empty() =~= chunk_wire(m));
}

/// A record whose type code and data were replaced by others of the same length, the type
/// code still letters, while the length and the stored CRC were kept: reading it reports
/// a CRC mismatch, with the stored and the recomputed CRC, exactly when the new contents
/// have a CRC other than the stored one.
pub proof fn altered_record_read(m: ChunkModel, altered: ChunkModel)
    requires
        chunk_model_valid(m),
        chunk_model_valid(altered),
        altered.data.len() == m.data.len(),
    ensures
        read_chunk(
            be_bytes(m.data.len() as u32) + altered.chunk_type + altered.data + be_bytes(
                chunk_crc(m),
            ),
        ) == if chunk_crc(altered) != chunk_crc(m) {
            Err::<(ChunkModel, nat), PngMeError>(
                PngMeError::CrcDoNotMatch(chunk_crc(m), chunk_crc(altered)),
            )
        } else {
            Ok::<(ChunkModel, nat), PngMeError>((altered, 12 + m.data.len()))
        },
{
    reveal(read_chunk);
    let buf = be_bytes(m.data.len() as u32) + altered.chunk_type + altered.data + be_bytes(
        chunk_crc(m),
    );
    let n = m.data.len() as int;
    lemma_be_round_trip(m.data.len() as u32);
    lemma_be_round_trip(chunk_crc(m));
    assert(buf.subrange(0, 4) =~= be_bytes(m.data.len() as u32));
    assert(be_value(buf) == be_value(buf.subrange(0, 4)));
    assert(buf.subrange(4, 8) =~= altered.chunk_type);
    assert(buf.subrange(8, 8 + n) =~= altered.data);
    assert(buf.subrange(8 + n, 12 + n) =~= be_bytes(chunk_crc(m)));
}

/// Reading back the four big-endian bytes of a number gives the number.
proof fn lemma_be_round_trip(n: u32)
    ensures
        be_value(be_bytes(n)) == n,
{
    let b0 = (n >> 24u32) as u8;
    let b1 = (n >> 16u32) as u8;
    let b2 = (n >> 8u32) as u8;
    let b3 = n as u8;
    assert(((b0 as u32) << 24u32) | ((b1 as u32) << 16u32) | ((b2 as u32) << 8u32) | (b3 as u32)
        == n) by (bit_vector)
        requires
            b0 == (n >> 24u32) as u8,
            b1 == (n >> 16u32) as u8,
            b2 == (n >> 8u32) as u8,
            b3 == n as u8,
    ;
}

/// Reads the big-endian number at `at`.
fn read_be(buf: &[u8], at: usize) -> (r: u32)
    requires
        at + 4 <= buf@.len(),
    ensures
        r == be_value(buf@.subrange(at as int, at + 4)),
{
    ((buf[at] as u32) << 24u32) | ((buf[at + 1] as u32) << 16u32) | ((buf[at + 2] as u32) << 8u32)
        | (buf[at + 3] as u32)
}

/// Appends the four big-endian bytes of `n`.
fn push_be(out: &mut Vec<u8>, n: u32)
    ensures
        final(out)@ == old(out)@ + be_bytes(n),
{
    out.push((n >> 24u32) as u8);
    out.push((n >> 16u32) as u8);
    out.push((n >> 8u32) as u8);
    out.push(n as u8);
    assert(final(out)@ =~= old(out)@ + be_bytes(n));
}

/// Appends `src[from..to]`.
pub(crate) fn push_range(out: &mut Vec<u8>, src: &[u8], from: usize, to: usize)
    requires
        from <= to <= src@.len(),
    ensures
        final(out)@ == old(out)@ + src@.subrange(from as int, to as int),
{
    let mut i = from;
    while i < to
        invariant
            from <= i <= to <= src@.len(),
            out@ == old(out)@ + src@.subrange(from as int, i as int),
        decreases to - i,
    {
        out.push(src[i]);
        i = i + 1;
        assert(out@ =~= old(out)@ + src@.subrange(from as int, i as int));
    }
}

/// A typed, checksummed record of a PNG file.
#[derive(Debug, PartialEq, Eq)]
pub struct Chunk {
    chunk_type: ChunkType,
    data: Vec<u8>,
    crc: u32,
}

impl View for Chunk {
    type V = ChunkModel;

    closed spec fn view(&self) -> ChunkModel {
        ChunkModel { chunk_type: self.chunk_type@, data: self.data@ }
    }
}

impl Chunk {
    #[verifier::type_invariant]
    spec fn inv(self) -> bool {
        &&& chunk_model_valid(self@)
        &&& self.crc == chunk_crc(self@)
    }

    /// The CRC over the type code bytes followed by `data`.
    fn checksum(type_bytes: &[u8; 4], data: &[u8]) -> (r: u32)
        ensures
            r == crc32_of(type_bytes@ + data@),
    {
        let mut all: Vec<u8> = Vec::new();
        push_range(&mut all, type_bytes.as_slice(), 0, 4);
        push_range(&mut all, data, 0, data.len());
        assert(all@ =~= type_bytes@ + data@);
        crc32(all.as_slice())
    }

    /// A chunk of the given type holding `data`; its CRC is computed here.
    pub fn new(chunk_type: ChunkType, data: Vec<u8>) -> (r: Chunk)
        requires
            data@.len() <= u32::MAX,
        ensures
            r@ == (ChunkModel { chunk_type: chunk_type@, data: data@ }),
            chunk_model_valid(r@),
    {
        let type_bytes = chunk_type.bytes();
        let crc = Self::checksum(&type_bytes, data.as_slice());
        Chunk { chunk_type, data, crc }
    }

    /// The number of data bytes.
    pub fn length(&self) -> (r: u32)
        ensures
            r == self@.data.len(),
    {
        proof {
            use_type_invariant(self);
        }
        self.data.len() as u32
    }

    /// The type code.
    pub fn chunk_type(&self) -> (r: &ChunkType)
        ensures
            r@ == self@.chunk_type,
    {
        &self.chunk_type
    }

    /// The data bytes.
    pub fn data(&self) -> (r: &[u8])
        ensures
            r@ == self@.data,
    {
        self.data.as_slice()
    }

    /// The CRC over type code and data.
    pub fn crc(&self) -> (r: u32)
        ensures
            r == chunk_crc(self@),
    {
        proof {
            use_type_invariant(self);
        }
        self.crc
    }

    /// The data read as UTF-8 text.
    pub fn data_as_string(&self) -> (r: Result<String, PngMeError>)
        ensures
            r.is_ok() <==> valid_utf8(self@.data),
            r matches Ok(s) ==> s@ == decode_utf8(self@.data),
            r matches Err(e) ==> e == PngMeError::NotUtf8,
    {
        let mut copy: Vec<u8> = Vec::new();
        push_range(&mut copy, self.data.as_slice(), 0, self.data.len());
        assert(copy@ =~= self@.data);
        match utf8_string(copy) {
            Some(s) => Ok(s),
            None => Err(PngMeError::NotUtf8),
        }
    }

    /// The chunk's record: length, type code, data and CRC.
    pub fn serialize(&self) -> (r: Vec<u8>)
        ensures
            r@ == chunk_wire(self@),
            chunk_model_valid(self@),
    {
        proof {
            use_type_invariant(self);
        }
        let mut out: Vec<u8> = Vec::new();
        self.write_to(&mut out);
        assert(out@ =~= chunk_wire(self@));
        out
    }

    /// Appends the chunk's record to `out`.
    pub(crate) fn write_to(&self, out: &mut Vec<u8>)
        ensures
            final(out)@ == old(out)@ + chunk_wire(self@),
            chunk_model_valid(self@),
    {
        proof {
            use_type_invariant(self);
        }
        push_be(out, self.data.len() as u32);
        let type_bytes = self.chunk_type.bytes();
        push_range(out, type_bytes.as_slice(), 0, 4);
        push_range(out, self.data.as_slice(), 0, self.data.len());
        push_be(out, self.crc);
        assert(final(out)@ =~= old(out)@ + chunk_wire(self@));
    }

    /// Reads one chunk record from the front of `buf`; on success also gives the number
    /// of bytes that the record takes.
    pub fn deserialize(buf: &[u8]) -> (r: Result<(Chunk, usize), PngMeError>)
        ensures
            r.is_ok() == read_chunk(buf@).is_ok(),
            r matches Ok((c, n)) ==> read_chunk(buf@) == Ok::<(ChunkModel, nat), PngMeError>(
                (c@, n as nat),
            ),
            r matches Err(e) ==> read_chunk(buf@) == Err::<(ChunkModel, nat), PngMeError>(e),
    {
        assert(buf@.skip(0) =~= buf@);
        Self::read_at(buf, 0)
    }

    /// Reads one chunk record from `buf` starting at `start`.
    pub(crate) fn read_at(buf: &[u8], start: usize) -> (r: Result<(Chunk, usize), PngMeError>)
        requires
            start <= buf@.len(),
        ensures
            r.is_ok() == read_chunk(buf@.skip(start as int)).is_ok(),
            r matches Ok((c, n)) ==> read_chunk(buf@.skip(start as int)) == Ok::<
                (ChunkModel, nat),
                PngMeError,
            >((c@, n as nat)),
            r matches Err(e) ==> read_chunk(buf@.skip(start as int)) == Err::<
                (ChunkModel, nat),
                PngMeError,
            >(e),
            r matches Ok((c, n)) ==> chunk_model_valid(c@) && 12 <= n <= buf@.len() - start,
    {
        reveal(read_chunk);
        let ghost rest = buf@.skip(start as int);
        let avail = buf.len() - start;
        if avail < 8 {
            return Err(PngMeError::TruncatedInput);
        }
        let len = read_be(buf, start);
        assert(buf@.subrange(start as int, start + 4) =~= rest.subrange(0, 4));
        let type_bytes: [u8; 4] = [buf[start + 4], buf[start + 5], buf[start + 6], buf[start + 7]];
        assert(type_bytes@ =~= rest.subrange(4, 8));
        let chunk_type = match ChunkType::from_bytes(type_bytes) {
            Ok(t) => t,
            Err(e) => {
                return Err(e);
            },
        };
        let n = len as usize;
        if avail - 8 < 4 || avail - 12 < n {
            return Err(PngMeError::TruncatedInput);
        }
        let data_start = start + 8;
        let data_end = data_start + n;
        let mut data: Vec<u8> = Vec::new();
        push_range(&mut data, buf, data_start, data_end);
        assert(data@ =~= rest.subrange(8, 8 + n));
        let stored = read_be(buf, data_end);
        assert(buf@.subrange(data_end as int, data_end + 4) =~= rest.subrange(
            8 + n,
            12 + n,
        ));
        let computed = Self::checksum(&type_bytes, data.as_slice());
        if stored != computed {
            return Err(PngMeError::CrcDoNotMatch(stored, computed));
        }
        Ok((Chunk { chunk_type, data, crc: computed }, 12 + n))
    }
}

} // verus!
