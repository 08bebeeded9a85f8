use vstd::prelude::*;
use vstd::string::StringSliceAdditionalSpecFns;

use crate::chunk::{chunk_model_valid, chunk_wire, lemma_read_chunk_prefix, read_chunk, Chunk, ChunkModel};
use crate::pngme_error::PngMeError;

verus! {

/// The eight bytes that open every PNG file.
pub const STANDARD_HEADER: [u8; 8] = [137, 80, 78, 71, 13, 10, 26, 10];

/// The PNG signature as a sequence.
pub open spec fn png_signature() -> Seq<u8> {
    seq![137u8, 80u8, 78u8, 71u8, 13u8, 10u8, 26u8, 10u8]
}

/// Every chunk of `ms` can stand in a file.
pub open spec fn chunks_valid(ms: Seq<ChunkModel>) -> bool {
    forall|i: int| 0 <= i < ms.len() ==> #[trigger] chunk_model_valid(ms[i])
}

/// The records of `ms`, one after the other.
pub open spec fn chunks_wire(ms: Seq<ChunkModel>) -> Seq<u8>
    decreases ms.len(),
{
    if ms.len() == 0 {
        Seq::empty()
    } else {
        chunk_wire(ms[0]) + chunks_wire(ms.drop_first())
    }
}

/// The bytes of a file that holds the chunks `ms`.
pub open spec fn png_wire(ms: Seq<ChunkModel>) -> Seq<u8> {
    png_signature() + chunks_wire(ms)
}

/// `ms` put in front of a successful reading; an error stays.
pub open spec fn prepend_chunks(
    ms: Seq<ChunkModel>,
    r: Result<Seq<ChunkModel>, PngMeError>,
) -> Result<Seq<ChunkModel>, PngMeError> {
    match r {
        Ok(rest) => Ok(ms + rest),
        Err(e) => Err(e),
    }
}

/// Reading chunk records one after the other until `buf` is used up.
pub open spec fn read_chunks(buf: Seq<u8>) -> Result<Seq<ChunkModel>, PngMeError>
    decreases buf.len(),
{
    if buf.len() == 0 {
        Ok(Seq::empty())
    } else {
        match read_chunk(buf) {
            Err(e) => Err(e),
            // A record read from `buf` takes at least 12 of its bytes, so the guard always
            // holds; it is there for the termination argument.
            Ok((m, n)) => if 0 < n <= buf.len() {
                prepend_chunks(seq![m], read_chunks(buf.skip(n as int)))
            } else {
                Err(PngMeError::TruncatedInput)
            },
        }
    }
}

/// Reading a whole file: the signature, then chunk records up to the end.
pub open spec fn parse_png(buf: Seq<u8>) -> Result<Seq<ChunkModel>, PngMeError> {
    if buf.len() < 8 || buf.subrange(0, 8) != png_signature() {
        Err(PngMeError::IncorrectFileHeader)
    } else {
        read_chunks(buf.skip(8))
    }
}

/// Index `i` holds the first chunk of `ms` whose type code is `t`.
pub open spec fn is_first_of_type(ms: Seq<ChunkModel>, t: Seq<u8>, i: int) -> bool {
    &&& 0 <= i < ms.len()
    &&& ms[i].chunk_type == t
    &&& forall|j: int| 0 <= j < i ==> #[trigger] ms[j].chunk_type != t
}

/// Some chunk of `ms` has the type code `t`.
pub open spec fn holds_type(ms: Seq<ChunkModel>, t: Seq<u8>) -> bool {
    exists|i: int| 0 <= i < ms.len() && #[trigger] ms[i].chunk_type == t
}

/// The records of `ms` followed by the record of `m`.
proof fn lemma_chunks_wire_push(ms: Seq<ChunkModel>, m: ChunkModel)
    ensures
        chunks_wire(ms.push(m)) == chunks_wire(ms) + chunk_wire(m),
    decreases ms.len(),
{
    if ms.len() == 0 {
        assert(ms.push(m).drop_first() =~= Seq::<ChunkModel>::empty());
        assert(ms.push(m)[0] == m);
        assert(chunks_wire(ms.push(m).drop_first()) =~= Seq::<u8>::empty());
        assert(chunks_wire(ms) =~= Seq::<u8>::empty());
        assert(chunks_wire(ms.push(m)) =~= chunks_wire(ms) + chunk_wire(m));
    } else {
        lemma_chunks_wire_push(ms.drop_first(), m);
        assert(ms.push(m).drop_first() =~= ms.drop_first().push(m));
        assert(ms.push(m)[0] == ms[0]);
        assert(chunks_wire(ms.push(m)) == chunk_wire(ms[0]) + (chunks_wire(ms.drop_first())
            + chunk_wire(m)));
        assert(chunks_wire(ms.push(m)) =~= chunks_wire(ms) + chunk_wire(m));
    }
}

/// Chunk records, read back, give the chunks they were written from.
pub proof fn lemma_read_chunks_wire(ms: Seq<ChunkModel>)
    requires
        chunks_valid(ms),
    ensures
        read_chunks(chunks_wire(ms)) == Ok::<Seq<ChunkModel>, PngMeError>(ms),
    decreases ms.len(),
{
    if ms.len() > 0 {
        let buf = chunks_wire(ms);
        let rest = chunks_wire(ms.drop_first());
        assert(buf == chunk_wire(ms[0]) + rest);
        assert(chunk_model_valid(ms[0]));
        lemma_read_chunk_prefix(ms[0], rest);
        let n: nat = 12 + ms[0].data.len();
        assert(read_chunk(buf) == Ok::<(ChunkModel, nat), PngMeError>((ms[0], n)));
        assert(chunk_wire(ms[0]).len() == n);
        assert(buf.skip(n as int) =~= rest);
        assert(chunks_valid(ms.drop_first())) by {
            assert forall|i: int| 0 <= i < ms.drop_first().len() implies #[trigger] chunk_model_valid(
                ms.drop_first()[i],
            ) by {
                assert(chunk_model_valid(ms[i + 1]));
            }
        }
        lemma_read_chunks_wire(ms.drop_first());
        assert(buf.len() >= n);
        assert(read_chunks(buf) == prepend_chunks(seq![ms[0]], read_chunks(rest)));
        assert(seq![ms[0]] + ms.drop_first() =~= ms);
    } else {
        assert(chunks_wire(ms) =~= Seq::<u8>::empty());
        assert(ms =~= Seq::<ChunkModel>::empty());
    }
}

/// Parsing the bytes of a file that holds valid chunks gives those chunks back, in order.
pub proof fn png_round_trip(ms: Seq<ChunkModel>)
    requires
        chunks_valid(ms),
    ensures
        parse_png(png_wire(ms)) == Ok::<Seq<ChunkModel>, PngMeError>(ms),
{
    let buf = png_wire(ms);
    assert(buf.subrange(0, 8) =~= png_signature());
    assert(buf.skip(8) =~= chunks_wire(ms));
    lemma_read_chunks_wire(ms);
}

/// The values of a sequence of chunks.
pub open spec fn models(chunks: Seq<Chunk>) -> Seq<ChunkModel> {
    chunks.map_values(|c: Chunk| c@)
}

/// Whether the type code of `c` is the byte string `want`.
fn type_matches(c: &Chunk, want: &[u8]) -> (r: bool)
    ensures
        r == (c@.chunk_type == want@),
{
    let b = c.chunk_type().bytes();
    if want.len() != 4 {
        return false;
    }
    let r = b[0] == want[0] && b[1] == want[1] && b[2] == want[2] && b[3] == want[3];
    assert(r ==> b@ =~= want@);
    r
}

/// A PNG file held in memory: the signature, then a sequence of chunks.
#[derive(Debug, PartialEq, Eq)]
pub struct Png {
    chunks: Vec<Chunk>,
}

impl View for Png {
    type V = Seq<ChunkModel>;

    closed spec fn view(&self) -> Seq<ChunkModel> {
        models(self.chunks@)
    }
}

impl Png {
    /// A file holding `chunks`, in order.
    pub fn from_chunks(chunks: Vec<Chunk>) -> (r: Png)
        ensures
            r@ == models(chunks@),
    {
        Png { chunks }
    }

    /// Reads a whole file: the signature, then chunk records up to the end of `bytes`.
    pub fn parse(bytes: &[u8]) -> (r: Result<Png, PngMeError>)
        ensures
            r.is_ok() == parse_png(bytes@).is_ok(),
            r matches Ok(p) ==> parse_png(bytes@) == Ok::<Seq<ChunkModel>, PngMeError>(p@),
            r matches Err(e) ==> parse_png(bytes@) == Err::<Seq<ChunkModel>, PngMeError>(e),
    {
        if bytes.len() < 8 {
            return Err(PngMeError::IncorrectFileHeader);
        }
        let mut k: usize = 0;
        while k < 8
            invariant
                k <= 8 <= bytes@.len(),
                forall|j: int| 0 <= j < k ==> bytes@[j] == png_signature()[j],
            decreases 8 - k,
        {
            if bytes[k] != STANDARD_HEADER[k] {
                assert(bytes@.subrange(0, 8)[k as int] != png_signature()[k as int]);
                return Err(PngMeError::IncorrectFileHeader);
            }
            k = k + 1;
        }
        assert(bytes@.subrange(0, 8) =~= png_signature());
        let mut chunks: Vec<Chunk> = Vec::new();
        let mut pos: usize = 8;
        while pos < bytes.len()
            invariant
                8 <= pos <= bytes@.len(),
                bytes@.subrange(0, 8) == png_signature(),
                chunks_valid(models(chunks@)),
                read_chunks(bytes@.skip(8)) == prepend_chunks(
                    models(chunks@),
                    read_chunks(bytes@.skip(pos as int)),
                ),
            decreases bytes.len() - pos,
        {
            let ghost before = models(chunks@);
            let ghost rest = bytes@.skip(pos as int);
            match Chunk::read_at(bytes, pos) {
                Err(e) => {
                    return Err(e);
                },
                Ok((c, n)) => {
                    let ghost m = c@;
                    assert(rest.skip(n as int) =~= bytes@.skip(pos + n));
                    chunks.push(c);
                    pos = pos + n;
                    assert(models(chunks@) =~= before.push(m));
                    assert(before + seq![m] =~= before.push(m));
                    assert(forall|r: Seq<ChunkModel>| before + (seq![m] + r) =~= before.push(m) + r);
                    assert(chunks_valid(models(chunks@))) by {
                        assert forall|i: int| 0 <= i < chunks@.len() implies #[trigger] chunk_model_valid(
                            models(chunks@)[i],
                        ) by {
                            if i < before.len() {
                                assert(chunk_model_valid(before[i]));
                            }
                        }
                    }
                },
            }
        }
        assert(bytes@.skip(pos as int) =~= Seq::<u8>::empty());
        assert(models(chunks@) + Seq::<ChunkModel>::empty() =~= models(chunks@));
        Ok(Png { chunks })
    }

    /// The bytes of the file: the signature, then each chunk's record in order.
    pub fn serialize(&self) -> (r: Vec<u8>)
        ensures
            r@ == png_wire(self@),
            chunks_valid(self@),
    {
        let mut out: Vec<u8> = Vec::new();
        let mut k: usize = 0;
        while k < 8
            invariant
                k <= 8,
                out@ == png_signature().subrange(0, k as int),
            decreases 8 - k,
        {
            out.push(STANDARD_HEADER[k]);
            k = k + 1;
            assert(out@ =~= png_signature().subrange(0, k as int));
        }
        assert(png_signature().subrange(0, 8) =~= png_signature());
        let mut i: usize = 0;
        while i < self.chunks.len()
            invariant
                i <= self@.len(),
                self@.len() == self.chunks@.len(),
                out@ == png_signature() + chunks_wire(self@.subrange(0, i as int)),
                chunks_valid(self@.subrange(0, i as int)),
            decreases self.chunks.len() - i,
        {
            let ghost done = self@.subrange(0, i as int);
            self.chunks[i].write_to(&mut out);
            assert(chunks_valid(self@.subrange(0, i + 1))) by {
                assert forall|j: int| 0 <= j < i + 1 implies #[trigger] chunk_model_valid(
                    self@.subrange(0, i + 1)[j],
                ) by {
                    if j < i {
                        assert(chunk_model_valid(done[j]));
                    }
                }
            }
            proof {
                lemma_chunks_wire_push(done, self@[i as int]);
                assert(self@.subrange(0, i + 1) =~= done.push(self@[i as int]));
            }
            i = i + 1;
        }
        assert(self@.subrange(0, i as int) =~= self@);
        out
    }

    /// The signature that opens the file.
    pub fn header(&self) -> (r: [u8; 8])
        ensures
            r@ == png_signature(),
    {
        let r = STANDARD_HEADER;
        assert(r@ =~= png_signature());
        r
    }

    /// The chunks, in order.
    pub fn chunks(&self) -> (r: &[Chunk])
        ensures
            models(r@) == self@,
    {
        self.chunks.as_slice()
    }

    /// Puts `chunk` at the end of the sequence, after every chunk already there, a
    /// closing `IEND` chunk included: nothing is moved to keep `IEND` last.
    pub fn append_chunk(&mut self, chunk: Chunk)
        ensures
            final(self)@ == old(self)@.push(chunk@),
    {
        let ghost before = self@;
        self.chunks.push(chunk);
        assert(models(self.chunks@) =~= before.push(chunk@));
    }

    /// The index of the first chunk whose type code is `want`.
    fn position_of(&self, want: &[u8]) -> (r: Option<usize>)
        ensures
            r matches Some(i) ==> is_first_of_type(self@, want@, i as int),
            r is None <==> !holds_type(self@, want@),
    {
        let mut i: usize = 0;
        while i < self.chunks.len()
            invariant
                i <= self@.len(),
                self@.len() == self.chunks@.len(),
                forall|j: int| 0 <= j < i ==> #[trigger] self@[j].chunk_type != want@,
                forall|j: int| 0 <= j < self@.len() ==> #[trigger] self@[j] == self.chunks@[j]@,
            decreases self.chunks.len() - i,
        {
            if type_matches(&self.chunks[i], want) {
                assert(self@[i as int].chunk_type == want@);
                return Some(i);
            }
            i = i + 1;
        }
        None
    }

    /// The first chunk whose type code is the text `chunk_type`, if any.
    pub fn chunk_by_type(&self, chunk_type: &str) -> (r: Option<&Chunk>)
        ensures
            r is None <==> !holds_type(self@, chunk_type.spec_bytes()),
            r matches Some(c) ==> exists|i: int|
                is_first_of_type(self@, chunk_type.spec_bytes(), i) && c@ == #[trigger] self@[i],
    {
        match self.position_of(chunk_type.as_bytes()) {
            Some(i) => Some(&self.chunks[i]),
            None => None,
        }
    }

    /// Takes out the first chunk whose type code is the text `chunk_type` and hands it
    /// over; the other chunks keep their order.
    pub fn remove_chunk(&mut self, chunk_type: &str) -> (r: Result<Chunk, PngMeError>)
        ensures
            r.is_ok() <==> holds_type(old(self)@, chunk_type.spec_bytes()),
            r matches Err(e) ==> e == PngMeError::ChunkTypeNotPresent && final(self)@ == old(self)@,
            r matches Ok(c) ==> exists|i: int|
                is_first_of_type(old(self)@, chunk_type.spec_bytes(), i) && c@ == #[trigger] old(
                    self,
                )@[i] && final(self)@ == old(self)@.remove(i),
    {
        match self.position_of(chunk_type.as_bytes()) {
            Some(i) => {
                let ghost before = self@;
                let c = self.chunks.remove(i);
                assert(models(self.chunks@) =~= before.remove(i as int));
                Ok(c)
            },
            None => Err(PngMeError::ChunkTypeNotPresent),
        }
    }
}

} // verus!
