use vstd::prelude::*;
use vstd::utf8::encode_utf8;

use crate::chunk::{push_range, Chunk, ChunkModel};
use crate::chunk_type::{type_from_text_result, ChunkType};
use crate::png::{holds_type, is_first_of_type, parse_png, png_wire, Png};
use crate::pngme_error::PngMeError;

verus! {

/// The four things that the tool can do to a PNG file.
#[derive(Debug)]
pub enum Args {
    Encode(EncodeArgs),
    Decode(DecodeArgs),
    Remove(RemoveArgs),
    Print(PrintArgs),
}

/// Hide a message in a file under a chunk type.
#[derive(Debug)]
pub struct EncodeArgs {
    pub file_path: String,
    pub chunk_type: String,
    pub message: String,
    pub output_file: Option<String>,
}

/// What `EncodeArgs::encode` gives for a file and for the bytes of the chunk type text.
pub open spec fn encode_result(file: Seq<u8>, type_text: Seq<u8>, message: Seq<u8>) -> Result<
    Seq<u8>,
    PngMeError,
> {
    match parse_png(file) {
        Err(e) => Err(e),
        Ok(ms) => match type_from_text_result(type_text) {
            Err(e) => Err(e),
            Ok(t) => Ok(png_wire(ms.push(ChunkModel { chunk_type: t, data: message }))),
        },
    }
}

impl EncodeArgs {
    /// The file's new bytes: `file` read, a chunk of the given type holding the message put
    /// at the end, and the whole written out again.
    pub fn encode(&self, file: &[u8]) -> (r: Result<Vec<u8>, PngMeError>)
        requires
            encode_utf8(self.message@).len() <= u32::MAX,
        ensures
            r matches Ok(out) ==> encode_result(
                file@,
                encode_utf8(self.chunk_type@),
                encode_utf8(self.message@),
            ) == Ok::<Seq<u8>, PngMeError>(out@),
            r matches Err(e) ==> encode_result(
                file@,
                encode_utf8(self.chunk_type@),
                encode_utf8(self.message@),
            ) == Err::<Seq<u8>, PngMeError>(e),
    {
        let mut png = match Png::parse(file) {
            Ok(p) => p,
            Err(e) => return Err(e),
        };
        let new_type = match ChunkType::from_string(self.chunk_type.as_str()) {
            Ok(t) => t,
            Err(e) => return Err(e),
        };
        let text = self.message.as_str().as_bytes();
        let mut data: Vec<u8> = Vec::new();
        push_range(&mut data, text, 0, text.len());
        assert(data@ =~= encode_utf8(self.message@));
        png.append_chunk(Chunk::new(new_type, data));
        let out = png.serialize();
        Ok(out)
    }
}

/// Show the message stored under a chunk type.
#[derive(Debug)]
pub struct DecodeArgs {
    pub file_path: String,
    pub chunk_type: String,
}

impl DecodeArgs {
    /// The first chunk of `file` with the given type, if there is one.
    pub fn decode(&self, file: &[u8]) -> (r: Result<Option<Chunk>, PngMeError>)
        ensures
            r.is_ok() == parse_png(file@).is_ok(),
            r matches Err(e) ==> parse_png(file@) == Err::<Seq<ChunkModel>, PngMeError>(e),
            r matches Ok(found) ==> {
                let ms = parse_png(file@)->Ok_0;
                let t = encode_utf8(self.chunk_type@);
                &&& found is None <==> !holds_type(ms, t)
                &&& found matches Some(c) ==> exists|i: int|
                    is_first_of_type(ms, t, i) && c@ == #[trigger] ms[i]
            },
    {
        let mut png = match Png::parse(file) {
            Ok(p) => p,
            Err(e) => return Err(e),
        };
        match png.remove_chunk(self.chunk_type.as_str()) {
            Ok(c) => Ok(Some(c)),
            Err(_) => Ok(None),
        }
    }
}

/// Take the first chunk of a type out of a file.
#[derive(Debug)]
pub struct RemoveArgs {
    pub file_path: String,
    pub chunk_type: String,
    pub output_file: Option<String>,
}

impl RemoveArgs {
    /// The chunk taken out and the file's new bytes.
    pub fn remove(&self, file: &[u8]) -> (r: Result<(Chunk, Vec<u8>), PngMeError>)
        ensures
            ({
                let t = encode_utf8(self.chunk_type@);
                match parse_png(file@) {
                    Err(e) => r == Err::<(Chunk, Vec<u8>), PngMeError>(e),
                    Ok(ms) => if holds_type(ms, t) {
                        r matches Ok((c, out)) && exists|i: int|
                            is_first_of_type(ms, t, i) && c@ == #[trigger] ms[i] && out@
                                == png_wire(ms.remove(i))
                    } else {
                        r == Err::<(Chunk, Vec<u8>), PngMeError>(PngMeError::ChunkTypeNotPresent)
                    },
                }
            }),
    {
        let mut png = match Png::parse(file) {
            Ok(p) => p,
            Err(e) => return Err(e),
        };
        let c = match png.remove_chunk(self.chunk_type.as_str()) {
            Ok(c) => c,
            Err(e) => return Err(e),
        };
        let out = png.serialize();
        Ok((c, out))
    }
}

/// List the chunks of a file.
#[derive(Debug)]
pub struct PrintArgs {
    pub file_path: String,
}

impl PrintArgs {
    /// The file read into its chunks, to be shown.
    pub fn print(&self, file: &[u8]) -> (r: Result<Png, PngMeError>)
        ensures
            r.is_ok() == parse_png(file@).is_ok(),
            r matches Ok(p) ==> parse_png(file@) == Ok::<Seq<ChunkModel>, PngMeError>(p@),
            r matches Err(e) ==> parse_png(file@) == Err::<Seq<ChunkModel>, PngMeError>(e),
    {
        Png::parse(file)
    }
}

} // verus!
