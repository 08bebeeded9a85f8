// Reading, editing and writing the chunks of PNG files, to hide messages in them.
//
// `chunk_type` holds the four-letter type codes, `chunk` the checksummed records,
// `png` whole files, and `commands` what the command line tool computes for each
// of its commands.

pub mod chunk;
pub mod chunk_type;
pub mod commands;
pub mod png;
pub mod pngme_error;
