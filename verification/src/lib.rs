//! A read-only reader for SqPack archives and the tabular (Excel) data
//! stored inside them: logical paths are hashed into index keys, resolved
//! to offsets inside chunked data files, and decoded block by block into
//! byte buffers; sheet headers and pages layered on top give row access
//! by `(row_id, subrow_id, language)`.

use vstd::prelude::*;

pub mod bytes;
pub mod crc;
pub mod data;
pub mod error;
pub mod excel;
pub mod exd;
pub mod exh;
pub mod ffxiv;
pub mod file;
pub mod index;
pub mod inflate;
pub mod pathutil;
pub mod row;
pub mod sheet;
pub mod sqpack;
pub mod strutil;

verus! {

/// A block whose stored size exceeds this bound is kept raw on disk;
/// at or below it, the block payload is a raw-DEFLATE stream.
pub const MAX_COMPRESSED_BLOCK_SIZE: u32 = 16000;

} // verus!
