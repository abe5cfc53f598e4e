//! The sheet data page (`.exd`): magic bytes, the byte length of the
//! row-offset table, the table itself, and the row payload area behind
//! it, all big-endian.

use vstd::prelude::*;
use vstd::string::StringExecFns;

use crate::bytes::{be32_at, read_be32};
use crate::error::{Error, ErrorV, res_matches};
use crate::file::{avail_at, copy_range, read_failed, spec_read_failed};

verus! {

/// One entry of a page's row-offset table: a row ID and the offset of
/// its record within the payload area.
#[derive(Clone, Copy, PartialEq, Eq, Structural)]
pub struct RowDefinition {
    pub row_id: u32,
    pub offset: u32,
}

/// A parsed sheet data page: the row-offset table and the payload area.
pub struct ExcelPage {
    pub rows: Vec<RowDefinition>,
    pub data: Vec<u8>,
}

/// Spec-level image of an [`ExcelPage`].
pub struct ExcelPageV {
    pub rows: Seq<RowDefinition>,
    pub data: Seq<u8>,
}

impl View for ExcelPage {
    type V = ExcelPageV;

    open spec fn view(&self) -> ExcelPageV {
        ExcelPageV { rows: self.rows@, data: self.data@ }
    }
}

/// The page a `.exd` buffer parses to: a sixteen-byte fixed part
/// carrying the magic and the table's byte length, the row-offset table,
/// and everything after it as the payload area.
pub open spec fn spec_parse_exd(d: Seq<u8>) -> Result<ExcelPageV, ErrorV> {
    if d.len() < 16 {
        Err(ErrorV::Resource(spec_read_failed("page header"@, 16, d.len() as int)))
    } else if !(d[0] == 69 && d[1] == 88 && d[2] == 68 && d[3] == 70) {
        Err(ErrorV::Resource("Failed to read page header. Invalid magic."@))
    } else {
        let isz = be32_at(d, 4) as int;
        if 16 + isz > d.len() {
            Err(ErrorV::Resource(spec_read_failed("page index"@, isz, avail_at(d, 16))))
        } else {
            Ok(
                ExcelPageV {
                    rows: Seq::new(
                        (isz / 8) as nat,
                        |i: int|
                            RowDefinition {
                                row_id: be32_at(d, 16 + 8 * i),
                                offset: be32_at(d, 16 + 8 * i + 4),
                            },
                    ),
                    data: d.subrange(16 + isz, d.len() as int),
                },
            )
        }
    }
}

impl ExcelPage {
    /// Parse a `.exd` buffer.
    pub fn from_bytes(d: &Vec<u8>) -> (r: Result<ExcelPage, Error>)
        ensures
            res_matches(r, spec_parse_exd(d@)),
    {
        let len = d.len();
        if len < 16 {
            return Err(Error::Resource(read_failed("page header", 16, len as u128)));
        }
        if !(d[0] == 69 && d[1] == 88 && d[2] == 68 && d[3] == 70) {
            return Err(
                Error::Resource(String::from_str("Failed to read page header. Invalid magic.")),
            );
        }
        let isz = read_be32(d, 4);
        if 16 + isz as u128 > len as u128 {
            return Err(
                Error::Resource(read_failed("page index", isz as u128, (len - 16) as u128)),
            );
        }
        let isz: usize = isz as usize;
        let n: usize = isz / 8;
        let mut rows: Vec<RowDefinition> = Vec::new();
        let mut i: usize = 0;
        while i < n
            invariant
                i <= n,
                n == isz / 8,
                len == d@.len(),
                16 + isz <= len,
                rows@.len() == i,
                forall|k: int|
                    0 <= k < i ==> rows@[k] == (RowDefinition {
                        row_id: be32_at(d@, 16 + 8 * k),
                        offset: be32_at(d@, 16 + 8 * k + 4),
                    }),
            decreases n - i,
        {
            rows.push(
                RowDefinition {
                    row_id: read_be32(d, 16 + 8 * i),
                    offset: read_be32(d, 16 + 8 * i + 4),
                },
            );
            i = i + 1;
        }
        let data = copy_range(d, 16 + isz, len);
        let p = ExcelPage { rows, data };
        proof {
            let s = spec_parse_exd(d@)->Ok_0;
            assert(p@.rows =~= s.rows);
        }
        Ok(p)
    }
}

} // verus!
