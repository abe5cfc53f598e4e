//! The sheet header (`.exh`): magic bytes, row size, sheet kind, then
//! the column definitions, the page table and the language list, all
//! big-endian.

use vstd::prelude::*;

use crate::bytes::{be16_at, be32_at, read_be16, read_be32};
use crate::error::{Error, ErrorV, res_matches};
use crate::file::{avail_at, read_failed, spec_read_failed};

verus! {

/// One column of a sheet: a kind tag and the column's byte offset
/// within a row. The kind tag enumerates fixed-width scalars, a
/// string-pointer kind, and eight packed-boolean kinds carrying the bit
/// index.
#[derive(Clone, Copy, PartialEq, Eq, Structural)]
pub struct ColumnDefinition {
    pub kind: u16,
    pub offset: u16,
}

/// One page of a sheet: the first row ID it covers and the count of
/// row IDs after it.
#[derive(Clone, Copy, PartialEq, Eq, Structural)]
pub struct PageDefinition {
    pub start_id: u32,
    pub row_count: u32,
}

/// How a sheet's rows are laid out: one record per row ID, or several
/// subrows under each row ID.
#[derive(Clone, Copy, PartialEq, Eq, Structural)]
pub enum SheetKind {
    Default,
    Subrows,
}

/// A parsed sheet header.
pub struct ExcelHeader {
    pub row_size: u16,
    pub kind: SheetKind,
    pub columns: Vec<ColumnDefinition>,
    pub pages: Vec<PageDefinition>,
    pub languages: Vec<u8>,
}

/// Spec-level image of an [`ExcelHeader`].
pub struct ExcelHeaderV {
    pub row_size: u16,
    pub kind: SheetKind,
    pub columns: Seq<ColumnDefinition>,
    pub pages: Seq<PageDefinition>,
    pub languages: Seq<u8>,
}

impl View for ExcelHeader {
    type V = ExcelHeaderV;

    open spec fn view(&self) -> ExcelHeaderV {
        ExcelHeaderV {
            row_size: self.row_size,
            kind: self.kind,
            columns: self.columns@,
            pages: self.pages@,
            languages: self.languages@,
        }
    }
}

/// The header a `.exh` buffer parses to: a sixteen-byte fixed part
/// carrying the magic, the row size, the three table lengths and the
/// sheet kind, then the three tables in order.
pub open spec fn spec_parse_exh(d: Seq<u8>) -> Result<ExcelHeaderV, ErrorV> {
    if d.len() < 16 {
        Err(ErrorV::Resource(spec_read_failed("sheet header"@, 16, d.len() as int)))
    } else if !(d[0] == 69 && d[1] == 88 && d[2] == 72 && d[3] == 70) {
        Err(ErrorV::Resource("Failed to read sheet header. Invalid magic."@))
    } else if d[12] != 1 && d[12] != 2 {
        Err(ErrorV::Resource("Failed to read sheet header. Invalid sheet kind."@))
    } else {
        let cc = be16_at(d, 6) as int;
        let pc = be16_at(d, 8) as int;
        let lc = be16_at(d, 10) as int;
        if 16 + 4 * cc + 8 * pc + 2 * lc > d.len() {
            Err(
                ErrorV::Resource(
                    spec_read_failed(
                        "sheet header tables"@,
                        4 * cc + 8 * pc + 2 * lc,
                        avail_at(d, 16),
                    ),
                ),
            )
        } else {
            Ok(
                ExcelHeaderV {
                    row_size: be16_at(d, 4),
                    kind: if d[12] == 1 {
                        SheetKind::Default
                    } else {
                        SheetKind::Subrows
                    },
                    columns: Seq::new(
                        cc as nat,
                        |i: int|
                            ColumnDefinition {
                                kind: be16_at(d, 16 + 4 * i),
                                offset: be16_at(d, 16 + 4 * i + 2),
                            },
                    ),
                    pages: Seq::new(
                        pc as nat,
                        |i: int|
                            PageDefinition {
                                start_id: be32_at(d, 16 + 4 * cc + 8 * i),
                                row_count: be32_at(d, 16 + 4 * cc + 8 * i + 4),
                            },
                    ),
                    languages: Seq::new(lc as nat, |i: int| d[16 + 4 * cc + 8 * pc + 2 * i]),
                },
            )
        }
    }
}

impl ExcelHeader {
    /// Parse a `.exh` buffer.
    pub fn from_bytes(d: &Vec<u8>) -> (r: Result<ExcelHeader, Error>)
        ensures
            res_matches(r, spec_parse_exh(d@)),
    {
        let len = d.len();
        if len < 16 {
            return Err(Error::Resource(read_failed("sheet header", 16, len as u128)));
        }
        if !(d[0] == 69 && d[1] == 88 && d[2] == 72 && d[3] == 70) {
            return Err(
                Error::Resource(
                    String::from_str("Failed to read sheet header. Invalid magic."),
                ),
            );
        }
        if d[12] != 1 && d[12] != 2 {
            return Err(
                Error::Resource(
                    String::from_str("Failed to read sheet header. Invalid sheet kind."),
                ),
            );
        }
        let cc = read_be16(d, 6) as usize;
        let pc = read_be16(d, 8) as usize;
        let lc = read_be16(d, 10) as usize;
        if 16 + 4 * cc as u128 + 8 * pc as u128 + 2 * lc as u128 > len as u128 {
            return Err(
                Error::Resource(
                    read_failed(
                        "sheet header tables",
                        4 * cc as u128 + 8 * pc as u128 + 2 * lc as u128,
                        (len - 16) as u128,
                    ),
                ),
            );
        }
        let mut columns: Vec<ColumnDefinition> = Vec::new();
        let mut i: usize = 0;
        while i < cc
            invariant
                i <= cc,
                len == d@.len(),
                16 + 4 * cc + 8 * pc + 2 * lc <= len,
                columns@.len() == i,
                forall|k: int|
                    0 <= k < i ==> columns@[k] == (ColumnDefinition {
                        kind: be16_at(d@, 16 + 4 * k),
                        offset: be16_at(d@, 16 + 4 * k + 2),
                    }),
            decreases cc - i,
        {
            columns.push(
                ColumnDefinition {
                    kind: read_be16(d, 16 + 4 * i),
                    offset: read_be16(d, 16 + 4 * i + 2),
                },
            );
            i = i + 1;
        }
        let mut pages: Vec<PageDefinition> = Vec::new();
        let mut i: usize = 0;
        while i < pc
            invariant
                i <= pc,
                len == d@.len(),
                16 + 4 * cc + 8 * pc + 2 * lc <= len,
                pages@.len() == i,
                forall|k: int|
                    0 <= k < i ==> pages@[k] == (PageDefinition {
                        start_id: be32_at(d@, 16 + 4 * cc + 8 * k),
                        row_count: be32_at(d@, 16 + 4 * cc + 8 * k + 4),
                    }),
            decreases pc - i,
        {
            pages.push(
                PageDefinition {
                    start_id: read_be32(d, 16 + 4 * cc + 8 * i),
                    row_count: read_be32(d, 16 + 4 * cc + 8 * i + 4),
                },
            );
            i = i + 1;
        }
        let mut languages: Vec<u8> = Vec::new();
        let mut i: usize = 0;
        while i < lc
            invariant
                i <= lc,
                len == d@.len(),
                16 + 4 * cc + 8 * pc + 2 * lc <= len,
                languages@.len() == i,
                forall|k: int| 0 <= k < i ==> languages@[k] == d@[16 + 4 * cc + 8 * pc + 2 * k],
            decreases lc - i,
        {
            languages.push(d[16 + 4 * cc + 8 * pc + 2 * i]);
            i = i + 1;
        }
        let kind = if d[12] == 1 {
            SheetKind::Default
        } else {
            SheetKind::Subrows
        };
        let h = ExcelHeader { row_size: read_be16(d, 4), kind, columns, pages, languages };
        proof {
            let s = spec_parse_exh(d@)->Ok_0;
            assert(h@.columns =~= s.columns);
            assert(h@.pages =~= s.pages);
            assert(h@.languages =~= s.languages);
        }
        Ok(h)
    }

    /// Whether the sheet carries pages for the given language.
    pub fn has_language(&self, language: u8) -> (r: bool)
        ensures
            r == self@.languages.contains(language),
    {
        let mut i: usize = 0;
        while i < self.languages.len()
            invariant
                i <= self@.languages.len(),
                forall|k: int| 0 <= k < i ==> self@.languages[k] != language,
            decreases self@.languages.len() - i,
        {
            if self.languages[i] == language {
                proof {
                    assert(self@.languages[i as int] == language);
                }
                return true;
            }
            i = i + 1;
        }
        false
    }
}

} // verus!
