//! Typed field decoding over a row's bytes: fixed-width scalars read
//! big-endian at a column's offset, packed booleans picked out of a byte
//! by the bit index the kind tag carries, and strings resolved through a
//! pointer into the row's string tail.

use vstd::prelude::*;
use vstd::string::StringExecFns;

use crate::bytes::{be16_at, be32_at, read_be16, read_be32};
use crate::error::{Error, ErrorV, res_matches};
use crate::exh::{ColumnDefinition, ExcelHeader};
use crate::file::{avail_at, copy_range, read_failed, spec_read_failed};
use crate::pathutil::{spec_find_byte, find_byte_vec, lemma_find_byte_range};
use crate::strutil::{push_dec, spec_dec};

verus! {

/// What decoding a byte sequence as UTF-8 yields: its characters, or
/// nothing when the bytes are not well-formed UTF-8. Decoding is a
/// function of the bytes alone.
pub uninterp spec fn utf8_chars(b: Seq<u8>) -> Option<Seq<char>>;

/// Relies on `String::from_utf8`: it succeeds exactly on well-formed
/// UTF-8, and bytes below 128 decode to one character each, equal to the
/// byte.
#[verifier::external_body]
fn decode_utf8(v: Vec<u8>) -> (r: Option<String>)
    ensures
        r is Some <==> utf8_chars(v@) is Some,
        r is Some ==> r->0@ == utf8_chars(v@)->0,
        (forall|i: int| 0 <= i < v@.len() ==> v@[i] < 128) ==> (r is Some && r->0@
            == v@.map_values(|b: u8| b as char)),
{
    String::from_utf8(v).ok()
}

/// One decoded field value. A floating-point column is handed out as
/// the raw bits of its 32-bit value.
pub enum FieldValue {
    Str(String),
    Bool(bool),
    I8(i8),
    U8(u8),
    I16(i16),
    U16(u16),
    I32(i32),
    U32(u32),
    F32Bits(u32),
}

/// Spec-level image of a [`FieldValue`].
pub enum FieldValueV {
    Str(Seq<char>),
    Bool(bool),
    I8(i8),
    U8(u8),
    I16(i16),
    U16(u16),
    I32(i32),
    U32(u32),
    F32Bits(u32),
}

impl View for FieldValue {
    type V = FieldValueV;

    open spec fn view(&self) -> FieldValueV {
        match self {
            FieldValue::Str(s) => FieldValueV::Str(s@),
            FieldValue::Bool(b) => FieldValueV::Bool(*b),
            FieldValue::I8(v) => FieldValueV::I8(*v),
            FieldValue::U8(v) => FieldValueV::U8(*v),
            FieldValue::I16(v) => FieldValueV::I16(*v),
            FieldValue::U16(v) => FieldValueV::U16(*v),
            FieldValue::I32(v) => FieldValueV::I32(*v),
            FieldValue::U32(v) => FieldValueV::U32(*v),
            FieldValue::F32Bits(v) => FieldValueV::F32Bits(*v),
        }
    }
}

/// The signed reading of an unsigned byte.
pub open spec fn as_signed8(v: u8) -> i8 {
    if v < 0x80 {
        v as i8
    } else {
        (v - 0x100) as i8
    }
}

/// The signed reading of an unsigned 16-bit value.
pub open spec fn as_signed16(v: u16) -> i16 {
    if v < 0x8000 {
        v as i16
    } else {
        (v - 0x10000) as i16
    }
}

/// The signed reading of an unsigned 32-bit value.
pub open spec fn as_signed32(v: u32) -> i32 {
    if v < 0x80000000 {
        v as i32
    } else {
        (v - 0x100000000) as i32
    }
}

/// A reader over one row's bytes: the sheet's columns and row size, and
/// the row slice handed back by the sheet engine.
pub struct RowReader {
    pub row_size: u16,
    pub columns: Vec<ColumnDefinition>,
    pub data: Vec<u8>,
}

/// Spec-level image of a [`RowReader`].
pub struct RowReaderV {
    pub row_size: u16,
    pub columns: Seq<ColumnDefinition>,
    pub data: Seq<u8>,
}

impl View for RowReader {
    type V = RowReaderV;

    open spec fn view(&self) -> RowReaderV {
        RowReaderV { row_size: self.row_size, columns: self.columns@, data: self.data@ }
    }
}

/// What decoding one column of a row yields: the scalar kinds read at
/// the column's offset; kind tags 25 to 32 pick bit 0 to 7 out of the
/// byte there; a string column holds the offset of its NUL-terminated
/// UTF-8 text behind the row's fixed part.
pub open spec fn spec_field(r: RowReaderV, idx: int) -> Result<FieldValueV, ErrorV> {
    if !(0 <= idx < r.columns.len()) {
        Err(ErrorV::NotFound("Column "@ + spec_dec(idx)))
    } else {
        let col = r.columns[idx];
        let off = col.offset as int;
        let k = col.kind as int;
        let width: int = if k == 0 || k == 6 || k == 7 || k == 9 {
            4
        } else if k == 4 || k == 5 {
            2
        } else {
            1
        };
        if off + width > r.data.len() {
            Err(ErrorV::Resource(spec_read_failed("field"@, width, avail_at(r.data, off))))
        } else if k == 1 {
            Ok(FieldValueV::Bool(r.data[off] != 0))
        } else if k == 2 {
            Ok(FieldValueV::I8(as_signed8(r.data[off])))
        } else if k == 3 {
            Ok(FieldValueV::U8(r.data[off]))
        } else if k == 4 {
            Ok(FieldValueV::I16(as_signed16(be16_at(r.data, off))))
        } else if k == 5 {
            Ok(FieldValueV::U16(be16_at(r.data, off)))
        } else if k == 6 {
            Ok(FieldValueV::I32(as_signed32(be32_at(r.data, off))))
        } else if k == 7 {
            Ok(FieldValueV::U32(be32_at(r.data, off)))
        } else if k == 9 {
            Ok(FieldValueV::F32Bits(be32_at(r.data, off)))
        } else if 25 <= k <= 32 {
            let bit = (k - 25) as u8;
            Ok(FieldValueV::Bool((r.data[off] >> bit) & 1 == 1))
        } else if k == 0 {
            let saddr = r.row_size + be32_at(r.data, off);
            let nul = spec_find_byte(r.data, saddr as int, 0);
            if nul == r.data.len() {
                Err(ErrorV::Resource("Failed to read string. Missing terminator."@))
            } else {
                match utf8_chars(r.data.subrange(saddr as int, nul)) {
                    Some(s) => Ok(FieldValueV::Str(s)),
                    None => Err(ErrorV::Resource("Failed to read string. Invalid UTF-8."@)),
                }
            }
        } else {
            Err(
                ErrorV::Resource(
                    "Failed to read field. Unsupported column kind "@ + spec_dec(k) + "."@,
                ),
            )
        }
    }
}

impl RowReader {
    /// Build a reader over a row slice, carrying the sheet's layout.
    pub fn new(header: &ExcelHeader, data: Vec<u8>) -> (r: RowReader)
        ensures
            r@ == (RowReaderV {
                row_size: header@.row_size,
                columns: header@.columns,
                data: data@,
            }),
    {
        let mut columns: Vec<ColumnDefinition> = Vec::new();
        let mut i: usize = 0;
        while i < header.columns.len()
            invariant
                i <= header@.columns.len(),
                columns@ == header@.columns.take(i as int),
            decreases header@.columns.len() - i,
        {
            columns.push(header.columns[i]);
            proof {
                assert(header@.columns.take(i + 1) =~= header@.columns.take(i as int).push(
                    header@.columns[i as int],
                ));
            }
            i = i + 1;
        }
        proof {
            assert(header@.columns.take(header@.columns.len() as int) =~= header@.columns);
        }
        RowReader { row_size: header.row_size, columns, data }
    }

    /// Decode the field of column `column_index`.
    pub fn field(&self, column_index: usize) -> (r: Result<FieldValue, Error>)
        ensures
            res_matches(r, spec_field(self@, column_index as int)),
    {
        let len = self.data.len();
        if column_index >= self.columns.len() {
            let mut m = String::from_str("Column ");
            push_dec(&mut m, column_index as u128);
            return Err(Error::NotFound(m));
        }
        let col = self.columns[column_index];
        let off = col.offset as usize;
        let k = col.kind;
        let width: usize = if k == 0 || k == 6 || k == 7 || k == 9 {
            4
        } else if k == 4 || k == 5 {
            2
        } else {
            1
        };
        if off as u128 + width as u128 > len as u128 {
            let got: u128 = if off <= len {
                (len - off) as u128
            } else {
                0
            };
            return Err(Error::Resource(read_failed("field", width as u128, got)));
        }
        if k == 1 {
            Ok(FieldValue::Bool(self.data[off] != 0))
        } else if k == 2 {
            let b = self.data[off];
            if b < 0x80 {
                Ok(FieldValue::I8(b as i8))
            } else {
                Ok(FieldValue::I8(((b as i16) - 0x100) as i8))
            }
        } else if k == 3 {
            Ok(FieldValue::U8(self.data[off]))
        } else if k == 4 {
            let v = read_be16(&self.data, off);
            if v < 0x8000 {
                Ok(FieldValue::I16(v as i16))
            } else {
                Ok(FieldValue::I16(((v as i32) - 0x10000) as i16))
            }
        } else if k == 5 {
            Ok(FieldValue::U16(read_be16(&self.data, off)))
        } else if k == 6 {
            let v = read_be32(&self.data, off);
            if v < 0x80000000 {
                Ok(FieldValue::I32(v as i32))
            } else {
                Ok(FieldValue::I32(((v as i64) - 0x100000000) as i32))
            }
        } else if k == 7 {
            Ok(FieldValue::U32(read_be32(&self.data, off)))
        } else if k == 9 {
            Ok(FieldValue::F32Bits(read_be32(&self.data, off)))
        } else if 25 <= k && k <= 32 {
            let bit = (k - 25) as u8;
            Ok(FieldValue::Bool((self.data[off] >> bit) & 1 == 1))
        } else if k == 0 {
            let ptr = read_be32(&self.data, off);
            let saddr128: u128 = self.row_size as u128 + ptr as u128;
            let start: usize = if saddr128 > len as u128 {
                len
            } else {
                saddr128 as usize
            };
            proof {
                lemma_find_byte_range(self@.data, start as int, 0);
            }
            let nul = find_byte_vec(&self.data, start, 0);
            if nul == len {
                return Err(
                    Error::Resource(
                        String::from_str("Failed to read string. Missing terminator."),
                    ),
                );
            }
            match decode_utf8(copy_range(&self.data, start, nul)) {
                Some(s) => Ok(FieldValue::Str(s)),
                None => Err(
                    Error::Resource(String::from_str("Failed to read string. Invalid UTF-8.")),
                ),
            }
        } else {
            let mut m = String::from_str("Failed to read field. Unsupported column kind ");
            push_dec(&mut m, k as u128);
            m.append(".");
            proof {
                assert(m@ =~= "Failed to read field. Unsupported column kind "@ + spec_dec(
                    k as int,
                ) + "."@);
            }
            Err(Error::Resource(m))
        }
    }
}

} // verus!
