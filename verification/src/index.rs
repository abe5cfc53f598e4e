//! The `.index` file of a chunk: a fixed 1024-byte container header, a
//! segment record naming where the hash-sorted entry array lies, and the
//! entries themselves, each mapping a path hash to a data file ordinal
//! and a byte offset.

use vstd::prelude::*;

use crate::bytes::{le32_at, le64_at, read_le32, read_le64};
use crate::error::{Error, ErrorV, res_matches};
use crate::file::{avail_at, read_failed, spec_read_failed};

verus! {

/// One entry of an index table: the 64-bit path hash, the ordinal of
/// the `.dat` file holding the file, and the byte offset inside it.
#[derive(Clone, Copy, PartialEq, Eq, Structural)]
pub struct IndexEntry {
    pub hash: u64,
    pub data_file_id: u8,
    pub offset: u64,
}

/// The decoded entry at position `j` of the entry array at `off`: the
/// packed word's bits 1 to 3 carry the data file ordinal, and its upper
/// 28 bits carry the byte offset divided by 128.
pub open spec fn spec_index_entry(d: Seq<u8>, off: int, j: int) -> IndexEntry {
    IndexEntry {
        hash: le64_at(d, off + 16 * j),
        data_file_id: ((le32_at(d, off + 16 * j + 8) & 0xF) >> 1) as u8,
        offset: (((le32_at(d, off + 16 * j + 8) as u64) & 0xFFFF_FFF0) * 8) as u64,
    }
}

/// The entries of an index buffer: the segment record at 1024 gives the
/// array's offset and byte size; sixteen bytes per entry.
pub open spec fn spec_parse_index(d: Seq<u8>) -> Result<Seq<IndexEntry>, ErrorV> {
    if d.len() < 1032 {
        Err(ErrorV::Resource(spec_read_failed("index header"@, 1032, d.len() as int)))
    } else {
        let off = le32_at(d, 1024) as int;
        let n = le32_at(d, 1028) as int / 16;
        if off + 16 * n > d.len() {
            Err(ErrorV::Resource(spec_read_failed("index entries"@, 16 * n, avail_at(d, off))))
        } else {
            Ok(Seq::new(n as nat, |j: int| spec_index_entry(d, off, j)))
        }
    }
}

/// An index table retained in memory, parsed once from an `.index`
/// buffer.
pub struct IndexTable {
    pub entries: Vec<IndexEntry>,
}

impl View for IndexTable {
    type V = Seq<IndexEntry>;

    open spec fn view(&self) -> Seq<IndexEntry> {
        self.entries@
    }
}

impl IndexTable {
    /// Parse an `.index` buffer into its entry table.
    pub fn parse(d: &Vec<u8>) -> (r: Result<IndexTable, Error>)
        ensures
            res_matches(r, spec_parse_index(d@)),
    {
        let len = d.len();
        if len < 1032 {
            return Err(Error::Resource(read_failed("index header", 1032, len as u128)));
        }
        let off = read_le32(d, 1024) as usize;
        let n = (read_le32(d, 1028) / 16) as usize;
        if off as u128 + 16 * n as u128 > len as u128 {
            let got: u128 = if off <= len {
                (len - off) as u128
            } else {
                0
            };
            return Err(Error::Resource(read_failed("index entries", 16 * n as u128, got)));
        }
        let mut entries: Vec<IndexEntry> = Vec::new();
        let mut j: usize = 0;
        while j < n
            invariant
                j <= n,
                len == d@.len(),
                off + 16 * n <= len,
                entries@.len() == j,
                forall|k: int| 0 <= k < j ==> entries@[k] == spec_index_entry(d@, off as int, k),
            decreases n - j,
        {
            let packed = read_le32(d, off + 16 * j + 8);
            proof {
                assert(((packed & 0xF) >> 1) <= 0xF) by (bit_vector);
                assert((packed as u64 & 0xFFFF_FFF0u64) <= 0xFFFF_FFF0u64) by (bit_vector);
            }
            entries.push(
                IndexEntry {
                    hash: read_le64(d, off + 16 * j),
                    data_file_id: ((packed & 0xF) >> 1) as u8,
                    offset: ((packed as u64) & 0xFFFF_FFF0) * 8,
                },
            );
            j = j + 1;
        }
        proof {
            assert(entries@ =~= Seq::new(n as nat, |k: int| spec_index_entry(d@, off as int, k)));
        }
        Ok(IndexTable { entries })
    }

    /// Look `key` up, yielding the first entry carrying it.
    pub fn lookup(&self, key: u64) -> (r: Option<IndexEntry>)
        ensures
            r == spec_find_entry(self@, key),
    {
        let mut i: usize = 0;
        while i < self.entries.len()
            invariant
                i <= self@.len(),
                forall|k: int| 0 <= k < i ==> self@[k].hash != key,
            decreases self@.len() - i,
        {
            if self.entries[i].hash == key {
                proof {
                    lemma_find_entry_at(self@, key, i as int);
                }
                return Some(self.entries[i]);
            }
            i = i + 1;
        }
        proof {
            lemma_find_entry_none(self@, key);
        }
        None
    }
}

/// The first entry carrying `key`, or nothing.
pub open spec fn spec_find_entry(es: Seq<IndexEntry>, key: u64) -> Option<IndexEntry>
    decreases es.len(),
{
    if es.len() == 0 {
        None
    } else if es[0].hash == key {
        Some(es[0])
    } else {
        spec_find_entry(es.drop_first(), key)
    }
}

/// When nothing before `i` carries `key` and `es[i]` does, the first
/// carrier is `es[i]`.
proof fn lemma_find_entry_at(es: Seq<IndexEntry>, key: u64, i: int)
    requires
        0 <= i < es.len(),
        forall|k: int| 0 <= k < i ==> es[k].hash != key,
        es[i].hash == key,
    ensures
        spec_find_entry(es, key) == Some(es[i]),
    decreases i,
{
    if i > 0 {
        lemma_find_entry_at(es.drop_first(), key, i - 1);
    }
}

/// When nothing carries `key`, the search yields nothing.
proof fn lemma_find_entry_none(es: Seq<IndexEntry>, key: u64)
    requires
        forall|k: int| 0 <= k < es.len() ==> es[k].hash != key,
    ensures
        spec_find_entry(es, key) is None,
    decreases es.len(),
{
    if es.len() > 0 {
        lemma_find_entry_none(es.drop_first(), key);
    }
}

} // verus!
