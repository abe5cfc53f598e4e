//! Reading one stored file out of a `.dat` buffer: parse the file header
//! at the given offset, decode its blocks according to the file kind, and
//! hand back a buffer of exactly the declared raw size.

use vstd::prelude::*;
use vstd::slice::{slice_subrange, slice_to_vec};
use vstd::string::StringExecFns;

use crate::MAX_COMPRESSED_BLOCK_SIZE;
use crate::bytes::{le16_at, le32_at, read_le16, read_le32};
use crate::error::{Error, ErrorV, res_matches};
use crate::inflate::{inflate, inflate_of};
use crate::strutil::{push_dec, spec_dec};

verus! {

/// The smaller of two integers.
pub open spec fn imin(a: int, b: int) -> int {
    if a < b {
        a
    } else {
        b
    }
}

/// The bytes available in `d` at or after position `pos`.
pub open spec fn avail_at(d: Seq<u8>, pos: int) -> int {
    if pos <= d.len() {
        d.len() - pos
    } else {
        0
    }
}

/// The detail carried by a `Resource` error for a short read.
pub open spec fn spec_read_failed(item: Seq<char>, expected: int, got: int) -> Seq<char> {
    "Failed to read "@ + item + ". Expected "@ + spec_dec(expected) + " bytes, got "@ + spec_dec(
        got,
    ) + "."@
}

/// Build the detail for a `Resource` error: the item read, the byte
/// count expected, and the byte count found.
pub fn read_failed(item: &str, expected: u128, got: u128) -> (r: String)
    ensures
        r@ == spec_read_failed(item@, expected as int, got as int),
{
    let mut s = String::from_str("Failed to read ");
    s.append(item);
    s.append(". Expected ");
    push_dec(&mut s, expected);
    s.append(" bytes, got ");
    push_dec(&mut s, got);
    s.append(".");
    proof {
        assert(s@ =~= spec_read_failed(item@, expected as int, got as int));
    }
    s
}

/// The fixed-size file header stored at a file's offset inside a `.dat`
/// buffer: total header size, file kind, declared raw size, block count.
pub struct FileHeader {
    pub size: u32,
    pub kind: u32,
    pub raw_file_size: u32,
    pub block_count: u32,
}

/// The file header at `off`, when 24 bytes are available there.
pub open spec fn spec_file_header(d: Seq<u8>, off: int) -> Option<FileHeader> {
    if 0 <= off && off + 24 <= d.len() {
        Some(
            FileHeader {
                size: le32_at(d, off),
                kind: le32_at(d, off + 4),
                raw_file_size: le32_at(d, off + 8),
                block_count: le32_at(d, off + 20),
            },
        )
    } else {
        None
    }
}

/// The output of the block stored at `off`: its 16-byte header gives a
/// stored size and a decoded size; a stored size above
/// `MAX_COMPRESSED_BLOCK_SIZE` marks a raw block, copied through, and any
/// other block holds a raw DEFLATE stream of the stored size.
pub open spec fn spec_block_payload(d: Seq<u8>, off: int) -> Result<Seq<u8>, ErrorV> {
    if !(0 <= off && off + 16 <= d.len()) {
        Err(ErrorV::Resource(spec_read_failed("block header"@, 16, avail_at(d, off))))
    } else {
        let cs = le32_at(d, off + 8);
        let ds = le32_at(d, off + 12);
        if cs > MAX_COMPRESSED_BLOCK_SIZE {
            Ok(d.subrange(off + 16, imin(off + 16 + ds, d.len() as int)))
        } else {
            match inflate_of(d.subrange(off + 16, imin(off + 16 + cs, d.len() as int))) {
                Some(b) => Ok(b),
                None => Err(ErrorV::Resource("Failed to read block. Invalid deflate data."@)),
            }
        }
    }
}

/// Copy `d[from..to]` into a fresh buffer.
pub(crate) fn copy_range(d: &Vec<u8>, from: usize, to: usize) -> (r: Vec<u8>)
    requires
        from <= to <= d@.len(),
    ensures
        r@ == d@.subrange(from as int, to as int),
{
    slice_to_vec(slice_subrange(d.as_slice(), from, to))
}

/// Decode the single block stored at `off`, yielding its payload bytes.
pub fn read_block(d: &Vec<u8>, off: u128) -> (r: Result<Vec<u8>, Error>)
    ensures
        res_matches(r, spec_block_payload(d@, off as int)),
{
    let len = d.len();
    if off > len as u128 || len as u128 - off < 16 {
        let got: u128 = if off <= len as u128 {
            len as u128 - off
        } else {
            0
        };
        return Err(Error::Resource(read_failed("block header", 16, got)));
    }
    let o = off as usize;
    let cs = read_le32(d, o + 8);
    let ds = read_le32(d, o + 12);
    if cs > MAX_COMPRESSED_BLOCK_SIZE {
        let hi: usize = if (o + 16) as u128 + ds as u128 > len as u128 {
            len
        } else {
            o + 16 + ds as usize
        };
        Ok(copy_range(d, o + 16, hi))
    } else {
        let hi: usize = if (o + 16) as u128 + cs as u128 > len as u128 {
            len
        } else {
            o + 16 + cs as usize
        };
        match inflate(slice_subrange(d.as_slice(), o + 16, hi)) {
            Some(v) => Ok(v),
            None => Err(Error::Resource(String::from_str("Failed to read block. Invalid deflate data."))),
        }
    }
}

/// The payload-relative offset of entry `j` of a Standard block table at `toff`.
pub open spec fn spec_std_entry_off(d: Seq<u8>, toff: int, j: int) -> u32 {
    le32_at(d, toff + 8 * j)
}

/// The declared decoded size of entry `j` of a Standard block table at `toff`.
pub open spec fn spec_std_entry_ds(d: Seq<u8>, toff: int, j: int) -> u16 {
    le16_at(d, toff + 8 * j + 6)
}

/// The concatenation of the first `i` blocks of a Standard file, each
/// checked against its declared decoded size; or the first error.
pub open spec fn spec_standard_prefix(d: Seq<u8>, payload: int, toff: int, i: int) -> Result<
    Seq<u8>,
    ErrorV,
>
    decreases i,
{
    if i <= 0 {
        Ok(Seq::empty())
    } else {
        match spec_standard_prefix(d, payload, toff, i - 1) {
            Err(e) => Err(e),
            Ok(acc) => match spec_block_payload(d, payload + spec_std_entry_off(d, toff, i - 1)) {
                Err(e) => Err(e),
                Ok(b) => {
                    let ds = spec_std_entry_ds(d, toff, i - 1);
                    if b.len() == ds {
                        Ok(acc + b)
                    } else {
                        Err(
                            ErrorV::Resource(
                                spec_read_failed("block"@, ds as int, b.len() as int),
                            ),
                        )
                    }
                },
            },
        }
    }
}

/// Once a block fails, every longer prefix carries the same error.
proof fn lemma_standard_prefix_err(d: Seq<u8>, payload: int, toff: int, i: int, n: int)
    requires
        0 <= i <= n,
        spec_standard_prefix(d, payload, toff, i) is Err,
    ensures
        spec_standard_prefix(d, payload, toff, n) == spec_standard_prefix(d, payload, toff, i),
    decreases n,
{
    if n > i {
        lemma_standard_prefix_err(d, payload, toff, i, n - 1);
    }
}

/// What reading a Standard file at `off` yields: the block table is read
/// whole, then each block is decoded and checked in order.
pub open spec fn spec_read_standard(d: Seq<u8>, off: int, h: FileHeader) -> Result<Seq<u8>, ErrorV> {
    let toff = off + 24;
    if toff + 8 * h.block_count > d.len() {
        Err(
            ErrorV::Resource(
                spec_read_failed("block info"@, 8 * h.block_count as int, avail_at(d, toff)),
            ),
        )
    } else {
        spec_standard_prefix(d, off + h.size, toff, h.block_count as int)
    }
}

/// Decode the blocks of a Standard file whose header `h` sits at `off`.
pub fn read_standard(d: &Vec<u8>, off: u64, h: &FileHeader) -> (r: Result<Vec<u8>, Error>)
    ensures
        res_matches(r, spec_read_standard(d@, off as int, *h)),
{
    let len = d.len();
    let toff128: u128 = off as u128 + 24;
    if toff128 + 8 * h.block_count as u128 > len as u128 {
        let got: u128 = if toff128 <= len as u128 {
            len as u128 - toff128
        } else {
            0
        };
        return Err(Error::Resource(read_failed("block info", 8 * h.block_count as u128, got)));
    }
    let toff: usize = off as usize + 24;
    let payload: u128 = off as u128 + h.size as u128;
    let mut out: Vec<u8> = Vec::new();
    let mut i: u32 = 0;
    while i < h.block_count
        invariant
            i <= h.block_count,
            len == d@.len(),
            toff == off + 24,
            toff + 8 * h.block_count <= len,
            payload == off + h.size,
            spec_standard_prefix(d@, payload as int, toff as int, i as int) == Ok::<
                Seq<u8>,
                ErrorV,
            >(out@),
        decreases h.block_count - i,
    {
        let e_off = read_le32(d, toff + 8 * (i as usize));
        let e_ds = read_le16(d, toff + 8 * (i as usize) + 6);
        match read_block(d, payload + e_off as u128) {
            Ok(mut b) => {
                if b.len() != e_ds as usize {
                    proof {
                        lemma_standard_prefix_err(
                            d@,
                            payload as int,
                            toff as int,
                            i + 1,
                            h.block_count as int,
                        );
                    }
                    return Err(
                        Error::Resource(read_failed("block", e_ds as u128, b.len() as u128)),
                    );
                }
                out.append(&mut b);
            },
            Err(e) => {
                proof {
                    lemma_standard_prefix_err(
                        d@,
                        payload as int,
                        toff as int,
                        i + 1,
                        h.block_count as int,
                    );
                }
                return Err(e);
            },
        }
        i = i + 1;
    }
    Ok(out)
}

/// The payload-relative start of the raw region of LOD `j` in a texture
/// block table at `toff`.
pub open spec fn spec_lod_comp_off(d: Seq<u8>, toff: int, j: int) -> u32 {
    le32_at(d, toff + 20 * j)
}

/// The first sub-block index of LOD `j`.
pub open spec fn spec_lod_block_off(d: Seq<u8>, toff: int, j: int) -> u32 {
    le32_at(d, toff + 20 * j + 12)
}

/// The sub-block count of LOD `j`.
pub open spec fn spec_lod_block_count(d: Seq<u8>, toff: int, j: int) -> u32 {
    le32_at(d, toff + 20 * j + 16)
}

/// The total sub-block count of the first `j` LODs.
pub open spec fn spec_lod_sum(d: Seq<u8>, toff: int, j: int) -> int
    decreases j,
{
    if j <= 0 {
        0
    } else {
        spec_lod_sum(d, toff, j - 1) + spec_lod_block_count(d, toff, j - 1)
    }
}

/// Entry `k` of the sub-block size table at `soff`.
pub open spec fn spec_tex_sub(d: Seq<u8>, soff: int, k: int) -> u16 {
    le16_at(d, soff + 2 * k)
}

/// The first `m` sub-blocks of one LOD, starting at sub-block index
/// `start` and at buffer position `cur0`; each decoded block's size table
/// entry advances the position. Yields the concatenated payloads and the
/// position after the last block.
pub open spec fn spec_tex_inner(
    d: Seq<u8>,
    soff: int,
    subcount: int,
    start: int,
    m: int,
    cur0: int,
) -> Result<(Seq<u8>, int), ErrorV>
    decreases m,
{
    if m <= 0 {
        Ok((Seq::empty(), cur0))
    } else {
        match spec_tex_inner(d, soff, subcount, start, m - 1, cur0) {
            Err(e) => Err(e),
            Ok(r0) => {
                let idx = start + (m - 1);
                if !(0 <= idx < subcount) {
                    Err(ErrorV::Resource("Failed to read file. Sub-block index out of range."@))
                } else {
                    match spec_block_payload(d, r0.1) {
                        Err(e) => Err(e),
                        Ok(b) => Ok((r0.0 + b, r0.1 + spec_tex_sub(d, soff, idx))),
                    }
                }
            },
        }
    }
}

/// Once a sub-block fails, every longer run carries the same error.
proof fn lemma_tex_inner_err(
    d: Seq<u8>,
    soff: int,
    subcount: int,
    start: int,
    m: int,
    n: int,
    cur0: int,
)
    requires
        0 <= m <= n,
        spec_tex_inner(d, soff, subcount, start, m, cur0) is Err,
    ensures
        spec_tex_inner(d, soff, subcount, start, n, cur0) == spec_tex_inner(
            d,
            soff,
            subcount,
            start,
            m,
            cur0,
        ),
    decreases n,
{
    if n > m {
        lemma_tex_inner_err(d, soff, subcount, start, m, n - 1, cur0);
    }
}

/// The concatenated sub-blocks of the first `j` LODs; or the first error.
pub open spec fn spec_tex_lods(
    d: Seq<u8>,
    payload: int,
    toff: int,
    soff: int,
    subcount: int,
    j: int,
) -> Result<Seq<u8>, ErrorV>
    decreases j,
{
    if j <= 0 {
        Ok(Seq::empty())
    } else {
        match spec_tex_lods(d, payload, toff, soff, subcount, j - 1) {
            Err(e) => Err(e),
            Ok(acc) => match spec_tex_inner(
                d,
                soff,
                subcount,
                spec_lod_block_off(d, toff, j - 1) as int,
                spec_lod_block_count(d, toff, j - 1) as int,
                payload + spec_lod_comp_off(d, toff, j - 1),
            ) {
                Err(e) => Err(e),
                Ok(r) => Ok(acc + r.0),
            },
        }
    }
}

/// Once a LOD fails, every longer run carries the same error.
proof fn lemma_tex_lods_err(
    d: Seq<u8>,
    payload: int,
    toff: int,
    soff: int,
    subcount: int,
    j: int,
    n: int,
)
    requires
        0 <= j <= n,
        spec_tex_lods(d, payload, toff, soff, subcount, j) is Err,
    ensures
        spec_tex_lods(d, payload, toff, soff, subcount, n) == spec_tex_lods(
            d,
            payload,
            toff,
            soff,
            subcount,
            j,
        ),
    decreases n,
{
    if n > j {
        lemma_tex_lods_err(d, payload, toff, soff, subcount, j, n - 1);
    }
}

/// What reading a Texture file at `off` yields: LOD descriptors, then a
/// sub-block size table; when the first LOD starts past the payload, the
/// gap is copied through raw as the texture's own header, and every LOD's
/// sub-blocks follow decoded in order.
pub open spec fn spec_read_texture(d: Seq<u8>, off: int, h: FileHeader) -> Result<Seq<u8>, ErrorV> {
    let toff = off + 24;
    let bc = h.block_count as int;
    if toff + 20 * bc > d.len() {
        Err(ErrorV::Resource(spec_read_failed("block info"@, 20 * bc, avail_at(d, toff))))
    } else {
        let soff = toff + 20 * bc;
        let subcount = spec_lod_sum(d, toff, bc);
        if soff + 2 * subcount > d.len() {
            Err(
                ErrorV::Resource(
                    spec_read_failed("sub-block offsets"@, 2 * subcount, avail_at(d, soff)),
                ),
            )
        } else {
            let payload = off + h.size;
            let prelude = if bc > 0 && spec_lod_comp_off(d, toff, 0) > 0 {
                d.subrange(
                    imin(payload, d.len() as int),
                    imin(payload + spec_lod_comp_off(d, toff, 0), d.len() as int),
                )
            } else {
                Seq::empty()
            };
            match spec_tex_lods(d, payload, toff, soff, subcount, bc) {
                Err(e) => Err(e),
                Ok(b) => Ok(prelude + b),
            }
        }
    }
}

/// Decode the sub-blocks of a Texture file whose header `h` sits at `off`.
pub fn read_texture(d: &Vec<u8>, off: u64, h: &FileHeader) -> (r: Result<Vec<u8>, Error>)
    ensures
        res_matches(r, spec_read_texture(d@, off as int, *h)),
{
    let len = d.len();
    let toff128: u128 = off as u128 + 24;
    if toff128 + 20 * h.block_count as u128 > len as u128 {
        let got: u128 = if toff128 <= len as u128 {
            len as u128 - toff128
        } else {
            0
        };
        return Err(Error::Resource(read_failed("block info", 20 * h.block_count as u128, got)));
    }
    let toff: usize = off as usize + 24;
    let mut subcount: u64 = 0;
    let mut j: u32 = 0;
    while j < h.block_count
        invariant
            j <= h.block_count,
            len == d@.len(),
            toff == off + 24,
            toff + 20 * h.block_count <= len,
            subcount == spec_lod_sum(d@, toff as int, j as int),
            subcount <= j * 0xFFFFFFFFu64,
        decreases h.block_count - j,
    {
        let c = read_le32(d, toff + 20 * (j as usize) + 16);
        subcount = subcount + c as u64;
        j = j + 1;
    }
    let soff: usize = toff + 20 * (h.block_count as usize);
    if soff as u128 + 2 * subcount as u128 > len as u128 {
        let got: u128 = if soff <= len {
            (len - soff) as u128
        } else {
            0
        };
        return Err(Error::Resource(read_failed("sub-block offsets", 2 * subcount as u128, got)));
    }
    let payload: u128 = off as u128 + h.size as u128;
    let mut out: Vec<u8> = Vec::new();
    if h.block_count > 0 {
        let r0 = read_le32(d, toff);
        if r0 > 0 {
            let lo: usize = if payload > len as u128 {
                len
            } else {
                payload as usize
            };
            let hi: usize = if payload + r0 as u128 > len as u128 {
                len
            } else {
                (payload + r0 as u128) as usize
            };
            out = copy_range(d, lo, hi);
        }
    }
    let ghost prelude = out@;
    let mut body: Vec<u8> = Vec::new();
    let mut j: u32 = 0;
    while j < h.block_count
        invariant
            j <= h.block_count,
            len == d@.len(),
            toff == off + 24,
            toff + 20 * h.block_count <= len,
            soff == toff + 20 * h.block_count,
            subcount == spec_lod_sum(d@, toff as int, h.block_count as int),
            soff + 2 * subcount <= len,
            payload == off + h.size,
            spec_tex_lods(
                d@,
                payload as int,
                toff as int,
                soff as int,
                subcount as int,
                j as int,
            ) == Ok::<Seq<u8>, ErrorV>(body@),
        decreases h.block_count - j,
    {
        let l_comp = read_le32(d, toff + 20 * (j as usize));
        let l_start = read_le32(d, toff + 20 * (j as usize) + 12);
        let l_count = read_le32(d, toff + 20 * (j as usize) + 16);
        let cur0: u128 = payload + l_comp as u128;
        let mut cur: u128 = cur0;
        let ghost body0 = body@;
        proof {
            assert(body@.subrange(body0.len() as int, body@.len() as int) =~= Seq::<u8>::empty());
        }
        let mut k: u32 = 0;
        while k < l_count
            invariant
                k <= l_count,
                len == d@.len(),
                j < h.block_count,
                toff == off + 24,
                toff + 20 * h.block_count <= len,
                soff == toff + 20 * h.block_count,
                subcount == spec_lod_sum(d@, toff as int, h.block_count as int),
                soff + 2 * subcount <= len,
                payload == off + h.size,
                l_comp == spec_lod_comp_off(d@, toff as int, j as int),
                l_start == spec_lod_block_off(d@, toff as int, j as int),
                l_count == spec_lod_block_count(d@, toff as int, j as int),
                spec_tex_lods(
                    d@,
                    payload as int,
                    toff as int,
                    soff as int,
                    subcount as int,
                    j as int,
                ) == Ok::<Seq<u8>, ErrorV>(body0),
                cur0 == payload + l_comp,
                body0.is_prefix_of(body@),
                spec_tex_inner(
                    d@,
                    soff as int,
                    subcount as int,
                    l_start as int,
                    k as int,
                    cur0 as int,
                ) == Ok::<(Seq<u8>, int), ErrorV>(
                    (body@.subrange(body0.len() as int, body@.len() as int), cur as int),
                ),
            decreases l_count - k,
        {
            let idx128: u128 = l_start as u128 + k as u128;
            if idx128 >= subcount as u128 {
                proof {
                    lemma_tex_inner_err(
                        d@,
                        soff as int,
                        subcount as int,
                        l_start as int,
                        k + 1,
                        l_count as int,
                        cur0 as int,
                    );
                    lemma_tex_lods_err(
                        d@,
                        payload as int,
                        toff as int,
                        soff as int,
                        subcount as int,
                        j + 1,
                        h.block_count as int,
                    );
                }
                return Err(
                    Error::Resource(
                        String::from_str("Failed to read file. Sub-block index out of range."),
                    ),
                );
            }
            match read_block(d, cur) {
                Ok(mut b) => {
                    let ghost oldbody = body@;
                    let ghost gb = b@;
                    body.append(&mut b);
                    proof {
                        assert(body@.subrange(body0.len() as int, body@.len() as int)
                            =~= oldbody.subrange(body0.len() as int, oldbody.len() as int) + gb);
                    }
                },
                Err(e) => {
                    proof {
                        lemma_tex_inner_err(
                            d@,
                            soff as int,
                            subcount as int,
                            l_start as int,
                            k + 1,
                            l_count as int,
                            cur0 as int,
                        );
                        lemma_tex_lods_err(
                            d@,
                            payload as int,
                            toff as int,
                            soff as int,
                            subcount as int,
                            j + 1,
                            h.block_count as int,
                        );
                    }
                    return Err(e);
                },
            }
            let idx: usize = idx128 as usize;
            let sub = read_le16(d, soff + 2 * idx);
            cur = cur + sub as u128;
            k = k + 1;
        }
        proof {
            assert(body0 + body@.subrange(body0.len() as int, body@.len() as int) =~= body@);
        }
        j = j + 1;
    }
    out.append(&mut body);
    proof {
        assert(out@ =~= prelude + out@.subrange(prelude.len() as int, out@.len() as int));
    }
    Ok(out)
}

/// What reading the file stored at `off` inside a `.dat` buffer yields:
/// the header names a kind — an Empty file decodes to nothing, a
/// Standard or Texture file to its blocks — and the result is handed out
/// only when it holds exactly `raw_file_size` bytes.
pub open spec fn spec_read_dat_file(d: Seq<u8>, off: int) -> Result<Seq<u8>, ErrorV> {
    match spec_file_header(d, off) {
        None => Err(ErrorV::Resource(spec_read_failed("file header"@, 24, avail_at(d, off)))),
        Some(h) => {
            let decoded = if h.kind == 1 {
                Ok(Seq::<u8>::empty())
            } else if h.kind == 2 {
                spec_read_standard(d, off, h)
            } else if h.kind == 4 {
                spec_read_texture(d, off, h)
            } else {
                Err(
                    ErrorV::Resource(
                        "Failed to read file. Unsupported kind "@ + spec_dec(h.kind as int) + "."@,
                    ),
                )
            };
            match decoded {
                Err(e) => Err(e),
                Ok(b) => if b.len() == h.raw_file_size {
                    Ok(b)
                } else {
                    Err(
                        ErrorV::Resource(
                            spec_read_failed("file"@, h.raw_file_size as int, b.len() as int),
                        ),
                    )
                },
            }
        },
    }
}

/// Read the file stored at `offset` inside the `.dat` buffer `d`.
pub fn read_file(d: &Vec<u8>, offset: u64) -> (r: Result<Vec<u8>, Error>)
    ensures
        res_matches(r, spec_read_dat_file(d@, offset as int)),
{
    let len = d.len();
    if offset as u128 > len as u128 || (len as u128 - offset as u128) < 24 {
        let got: u128 = if offset as u128 <= len as u128 {
            len as u128 - offset as u128
        } else {
            0
        };
        return Err(Error::Resource(read_failed("file header", 24, got)));
    }
    let o = offset as usize;
    let h = FileHeader {
        size: read_le32(d, o),
        kind: read_le32(d, o + 4),
        raw_file_size: read_le32(d, o + 8),
        block_count: read_le32(d, o + 20),
    };
    let decoded: Result<Vec<u8>, Error> = if h.kind == 1 {
        Ok(Vec::new())
    } else if h.kind == 2 {
        read_standard(d, offset, &h)
    } else if h.kind == 4 {
        read_texture(d, offset, &h)
    } else {
        let mut m = String::from_str("Failed to read file. Unsupported kind ");
        push_dec(&mut m, h.kind as u128);
        m.append(".");
        proof {
            assert(m@ =~= "Failed to read file. Unsupported kind "@ + spec_dec(h.kind as int)
                + "."@);
        }
        Err(Error::Resource(m))
    };
    match decoded {
        Err(e) => Err(e),
        Ok(b) => {
            if b.len() == h.raw_file_size as usize {
                Ok(b)
            } else {
                Err(
                    Error::Resource(
                        read_failed("file", h.raw_file_size as u128, b.len() as u128),
                    ),
                )
            }
        },
    }
}

/// Whatever its kind, a file that reads successfully yields exactly the
/// raw byte count its header declares.
pub proof fn lemma_read_len_is_raw_size(d: Seq<u8>, off: int)
    requires
        spec_read_dat_file(d, off) is Ok,
    ensures
        spec_file_header(d, off) is Some,
        spec_read_dat_file(d, off)->Ok_0.len() == spec_file_header(d, off)->0.raw_file_size,
{
}

/// The length of a Standard decode is the sum of the declared decoded
/// sizes of its first `i` blocks.
pub open spec fn spec_std_ds_sum(d: Seq<u8>, toff: int, i: int) -> int
    decreases i,
{
    if i <= 0 {
        0
    } else {
        spec_std_ds_sum(d, toff, i - 1) + spec_std_entry_ds(d, toff, i - 1)
    }
}

proof fn lemma_standard_prefix_len(d: Seq<u8>, payload: int, toff: int, i: int)
    requires
        i >= 0,
        spec_standard_prefix(d, payload, toff, i) is Ok,
    ensures
        spec_standard_prefix(d, payload, toff, i)->Ok_0.len() == spec_std_ds_sum(d, toff, i),
    decreases i,
{
    if i > 0 {
        lemma_standard_prefix_len(d, payload, toff, i - 1);
    }
}

/// In a Standard file that reads successfully, every block decodes to
/// exactly its declared size, and those sizes sum to the file's declared
/// raw size.
pub proof fn lemma_standard_blocks_sum_to_raw_size(d: Seq<u8>, off: int)
    requires
        spec_read_dat_file(d, off) is Ok,
        spec_file_header(d, off)->0.kind == 2,
    ensures
        spec_std_ds_sum(d, off + 24, spec_file_header(d, off)->0.block_count as int)
            == spec_file_header(d, off)->0.raw_file_size,
        forall|j: int|
            0 <= j < spec_file_header(d, off)->0.block_count ==> {
                let b = #[trigger] spec_block_payload(
                    d,
                    off + spec_file_header(d, off)->0.size + spec_std_entry_off(d, off + 24, j),
                );
                b is Ok && b->Ok_0.len() == spec_std_entry_ds(d, off + 24, j)
            },
{
    let h = spec_file_header(d, off)->0;
    let toff = off + 24;
    let payload = off + h.size;
    lemma_standard_prefix_len(d, payload, toff, h.block_count as int);
    assert forall|j: int| 0 <= j < h.block_count implies {
        let b = #[trigger] spec_block_payload(d, payload + spec_std_entry_off(d, toff, j));
        b is Ok && b->Ok_0.len() == spec_std_entry_ds(d, toff, j)
    } by {
        lemma_standard_prefix_ok_at(d, payload, toff, j, h.block_count as int);
    }
}

/// If the whole prefix run succeeds, each block in it succeeded with its
/// declared size.
proof fn lemma_standard_prefix_ok_at(d: Seq<u8>, payload: int, toff: int, j: int, n: int)
    requires
        0 <= j < n,
        spec_standard_prefix(d, payload, toff, n) is Ok,
    ensures
        spec_block_payload(d, payload + spec_std_entry_off(d, toff, j)) is Ok,
        spec_block_payload(d, payload + spec_std_entry_off(d, toff, j))->Ok_0.len()
            == spec_std_entry_ds(d, toff, j),
    decreases n,
{
    if j < n - 1 {
        lemma_standard_prefix_ok_at(d, payload, toff, j, n - 1);
    }
}

} // verus!
