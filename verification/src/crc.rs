//! The cyclic redundancy check used for SqPack index keys: the
//! reversed-polynomial (bit-reflected) 32-bit variant with polynomial
//! `0xEDB88320`, initial register `0xFFFFFFFF` and no final complement,
//! bit-exact with the hashes stored in the on-disk index tables.

use vstd::prelude::*;

verus! {

/// One shift of the reflected CRC register.
pub open spec fn crc_step(c: u32) -> u32 {
    if c & 1 == 1 {
        (c >> 1) ^ 0xEDB88320u32
    } else {
        c >> 1
    }
}

/// `k` shifts of the reflected CRC register.
pub open spec fn crc_steps(c: u32, k: nat) -> u32
    decreases k,
{
    if k == 0 {
        c
    } else {
        crc_steps(crc_step(c), (k - 1) as nat)
    }
}

/// The register after absorbing one byte.
pub open spec fn crc_byte(c: u32, b: u8) -> u32 {
    crc_steps(c ^ (b as u32), 8)
}

/// The register after absorbing a byte sequence, left to right.
pub open spec fn crc_fold(c: u32, s: Seq<u8>) -> u32
    decreases s.len(),
{
    if s.len() == 0 {
        c
    } else {
        crc_fold(crc_byte(c, s.first()), s.drop_first())
    }
}

/// The hash of a byte sequence.
pub open spec fn spec_crc32(s: Seq<u8>) -> u32 {
    crc_fold(0xFFFFFFFFu32, s)
}

/// One more shift at the end commutes with the iterated shifts.
pub proof fn lemma_crc_steps_snoc(c: u32, k: nat)
    ensures
        crc_steps(c, k + 1) == crc_step(crc_steps(c, k)),
    decreases k,
{
    if k == 0 {
        assert(crc_steps(c, 1) == crc_steps(crc_step(c), 0));
    } else {
        assert(crc_steps(c, k + 1) == crc_steps(crc_step(c), k));
        assert(crc_steps(c, k) == crc_steps(crc_step(c), (k - 1) as nat));
        lemma_crc_steps_snoc(crc_step(c), (k - 1) as nat);
    }
}

/// Absorbing one more byte at the right commutes with the fold.
pub proof fn lemma_crc_fold_push(c: u32, s: Seq<u8>, b: u8)
    ensures
        crc_fold(c, s.push(b)) == crc_byte(crc_fold(c, s), b),
    decreases s.len(),
{
    if s.len() == 0 {
        assert(s.push(b).first() == b);
        assert(s.push(b).drop_first() =~= Seq::<u8>::empty());
        assert(crc_fold(c, s.push(b)) == crc_fold(crc_byte(c, b), Seq::<u8>::empty()));
    } else {
        assert(s.push(b).first() == s.first());
        assert(s.push(b).drop_first() =~= s.drop_first().push(b));
        lemma_crc_fold_push(crc_byte(c, s.first()), s.drop_first(), b);
        assert(crc_fold(c, s.push(b)) == crc_fold(crc_byte(c, s.first()), s.drop_first().push(b)));
    }
}

/// The hash of `d[from..to]`.
pub fn crc32_range(d: &Vec<u8>, from: usize, to: usize) -> (r: u32)
    requires
        from <= to <= d@.len(),
    ensures
        r == spec_crc32(d@.subrange(from as int, to as int)),
{
    let ghost s = d@.subrange(from as int, to as int);
    let mut c: u32 = 0xFFFFFFFF;
    let mut i: usize = from;
    while i < to
        invariant
            from <= i <= to <= d@.len(),
            s == d@.subrange(from as int, to as int),
            c == crc_fold(0xFFFFFFFFu32, s.take(i - from)),
        decreases to - i,
    {
        let b = d[i];
        let mut c2: u32 = c ^ (b as u32);
        let mut k: usize = 0;
        while k < 8
            invariant
                k <= 8,
                c2 == crc_steps(c ^ (b as u32), k as nat),
            decreases 8 - k,
        {
            proof {
                lemma_crc_steps_snoc(c ^ (b as u32), k as nat);
            }
            if c2 & 1 == 1 {
                c2 = (c2 >> 1) ^ 0xEDB88320;
            } else {
                c2 = c2 >> 1;
            }
            k = k + 1;
        }
        proof {
            assert(c2 == crc_byte(c, b));
            assert(s.take(i - from + 1) =~= s.take(i - from).push(s[i - from]));
            assert(s[i - from] == b);
            lemma_crc_fold_push(0xFFFFFFFFu32, s.take(i - from), b);
        }
        c = c2;
        i = i + 1;
    }
    proof {
        assert(s.take(to - from) =~= s);
    }
    c
}

} // verus!
