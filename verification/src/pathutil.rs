//! Logical-path handling: ASCII case folding of paths (case is folded
//! before any matching or hashing) and locating the slash-delimited
//! segments.

use vstd::prelude::*;

verus! {

/// ASCII case folding of one character: uppercase letters fold to their
/// lowercase pair, all else is untouched.
pub open spec fn fold_char(c: char) -> char {
    if c == 'A' {
        'a'
    } else     if c == 'B' {
        'b'
    } else     if c == 'C' {
        'c'
    } else     if c == 'D' {
        'd'
    } else     if c == 'E' {
        'e'
    } else     if c == 'F' {
        'f'
    } else     if c == 'G' {
        'g'
    } else     if c == 'H' {
        'h'
    } else     if c == 'I' {
        'i'
    } else     if c == 'J' {
        'j'
    } else     if c == 'K' {
        'k'
    } else     if c == 'L' {
        'l'
    } else     if c == 'M' {
        'm'
    } else     if c == 'N' {
        'n'
    } else     if c == 'O' {
        'o'
    } else     if c == 'P' {
        'p'
    } else     if c == 'Q' {
        'q'
    } else     if c == 'R' {
        'r'
    } else     if c == 'S' {
        's'
    } else     if c == 'T' {
        't'
    } else     if c == 'U' {
        'u'
    } else     if c == 'V' {
        'v'
    } else     if c == 'W' {
        'w'
    } else     if c == 'X' {
        'x'
    } else     if c == 'Y' {
        'y'
    } else     if c == 'Z' {
        'z'
    } else {
        c
    }
}

/// ASCII case folding of a character sequence.
pub open spec fn fold_chars(s: Seq<char>) -> Seq<char> {
    s.map_values(|c: char| fold_char(c))
}

/// ASCII case folding of one byte.
pub open spec fn fold_byte(b: u8) -> u8 {
    if 65 <= b <= 90 {
        (b + 32) as u8
    } else {
        b
    }
}

/// ASCII case folding of a byte sequence.
pub open spec fn fold_bytes(s: Seq<u8>) -> Seq<u8> {
    s.map_values(|b: u8| fold_byte(b))
}

/// Fold one character.
pub fn fold_char_exec(c: char) -> (r: char)
    ensures
        r == fold_char(c),
{
    match c {
        'A' => 'a',
        'B' => 'b',
        'C' => 'c',
        'D' => 'd',
        'E' => 'e',
        'F' => 'f',
        'G' => 'g',
        'H' => 'h',
        'I' => 'i',
        'J' => 'j',
        'K' => 'k',
        'L' => 'l',
        'M' => 'm',
        'N' => 'n',
        'O' => 'o',
        'P' => 'p',
        'Q' => 'q',
        'R' => 'r',
        'S' => 's',
        'T' => 't',
        'U' => 'u',
        'V' => 'v',
        'W' => 'w',
        'X' => 'x',
        'Y' => 'y',
        'Z' => 'z',
        _ => c,
    }
}

/// Fold every character of `v`.
pub fn fold_chars_vec(v: &Vec<char>) -> (r: Vec<char>)
    ensures
        r@ == fold_chars(v@),
{
    let mut r: Vec<char> = Vec::new();
    let mut i: usize = 0;
    while i < v.len()
        invariant
            i <= v@.len(),
            r@ == fold_chars(v@.take(i as int)),
        decreases v@.len() - i,
    {
        r.push(fold_char_exec(v[i]));
        proof {
            assert(fold_chars(v@.take(i + 1)) =~= fold_chars(v@.take(i as int)).push(
                fold_char(v@[i as int]),
            ));
        }
        i = i + 1;
    }
    proof {
        assert(v@.take(v@.len() as int) =~= v@);
    }
    r
}

/// Fold every byte of `v`.
pub fn fold_bytes_vec(v: &[u8]) -> (r: Vec<u8>)
    ensures
        r@ == fold_bytes(v@),
{
    let mut r: Vec<u8> = Vec::new();
    let mut i: usize = 0;
    while i < v.len()
        invariant
            i <= v@.len(),
            r@ == fold_bytes(v@.take(i as int)),
        decreases v@.len() - i,
    {
        let b = v[i];
        let f: u8 = if 65 <= b && b <= 90 {
            b + 32
        } else {
            b
        };
        r.push(f);
        proof {
            assert(fold_bytes(v@.take(i + 1)) =~= fold_bytes(v@.take(i as int)).push(
                fold_byte(v@[i as int]),
            ));
        }
        i = i + 1;
    }
    proof {
        assert(v@.take(v@.len() as int) =~= v@);
    }
    r
}

/// ASCII uppercasing of one character: the inverse direction of
/// [`fold_char`] on the letters.
pub open spec fn upper_char(c: char) -> char {
    if c == 'a' {
        'A'
    } else if c == 'b' {
        'B'
    } else if c == 'c' {
        'C'
    } else if c == 'd' {
        'D'
    } else if c == 'e' {
        'E'
    } else if c == 'f' {
        'F'
    } else if c == 'g' {
        'G'
    } else if c == 'h' {
        'H'
    } else if c == 'i' {
        'I'
    } else if c == 'j' {
        'J'
    } else if c == 'k' {
        'K'
    } else if c == 'l' {
        'L'
    } else if c == 'm' {
        'M'
    } else if c == 'n' {
        'N'
    } else if c == 'o' {
        'O'
    } else if c == 'p' {
        'P'
    } else if c == 'q' {
        'Q'
    } else if c == 'r' {
        'R'
    } else if c == 's' {
        'S'
    } else if c == 't' {
        'T'
    } else if c == 'u' {
        'U'
    } else if c == 'v' {
        'V'
    } else if c == 'w' {
        'W'
    } else if c == 'x' {
        'X'
    } else if c == 'y' {
        'Y'
    } else if c == 'z' {
        'Z'
    } else {
        c
    }
}

/// ASCII uppercasing of a character sequence.
pub open spec fn upper_chars(s: Seq<char>) -> Seq<char> {
    s.map_values(|c: char| upper_char(c))
}

/// ASCII uppercasing of one byte.
pub open spec fn upper_byte(b: u8) -> u8 {
    if 97 <= b <= 122 {
        (b - 32) as u8
    } else {
        b
    }
}

/// ASCII uppercasing of a byte sequence.
pub open spec fn upper_bytes(s: Seq<u8>) -> Seq<u8> {
    s.map_values(|b: u8| upper_byte(b))
}

/// Folding is blind to prior uppercasing.
pub proof fn lemma_fold_upper_chars(s: Seq<char>)
    ensures
        fold_chars(upper_chars(s)) == fold_chars(s),
{
    assert forall|i: int| 0 <= i < s.len() implies fold_char(upper_char(s[i])) == fold_char(
        s[i],
    ) by {}
    assert(fold_chars(upper_chars(s)) =~= fold_chars(s));
}

/// Folding is blind to prior uppercasing, on bytes.
pub proof fn lemma_fold_upper_bytes(s: Seq<u8>)
    ensures
        fold_bytes(upper_bytes(s)) == fold_bytes(s),
{
    assert(fold_bytes(upper_bytes(s)) =~= fold_bytes(s));
}

/// The position of the first occurrence of `x` at or after `from`, or
/// the sequence's length when there is none.
pub open spec fn spec_find_char(s: Seq<char>, from: int, x: char) -> int
    decreases s.len() - from,
{
    if from < 0 || from >= s.len() {
        s.len() as int
    } else if s[from] == x {
        from
    } else {
        spec_find_char(s, from + 1, x)
    }
}

/// The found position lies between `from` and the length, and holds `x`
/// when it is not the length.
pub proof fn lemma_find_char_range(s: Seq<char>, from: int, x: char)
    requires
        0 <= from <= s.len(),
    ensures
        from <= spec_find_char(s, from, x) <= s.len(),
        spec_find_char(s, from, x) < s.len() ==> s[spec_find_char(s, from, x)] == x,
    decreases s.len() - from,
{
    if from < s.len() && s[from] != x {
        lemma_find_char_range(s, from + 1, x);
    }
}

/// Find the first occurrence of `x` in `v` at or after `from`.
pub fn find_char_vec(v: &Vec<char>, from: usize, x: char) -> (r: usize)
    requires
        from <= v@.len(),
    ensures
        r == spec_find_char(v@, from as int, x),
{
    let mut i: usize = from;
    while i < v.len()
        invariant
            from <= i <= v@.len(),
            spec_find_char(v@, from as int, x) == spec_find_char(v@, i as int, x),
        decreases v@.len() - i,
    {
        if v[i] == x {
            return i;
        }
        i = i + 1;
    }
    v.len()
}

/// The position of the first occurrence of byte `x` at or after `from`,
/// or the sequence's length when there is none.
pub open spec fn spec_find_byte(s: Seq<u8>, from: int, x: u8) -> int
    decreases s.len() - from,
{
    if from < 0 || from >= s.len() {
        s.len() as int
    } else if s[from] == x {
        from
    } else {
        spec_find_byte(s, from + 1, x)
    }
}

/// The found position lies between `from` and the length, and holds `x`
/// when it is not the length.
pub proof fn lemma_find_byte_range(s: Seq<u8>, from: int, x: u8)
    requires
        0 <= from <= s.len(),
    ensures
        from <= spec_find_byte(s, from, x) <= s.len(),
        spec_find_byte(s, from, x) < s.len() ==> s[spec_find_byte(s, from, x)] == x,
    decreases s.len() - from,
{
    if from < s.len() && s[from] != x {
        lemma_find_byte_range(s, from + 1, x);
    }
}

/// Find the first occurrence of byte `x` in `v` at or after `from`.
pub fn find_byte_vec(v: &Vec<u8>, from: usize, x: u8) -> (r: usize)
    requires
        from <= v@.len(),
    ensures
        r == spec_find_byte(v@, from as int, x),
{
    let mut i: usize = from;
    while i < v.len()
        invariant
            from <= i <= v@.len(),
            spec_find_byte(v@, from as int, x) == spec_find_byte(v@, i as int, x),
        decreases v@.len() - i,
    {
        if v[i] == x {
            return i;
        }
        i = i + 1;
    }
    v.len()
}

/// The position of the last occurrence of `x`, or `-1` when absent.
pub open spec fn spec_rfind_byte(s: Seq<u8>, x: u8) -> int
    decreases s.len(),
{
    if s.len() == 0 {
        -1
    } else if s[s.len() - 1] == x {
        s.len() - 1
    } else {
        spec_rfind_byte(s.drop_last(), x)
    }
}

/// The found position lies below the length, and holds `x` when it is
/// not `-1`.
pub proof fn lemma_rfind_byte_range(s: Seq<u8>, x: u8)
    ensures
        -1 <= spec_rfind_byte(s, x) < s.len(),
        spec_rfind_byte(s, x) >= 0 ==> s[spec_rfind_byte(s, x)] == x,
    decreases s.len(),
{
    if s.len() > 0 && s[s.len() - 1] != x {
        lemma_rfind_byte_range(s.drop_last(), x);
    }
}

/// Find the last occurrence of `x` in `v`.
pub fn rfind_byte_vec(v: &Vec<u8>, x: u8) -> (r: Option<usize>)
    ensures
        match r {
            Some(i) => i == spec_rfind_byte(v@, x),
            None => spec_rfind_byte(v@, x) == -1,
        },
{
    let mut i: usize = v.len();
    proof {
        assert(v@.take(v@.len() as int) =~= v@);
    }
    while i > 0
        invariant
            i <= v@.len(),
            spec_rfind_byte(v@, x) == spec_rfind_byte(v@.take(i as int), x),
        decreases i,
    {
        proof {
            assert(v@.take(i as int).drop_last() =~= v@.take(i - 1));
        }
        if v[i - 1] == x {
            return Some(i - 1);
        }
        i = i - 1;
    }
    None
}

} // verus!
