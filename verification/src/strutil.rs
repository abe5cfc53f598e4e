//! Small string helpers: decimal rendering of counters for error
//! details, and conversion between strings and character vectors.

use vstd::prelude::*;
use vstd::std_specs::iter::IteratorSpec;

verus! {

/// The character for one decimal digit.
pub open spec fn spec_dec_digit(d: int) -> char {
    if d == 0 {
        '0'
    } else if d == 1 {
        '1'
    } else if d == 2 {
        '2'
    } else if d == 3 {
        '3'
    } else if d == 4 {
        '4'
    } else if d == 5 {
        '5'
    } else if d == 6 {
        '6'
    } else if d == 7 {
        '7'
    } else if d == 8 {
        '8'
    } else {
        '9'
    }
}

/// The usual decimal rendering of a non-negative integer, most
/// significant digit first, without leading zeros.
pub open spec fn spec_dec(n: int) -> Seq<char>
    decreases n,
{
    if n < 10 {
        seq![spec_dec_digit(n)]
    } else {
        spec_dec(n / 10).push(spec_dec_digit(n % 10))
    }
}

/// Relies on `String::push`: appends the given character to the end of
/// the string.
pub assume_specification[ String::push ](s: &mut String, ch: char)
    ensures
        final(s)@ == old(s)@.push(ch),
;

/// Append the decimal rendering of `n` to `s`.
pub fn push_dec(s: &mut String, n: u128)
    ensures
        final(s)@ == old(s)@ + spec_dec(n as int),
    decreases n,
{
    if n >= 10 {
        push_dec(s, n / 10);
    }
    let d = (n % 10) as u8;
    let c: char = if d == 0 {
        '0'
    } else if d == 1 {
        '1'
    } else if d == 2 {
        '2'
    } else if d == 3 {
        '3'
    } else if d == 4 {
        '4'
    } else if d == 5 {
        '5'
    } else if d == 6 {
        '6'
    } else if d == 7 {
        '7'
    } else if d == 8 {
        '8'
    } else {
        '9'
    };
    s.push(c);
    proof {
        if n < 10 {
            assert(old(s)@ + spec_dec(n as int) =~= old(s)@.push(c));
        } else {
            assert(old(s)@ + spec_dec(n as int) =~= (old(s)@ + spec_dec(n as int / 10)).push(c));
        }
    }
}

/// Append every character of `v` to `s`.
pub fn push_chars(s: &mut String, v: &Vec<char>)
    ensures
        final(s)@ == old(s)@ + v@,
{
    let mut i: usize = 0;
    while i < v.len()
        invariant
            i <= v.len(),
            s@ == old(s)@ + v@.take(i as int),
        decreases v.len() - i,
    {
        s.push(v[i]);
        proof {
            assert(old(s)@ + v@.take(i as int + 1) =~= (old(s)@ + v@.take(i as int)).push(v@[i as int]));
        }
        i = i + 1;
    }
    proof {
        assert(v@.take(v@.len() as int) =~= v@);
    }
}

/// Append the characters `v[from..to]` to `s`.
pub fn push_chars_range(s: &mut String, v: &Vec<char>, from: usize, to: usize)
    requires
        from <= to <= v@.len(),
    ensures
        final(s)@ == old(s)@ + v@.subrange(from as int, to as int),
{
    let mut i: usize = from;
    while i < to
        invariant
            from <= i <= to <= v@.len(),
            s@ == old(s)@ + v@.subrange(from as int, i as int),
        decreases to - i,
    {
        s.push(v[i]);
        proof {
            assert(old(s)@ + v@.subrange(from as int, i + 1) =~= (old(s)@ + v@.subrange(
                from as int,
                i as int,
            )).push(v@[i as int]));
        }
        i = i + 1;
    }
}

/// Whether a character may stand in a generated identifier: an ASCII
/// letter or digit.
pub open spec fn is_ident_char(c: char) -> bool {
    (48 <= c as u32 <= 57) || (65 <= c as u32 <= 90) || (97 <= c as u32 <= 122)
}

/// A string with everything but ASCII letters and digits removed.
pub open spec fn spec_identifier(s: Seq<char>) -> Seq<char>
    decreases s.len(),
{
    if s.len() == 0 {
        Seq::empty()
    } else if is_ident_char(s.last()) {
        spec_identifier(s.drop_last()).push(s.last())
    } else {
        spec_identifier(s.drop_last())
    }
}

/// Strip everything but ASCII letters and digits from a name, leaving a
/// usable identifier.
pub fn to_identifier(arg: &str) -> (r: String)
    ensures
        r@ == spec_identifier(arg@),
{
    let v = chars_vec(arg);
    let mut s = String::new();
    let mut i: usize = 0;
    while i < v.len()
        invariant
            i <= v@.len(),
            v@ == arg@,
            s@ == spec_identifier(v@.take(i as int)),
        decreases v@.len() - i,
    {
        let c = v[i];
        let u = c as u32;
        if (48 <= u && u <= 57) || (65 <= u && u <= 90) || (97 <= u && u <= 122) {
            s.push(c);
        }
        proof {
            assert(v@.take(i + 1).drop_last() =~= v@.take(i as int));
            assert(v@.take(i + 1).last() == v@[i as int]);
        }
        i = i + 1;
    }
    proof {
        assert(v@.take(v@.len() as int) =~= v@);
    }
    s
}

/// The characters of `s`, in order, as a vector.
pub fn chars_vec(s: &str) -> (r: Vec<char>)
    ensures
        r@ == s@,
{
    broadcast use vstd::string::axiom_spec_iter, vstd::string::next_postcondition;

    let mut it = s.chars();
    let mut r: Vec<char> = Vec::new();
    let ghost all: Seq<char> = it.remaining();
    proof {
        assert(all == s@);
    }
    loop
        invariant
            it.obeys_prophetic_iter_laws(),
            it.decrease() is Some,
            r@ + it.remaining() == all,
            all == s@,
        decreases it.decrease()->0,
    {
        let ghost prev = it.remaining();
        let ghost prev_r = r@;
        match it.next() {
            Some(c) => {
                r.push(c);
                proof {
                    assert(prev.len() > 0);
                    assert(r@ + it.remaining() =~= prev_r + prev);
                }
            },
            None => {
                proof {
                    assert(it.remaining().len() == 0);
                    assert(r@ =~= r@ + it.remaining());
                    assert(all == s@);
                }
                return r;
            },
        }
    }
}

} // verus!
