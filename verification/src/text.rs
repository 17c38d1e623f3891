//! Verified text utilities: converting source text to character vectors,
//! building strings from character ranges, and rendering integers in decimal.

use vstd::prelude::*;
use vstd::string::StrSliceExecFns;
use vstd::string::StringExecFns;

verus! {

/// Appends one character to a string.
///
/// Relies on `std::string::String::push`: it appends exactly the given
/// character to the end of the string.
#[verifier::external_body]
pub(crate) fn push_char(s: &mut String, c: char)
    ensures
        final(s)@ == old(s)@.push(c),
{
    s.push(c);
}

/// Collects the characters of a string slice into a vector.
pub fn chars_of(s: &str) -> (v: Vec<char>)
    ensures
        v@ == s@,
{
    let n = s.unicode_len();
    let mut v: Vec<char> = Vec::new();
    let mut i: usize = 0;
    while i < n
        invariant
            i <= n,
            n == s@.len(),
            v@ == s@.take(i as int),
        decreases n - i,
    {
        v.push(s.get_char(i));
        i = i + 1;
        proof {
            assert(v@ =~= s@.take(i as int));
        }
    }
    proof {
        assert(v@ =~= s@);
    }
    v
}

/// Builds a string from the characters of `src` in the range `[lo, hi)`.
pub fn string_of_range(src: &Vec<char>, lo: usize, hi: usize) -> (s: String)
    requires
        lo <= hi <= src@.len(),
    ensures
        s@ == src@.subrange(lo as int, hi as int),
{
    let mut out = String::new();
    let mut i: usize = lo;
    while i < hi
        invariant
            lo <= i <= hi <= src@.len(),
            out@ == src@.subrange(lo as int, i as int),
        decreases hi - i,
    {
        push_char(&mut out, src[i]);
        i = i + 1;
        proof {
            assert(out@ =~= src@.subrange(lo as int, i as int));
        }
    }
    out
}

/// Whether a character is a decimal digit.
pub open spec fn is_digit_c(c: char) -> bool {
    48 <= c as u32 <= 57
}

/// The numeric value of a decimal digit character.
pub open spec fn digit_val(c: char) -> int {
    c as u32 - 48
}

/// Whether a character vector holds exactly the characters of a string slice.
pub fn chars_eq_str(cs: &Vec<char>, t: &str) -> (r: bool)
    ensures
        r == (cs@ == t@),
{
    let n = t.unicode_len();
    if cs.len() != n {
        return false;
    }
    let mut i: usize = 0;
    while i < n
        invariant
            i <= n,
            n == t@.len(),
            n == cs@.len(),
            forall|j: int| 0 <= j < i ==> cs@[j] == t@[j],
        decreases n - i,
    {
        if cs[i] != t.get_char(i) {
            return false;
        }
        i = i + 1;
    }
    proof {
        assert(cs@ =~= t@);
    }
    true
}

/// The decimal digit character for a value below ten.
pub open spec fn digit_char(d: int) -> char {
    if d == 0 {
        '0'
    } else if d == 1 {
        '1'
    } else if d == 2 {
        '2'
    } else if d == 3 {
        '3'
    } else if d == 4 {
        '4'
    } else if d == 5 {
        '5'
    } else if d == 6 {
        '6'
    } else if d == 7 {
        '7'
    } else if d == 8 {
        '8'
    } else {
        '9'
    }
}

/// The decimal rendering of a natural number, most significant digit first.
pub open spec fn dec_nat(n: nat) -> Seq<char>
    decreases n,
{
    if n < 10 {
        seq![digit_char(n as int)]
    } else {
        dec_nat(n / 10).push(digit_char((n % 10) as int))
    }
}

/// The decimal rendering of an integer: a minus sign before the magnitude
/// for negative values.
pub open spec fn dec_int(i: int) -> Seq<char> {
    if i < 0 {
        seq!['-'] + dec_nat((-i) as nat)
    } else {
        dec_nat(i as nat)
    }
}

/// The decimal digit character for a value below ten, executably.
fn digit_char_exec(d: u64) -> (c: char)
    requires
        d < 10,
    ensures
        c == digit_char(d as int),
{
    if d == 0 {
        '0'
    } else if d == 1 {
        '1'
    } else if d == 2 {
        '2'
    } else if d == 3 {
        '3'
    } else if d == 4 {
        '4'
    } else if d == 5 {
        '5'
    } else if d == 6 {
        '6'
    } else if d == 7 {
        '7'
    } else if d == 8 {
        '8'
    } else {
        '9'
    }
}

/// Renders an unsigned value in decimal.
pub fn u64_to_string(n: u64) -> (s: String)
    ensures
        s@ == dec_nat(n as nat),
{
    let mut v: Vec<char> = Vec::new();
    let mut cur: u64 = n;
    while cur >= 10
        invariant
            dec_nat(n as nat) == dec_nat(cur as nat) + v@,
        decreases cur,
    {
        let d = cur % 10;
        let ghost cur_prev = cur as nat;
        let ghost v_prev = v@;
        v.insert(0, digit_char_exec(d));
        cur = cur / 10;
        proof {
            assert(v@ =~= seq![digit_char(d as int)] + v_prev);
            assert(dec_nat(cur_prev) == dec_nat(cur as nat).push(digit_char(d as int)));
            assert(dec_nat(cur as nat) + v@ =~= dec_nat(cur_prev) + v_prev);
        }
    }
    let last = digit_char_exec(cur);
    let ghost v_fin = v@;
    v.insert(0, last);
    proof {
        assert(v@ =~= seq![digit_char(cur as int)] + v_fin);
        assert(dec_nat(cur as nat) == seq![digit_char(cur as int)]);
        assert(v@ =~= dec_nat(n as nat));
    }
    let s = string_of_range(&v, 0, v.len());
    proof {
        assert(v@.subrange(0, v@.len() as int) =~= v@);
    }
    s
}

/// Renders a machine word in decimal.
pub fn usize_to_string(n: usize) -> (s: String)
    ensures
        s@ == dec_nat(n as nat),
{
    u64_to_string(n as u64)
}

/// Renders a signed value in decimal, with a leading minus sign when negative.
pub fn i64_to_string(n: i64) -> (s: String)
    ensures
        s@ == dec_int(n as int),
{
    if n >= 0 {
        u64_to_string(n as u64)
    } else {
        let mag: u64 = if n == i64::MIN {
            9223372036854775808u64
        } else {
            (-n) as u64
        };
        let digits = u64_to_string(mag);
        let mut out = String::new();
        push_char(&mut out, '-');
        let r = out.concat(digits.as_str());
        proof {
            assert(r@ =~= dec_int(n as int));
        }
        r
    }
}

} // verus!
