//! Verified number-to-text formatting and list joining, used by the URL
//! builders, the schedule renderer and the autocomplete choice labels.

use vstd::prelude::*;

use crate::text::push_char;

verus! {

/// The character for one decimal digit.
pub open spec fn digit_char(d: int) -> char {
    if d == 0 {
        '0'
    } else if d == 1 {
        '1'
    } else if d == 2 {
        '2'
    } else if d == 3 {
        '3'
    } else if d == 4 {
        '4'
    } else if d == 5 {
        '5'
    } else if d == 6 {
        '6'
    } else if d == 7 {
        '7'
    } else if d == 8 {
        '8'
    } else {
        '9'
    }
}

/// The decimal rendering of a non-negative number, without sign or padding.
pub open spec fn dec_digits(n: nat) -> Seq<char>
    decreases n,
{
    if n < 10 {
        seq![digit_char(n as int)]
    } else {
        dec_digits(n / 10).push(digit_char((n % 10) as int))
    }
}

/// The decimal rendering of any number, with a leading minus sign when
/// negative.
pub open spec fn int_digits(n: int) -> Seq<char> {
    if n < 0 {
        seq!['-'] + dec_digits((-n) as nat)
    } else {
        dec_digits(n as nat)
    }
}

/// A number rendered to two positions, zero-padded on the left.
pub open spec fn pad2_digits(n: nat) -> Seq<char> {
    if n < 10 {
        seq!['0', digit_char(n as int)]
    } else {
        dec_digits(n)
    }
}

fn exec_digit_char(d: u64) -> (r: char)
    requires
        d < 10,
    ensures
        r == digit_char(d as int),
{
    match d {
        0 => '0',
        1 => '1',
        2 => '2',
        3 => '3',
        4 => '4',
        5 => '5',
        6 => '6',
        7 => '7',
        8 => '8',
        _ => '9',
    }
}

/// The decimal rendering of a `u64`.
pub fn u64_string(n: u64) -> (r: String)
    ensures
        r@ == dec_digits(n as nat),
{
    let mut digits: Vec<char> = Vec::new();
    let mut m: u64 = n;
    digits.push(exec_digit_char(m % 10));
    m = m / 10;
    while m > 0
        invariant
            0 <= m,
            digits@.len() > 0,
            dec_digits(n as nat) =~= if m > 0 {
                dec_digits(m as nat) + digits@.reverse()
            } else {
                digits@.reverse()
            },
        decreases m,
    {
        let d = m % 10;
        let ghost old_digits = digits@;
        digits.push(exec_digit_char(d));
        m = m / 10;
        proof {
            assert(digits@.reverse() =~= seq![digit_char(d as int)] + old_digits.reverse());
            if m > 0 {
                assert(dec_digits((m * 10 + d) as nat) == dec_digits(m as nat).push(
                    digit_char(d as int),
                ));
                assert(dec_digits(m as nat).push(digit_char(d as int)) =~= dec_digits(m as nat)
                    + seq![digit_char(d as int)]);
                assert(dec_digits(n as nat) =~= dec_digits(m as nat) + digits@.reverse());
            } else {
                assert(dec_digits(d as nat) =~= seq![digit_char(d as int)]);
                assert(dec_digits(n as nat) =~= digits@.reverse());
            }
        }
    }
    let mut r: String = String::new();
    let k: usize = digits.len();
    let mut i: usize = 0;
    while i < k
        invariant
            k == digits@.len(),
            0 <= i <= k,
            r@ =~= digits@.reverse().subrange(0, i as int),
        decreases k - i,
    {
        push_char(&mut r, digits[k - 1 - i]);
        proof {
            assert(digits@.reverse().subrange(0, i + 1) =~= digits@.reverse().subrange(0, i as int)
                + seq![digits@.reverse()[i as int]]);
        }
        i = i + 1;
    }
    proof {
        assert(digits@.reverse().subrange(0, k as int) =~= digits@.reverse());
    }
    r
}

/// The decimal rendering of an `i64`, signed.
pub fn i64_string(n: i64) -> (r: String)
    ensures
        r@ == int_digits(n as int),
{
    if n >= 0 {
        u64_string(n as u64)
    } else {
        let abs: u64 = if n == i64::MIN {
            9223372036854775808u64
        } else {
            (-n) as u64
        };
        let mut r: String = String::new();
        r.append("-");
        let ds = u64_string(abs);
        r.append(ds.as_str());
        proof {
            reveal_strlit("-");
            assert(r@ =~= seq!['-'] + dec_digits(abs as nat));
        }
        r
    }
}

/// The decimal rendering of an `i32`, signed.
pub fn i32_string(n: i32) -> (r: String)
    ensures
        r@ == int_digits(n as int),
{
    i64_string(n as i64)
}

/// The decimal rendering of a `u32`.
pub fn u32_string(n: u32) -> (r: String)
    ensures
        r@ == dec_digits(n as nat),
{
    u64_string(n as u64)
}

/// A `u8` rendered to at least two positions, zero-padded (minutes, days).
pub fn pad2_string(n: u8) -> (r: String)
    ensures
        r@ == pad2_digits(n as nat),
{
    if n < 10 {
        let mut r: String = String::new();
        r.append("0");
        let ds = u64_string(n as u64);
        r.append(ds.as_str());
        proof {
            reveal_strlit("0");
            assert(r@ =~= seq!['0', digit_char(n as int)]);
        }
        r
    } else {
        u64_string(n as u64)
    }
}

/// The concatenation of `parts` with `sep` between consecutive elements.
pub open spec fn join_seqs(parts: Seq<Seq<char>>, sep: Seq<char>) -> Seq<char>
    decreases parts.len(),
{
    if parts.len() == 0 {
        Seq::empty()
    } else if parts.len() == 1 {
        parts[0]
    } else {
        join_seqs(parts.drop_last(), sep) + sep + parts.last()
    }
}

/// Joins owned strings with a separator; the result is exactly the parts
/// with `sep` in between.
pub fn join_strings(parts: &Vec<String>, sep: &str) -> (r: String)
    ensures
        r@ == join_seqs(parts@.map_values(|p: String| p@), sep@),
{
    let ghost views = parts@.map_values(|p: String| p@);
    let mut r: String = String::new();
    let n: usize = parts.len();
    let mut i: usize = 0;
    while i < n
        invariant
            n == parts@.len(),
            views == parts@.map_values(|p: String| p@),
            0 <= i <= n,
            r@ == join_seqs(views.subrange(0, i as int), sep@),
        decreases n - i,
    {
        if i > 0 {
            r.append(sep);
        }
        r.append(parts[i].as_str());
        proof {
            let pre = views.subrange(0, i as int);
            let now = views.subrange(0, i + 1);
            assert(now.drop_last() =~= pre);
            assert(now.last() == views[i as int]);
            if i == 0 {
                assert(join_seqs(now, sep@) =~= r@);
            } else {
                assert(join_seqs(now, sep@) == join_seqs(pre, sep@) + sep@ + views[i as int]);
            }
        }
        i = i + 1;
    }
    proof {
        assert(views.subrange(0, n as int) =~= views);
    }
    r
}

} // verus!
