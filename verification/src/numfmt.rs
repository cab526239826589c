//! Decimal rendering and parsing of unsigned integers, with the zero-padded
//! fixed-width forms used by the duration formatter.
use vstd::prelude::*;

verus! {

/// The character for one decimal digit value.
pub open spec fn dec_digit(d: nat) -> char {
    if d == 0 {
        '0'
    } else if d == 1 {
        '1'
    } else if d == 2 {
        '2'
    } else if d == 3 {
        '3'
    } else if d == 4 {
        '4'
    } else if d == 5 {
        '5'
    } else if d == 6 {
        '6'
    } else if d == 7 {
        '7'
    } else if d == 8 {
        '8'
    } else {
        '9'
    }
}

/// The decimal representation of `n`, most significant digit first, with no
/// leading zeros (a single `'0'` for zero).
pub open spec fn dec_rep(n: nat) -> Seq<char>
    decreases n,
{
    if n < 10 {
        seq![dec_digit(n)]
    } else {
        dec_rep(n / 10) + seq![dec_digit(n % 10)]
    }
}

/// `s` preceded by as many `'0'` characters as it takes to reach width `w`.
pub open spec fn zero_pad(s: Seq<char>, w: nat) -> Seq<char>
    decreases w,
{
    if s.len() >= w {
        s
    } else {
        seq!['0'] + zero_pad(s, (w - 1) as nat)
    }
}

/// How `v` renders with a zero-padded minimum width `w`: the sign, when
/// present, counts towards the width and stands before the padding.
pub open spec fn fmt_int_pad(v: int, w: nat) -> Seq<char> {
    if v >= 0 {
        zero_pad(dec_rep(v as nat), w)
    } else {
        seq!['-'] + zero_pad(dec_rep((-v) as nat), if w >= 1 {
            (w - 1) as nat
        } else {
            0
        })
    }
}

/// Whether `c` is an ASCII decimal digit.
pub open spec fn is_dec_digit(c: char) -> bool {
    c == '0' || c == '1' || c == '2' || c == '3' || c == '4' || c == '5' || c == '6' || c == '7'
        || c == '8' || c == '9'
}

/// The value of one ASCII decimal digit (zero for any other character).
pub open spec fn digit_val(c: char) -> nat {
    if c == '1' {
        1
    } else if c == '2' {
        2
    } else if c == '3' {
        3
    } else if c == '4' {
        4
    } else if c == '5' {
        5
    } else if c == '6' {
        6
    } else if c == '7' {
        7
    } else if c == '8' {
        8
    } else if c == '9' {
        9
    } else {
        0
    }
}

/// The number a digit sequence denotes, most significant digit first.
pub open spec fn digits_val(s: Seq<char>) -> nat
    decreases s.len(),
{
    if s.len() == 0 {
        0
    } else {
        digits_val(s.drop_last()) * 10 + digit_val(s.last())
    }
}

pub open spec fn all_digits(s: Seq<char>) -> bool {
    forall|i: int| 0 <= i < s.len() ==> is_dec_digit(#[trigger] s[i])
}

/// The digits of an unsigned decimal literal: everything after one optional
/// leading `'+'`.
pub open spec fn uint_body(s: Seq<char>) -> Seq<char> {
    if s.len() >= 1 && s[0] == '+' {
        s.drop_first()
    } else {
        s
    }
}

/// What parsing `s` as an unsigned decimal integer bounded by `max` yields:
/// an optional `'+'`, then at least one digit, all digits, value in range.
pub open spec fn parse_uint(s: Seq<char>, max: nat) -> Option<nat> {
    let b = uint_body(s);
    if b.len() >= 1 && all_digits(b) && digits_val(b) <= max {
        Some(digits_val(b))
    } else {
        None
    }
}

/// A digit prefix never denotes more than the whole digit sequence.
proof fn lemma_digits_val_take_le(s: Seq<char>, i: int)
    requires
        0 <= i <= s.len(),
    ensures
        digits_val(s.take(i)) <= digits_val(s),
    decreases s.len() - i,
{
    if i < s.len() {
        lemma_digits_val_take_le(s, i + 1);
        assert(s.take(i + 1).drop_last() =~= s.take(i));
        assert(digits_val(s.take(i + 1)) == digits_val(s.take(i)) * 10 + digit_val(
            s.take(i + 1).last(),
        ));
    } else {
        assert(s.take(i) =~= s);
    }
}

fn char_digit(c: char) -> (r: Option<u64>)
    ensures
        match r {
            Some(d) => is_dec_digit(c) && d == digit_val(c) && d < 10,
            None => !is_dec_digit(c),
        },
{
    match c {
        '0' => Some(0),
        '1' => Some(1),
        '2' => Some(2),
        '3' => Some(3),
        '4' => Some(4),
        '5' => Some(5),
        '6' => Some(6),
        '7' => Some(7),
        '8' => Some(8),
        '9' => Some(9),
        _ => None,
    }
}

fn parse_u64_max(s: &str, max: u64) -> (r: Option<u64>)
    ensures
        match r {
            Some(v) => parse_uint(s@, max as nat) == Some(v as nat),
            None => parse_uint(s@, max as nat) is None,
        },
{
    let n = s.unicode_len();
    let start: usize = if n >= 1 && s.get_char(0) == '+' {
        1
    } else {
        0
    };
    proof {
        assert(uint_body(s@) =~= s@.subrange(start as int, n as int));
    }
    if n == start {
        return None;
    }
    let mut acc: u64 = 0;
    let mut i: usize = start;
    while i < n
        invariant
            start <= i <= n,
            n == s@.len(),
            n > start,
            uint_body(s@) =~= s@.subrange(start as int, n as int),
            all_digits(s@.subrange(start as int, i as int)),
            acc == digits_val(s@.subrange(start as int, i as int)),
            acc <= max,
        decreases n - i,
    {
        let c = s.get_char(i);
        let ghost prefix = s@.subrange(start as int, i as int);
        let ghost prefix1 = s@.subrange(start as int, i + 1 as int);
        proof {
            assert(prefix1.drop_last() =~= prefix);
            assert(prefix1.last() == c);
            assert(uint_body(s@).take(i + 1 - start) =~= prefix1);
        }
        match char_digit(c) {
            None => {
                proof {
                    assert(uint_body(s@)[i - start] == c);
                    assert(!all_digits(uint_body(s@)));
                }
                return None;
            },
            Some(d) => {
                proof {
                    assert(digits_val(prefix1) == acc * 10 + digit_val(c));
                    lemma_digits_val_take_le(uint_body(s@), i + 1 - start);
                }
                if acc > max / 10 {
                    proof {
                        assert(max == (max / 10) * 10 + max % 10);
                        assert(acc * 10 >= (max / 10 + 1) * 10);
                        assert(digits_val(prefix1) > max);
                    }
                    return None;
                }
                proof {
                    assert(max == (max / 10) * 10 + max % 10);
                    assert(acc * 10 <= (max / 10) * 10);
                }
                let acc10 = acc * 10;
                if d > max - acc10 {
                    proof {
                        assert(digits_val(prefix1) > max);
                    }
                    return None;
                }
                acc = acc10 + d;
                i += 1;
            },
        }
    }
    proof {
        assert(s@.subrange(start as int, i as int) =~= uint_body(s@));
    }
    Some(acc)
}

/// Parse an unsigned decimal integer that fits in `usize`: an optional
/// leading `'+'`, then at least one digit; anything else, or a value out of
/// range, yields `None`.
pub fn parse_usize(s: &str) -> (r: Option<usize>)
    ensures
        match r {
            Some(v) => parse_uint(s@, usize::MAX as nat) == Some(v as nat),
            None => parse_uint(s@, usize::MAX as nat) is None,
        },
{
    match parse_u64_max(s, usize::MAX as u64) {
        Some(v) => Some(v as usize),
        None => None,
    }
}

/// Parse an unsigned decimal integer that fits in `u32`, as `parse_usize`.
pub fn parse_u32(s: &str) -> (r: Option<u32>)
    ensures
        match r {
            Some(v) => parse_uint(s@, u32::MAX as nat) == Some(v as nat),
            None => parse_uint(s@, u32::MAX as nat) is None,
        },
{
    match parse_u64_max(s, u32::MAX as u64) {
        Some(v) => Some(v as u32),
        None => None,
    }
}

fn digit_str(d: u64) -> (r: &'static str)
    requires
        d < 10,
    ensures
        r@ == seq![dec_digit(d as nat)],
{
    proof {
        reveal_strlit("0");
        reveal_strlit("1");
        reveal_strlit("2");
        reveal_strlit("3");
        reveal_strlit("4");
        reveal_strlit("5");
        reveal_strlit("6");
        reveal_strlit("7");
        reveal_strlit("8");
        reveal_strlit("9");
    }
    let r = match d {
        0 => "0",
        1 => "1",
        2 => "2",
        3 => "3",
        4 => "4",
        5 => "5",
        6 => "6",
        7 => "7",
        8 => "8",
        _ => "9",
    };
    proof {
        assert(r@ =~= seq![dec_digit(d as nat)]);
    }
    r
}

/// The decimal representation of `n` as a fresh string.
pub fn u64_to_string(n: u64) -> (r: String)
    ensures
        r@ == dec_rep(n as nat),
    decreases n,
{
    if n < 10 {
        String::from_str(digit_str(n))
    } else {
        let mut s = u64_to_string(n / 10);
        s.append(digit_str(n % 10));
        proof {
            assert(s@ =~= dec_rep(n as nat));
        }
        s
    }
}

/// Pad `s` on the left with `'0'` up to width `w`.
pub fn zero_pad_string(s: String, w: usize) -> (r: String)
    ensures
        r@ == zero_pad(s@, w as nat),
    decreases w,
{
    if s.unicode_len() >= w {
        s
    } else {
        proof {
            reveal_strlit("0");
        }
        let inner = zero_pad_string(s, w - 1);
        let mut t = String::from_str("0");
        t.append(inner.as_str());
        proof {
            assert(t@ =~= seq!['0'] + inner@);
        }
        t
    }
}

/// Render `n` in decimal, zero-padded on the left to width `w`.
pub fn u64_pad(n: u64, w: usize) -> (r: String)
    ensures
        r@ == zero_pad(dec_rep(n as nat), w as nat),
{
    zero_pad_string(u64_to_string(n), w)
}

/// Render `v` in decimal with zero-padded minimum width `w`.
pub fn i64_pad(v: i64, w: usize) -> (r: String)
    requires
        v != i64::MIN,
    ensures
        r@ == fmt_int_pad(v as int, w as nat),
{
    if v >= 0 {
        zero_pad_string(u64_to_string(v as u64), w)
    } else {
        let mag = u64_to_string((-v) as u64);
        let padded = zero_pad_string(mag, if w >= 1 {
            w - 1
        } else {
            0
        });
        proof {
            reveal_strlit("-");
        }
        let mut r = String::from_str("-");
        r.append(padded.as_str());
        proof {
            assert(r@ =~= fmt_int_pad(v as int, w as nat));
        }
        r
    }
}

} // verus!
