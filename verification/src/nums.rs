use vstd::prelude::*;

use crate::text::push_char;

verus! {

/// A decimal digit character.
pub open spec fn is_digit(c: char) -> bool {
    48 <= c as u32 <= 57
}

/// The numeric value of a digit character.
pub open spec fn digit_val(c: char) -> int {
    c as u32 - 48
}

/// Every character of `s` is a decimal digit.
pub open spec fn all_digits(s: Seq<char>) -> bool {
    forall|i: int| 0 <= i < s.len() ==> is_digit(#[trigger] s[i])
}

/// The value of a digit string, most significant digit first.
pub open spec fn digits_value(s: Seq<char>) -> int
    decreases s.len(),
{
    if s.len() == 0 {
        0
    } else {
        digits_value(s.drop_last()) * 10 + digit_val(s.last())
    }
}

pub proof fn lemma_digits_value_nonneg(s: Seq<char>)
    requires
        all_digits(s),
    ensures
        digits_value(s) >= 0,
    decreases s.len(),
{
    if s.len() > 0 {
        assert(all_digits(s.drop_last()));
        lemma_digits_value_nonneg(s.drop_last());
    }
}

/// The text accepted when parsing a signed integer: an optional sign
/// followed by one or more digits.
pub open spec fn is_int_literal(s: Seq<char>) -> bool {
    if s.len() == 0 {
        false
    } else if s[0] == '+' || s[0] == '-' {
        s.len() >= 2 && all_digits(s.subrange(1, s.len() as int))
    } else {
        all_digits(s)
    }
}

/// The value denoted by an integer literal.
pub open spec fn int_literal_value(s: Seq<char>) -> int {
    if s.len() > 0 && s[0] == '-' {
        -digits_value(s.subrange(1, s.len() as int))
    } else if s.len() > 0 && s[0] == '+' {
        digits_value(s.subrange(1, s.len() as int))
    } else {
        digits_value(s)
    }
}

/// The text accepted when parsing an unsigned integer: an optional
/// plus sign followed by one or more digits.
pub open spec fn is_uint_literal(s: Seq<char>) -> bool {
    if s.len() == 0 {
        false
    } else if s[0] == '+' {
        s.len() >= 2 && all_digits(s.subrange(1, s.len() as int))
    } else {
        all_digits(s)
    }
}

/// The value denoted by an unsigned integer literal.
pub open spec fn uint_literal_value(s: Seq<char>) -> int {
    if s.len() > 0 && s[0] == '+' {
        digits_value(s.subrange(1, s.len() as int))
    } else {
        digits_value(s)
    }
}

/// A digit-string value clipped at 2^32, which is above every bound a
/// parsed value is later compared against.
pub open spec fn clipped(v: int) -> int {
    if v < 0x1_0000_0000 {
        v
    } else {
        0x1_0000_0000
    }
}

/// Scans the digits of `s` from `start` to the end and accumulates
/// their value, clipped at 2^32.  `None` when the range is empty or
/// holds a non-digit.
fn scan_digits(s: &str, start: usize) -> (r: Option<u64>)
    requires
        start <= s@.len(),
    ensures
        match r {
            Some(acc) => {
                &&& start < s@.len()
                &&& all_digits(s@.subrange(start as int, s@.len() as int))
                &&& acc == clipped(digits_value(s@.subrange(start as int, s@.len() as int)))
            },
            None => start == s@.len() || !all_digits(s@.subrange(start as int, s@.len() as int)),
        },
{
    let n = s.unicode_len();
    if start == n {
        return None;
    }
    let mut i: usize = start;
    let mut acc: u64 = 0;
    while i < n
        invariant
            n == s@.len(),
            start <= i <= n,
            all_digits(s@.subrange(start as int, i as int)),
            acc == clipped(digits_value(s@.subrange(start as int, i as int))),
            acc <= 0x1_0000_0000,
        decreases n - i,
    {
        let c = s.get_char(i);
        let u = c as u32;
        if u < 48 || u > 57 {
            proof {
                assert(s@.subrange(start as int, n as int)[i - start] == s@[i as int]);
                assert(!all_digits(s@.subrange(start as int, n as int)));
            }
            return None;
        }
        let d = (u - 48) as u64;
        proof {
            let pre = s@.subrange(start as int, i as int);
            let ext = s@.subrange(start as int, i + 1);
            assert(ext.drop_last() =~= pre);
            assert(ext.last() == s@[i as int]);
            lemma_digits_value_nonneg(pre);
        }
        if acc >= 0x1_0000_0000 {
            acc = 0x1_0000_0000;
        } else {
            acc = acc * 10 + d;
            if acc > 0x1_0000_0000 {
                acc = 0x1_0000_0000;
            }
        }
        proof {
            let ext = s@.subrange(start as int, i + 1);
            assert(all_digits(ext)) by {
                assert(forall|k: int| 0 <= k < ext.len() ==> ext[k] == s@[start + k]);
            }
        }
        i = i + 1;
    }
    proof {
        assert(s@.subrange(start as int, i as int) =~= s@.subrange(start as int, n as int));
    }
    Some(acc)
}

/// Parses a signed 32-bit integer: `Some` exactly when the text is an
/// integer literal whose value fits in `i32`.
pub fn parse_i32(s: &str) -> (r: Option<i32>)
    ensures
        match r {
            Some(n) => {
                &&& is_int_literal(s@)
                &&& -0x8000_0000 <= int_literal_value(s@) <= 0x7fff_ffff
                &&& n == int_literal_value(s@)
            },
            None => !(is_int_literal(s@) && -0x8000_0000 <= int_literal_value(s@)
                <= 0x7fff_ffff),
        },
{
    let n = s.unicode_len();
    if n == 0 {
        return None;
    }
    let c0 = s.get_char(0);
    let neg = c0 == '-';
    let start: usize = if c0 == '-' || c0 == '+' {
        1
    } else {
        0
    };
    let scanned = scan_digits(s, start);
    match scanned {
        None => {
            proof {
                if start == 0 {
                    assert(s@.subrange(0, s@.len() as int) =~= s@);
                }
            }
            None
        },
        Some(acc) => {
            proof {
                if start == 0 {
                    assert(s@.subrange(0, s@.len() as int) =~= s@);
                }
                lemma_digits_value_nonneg(s@.subrange(start as int, s@.len() as int));
            }
            if neg {
                if acc <= 0x8000_0000 {
                    let v: i64 = -(acc as i64);
                    Some(v as i32)
                } else {
                    None
                }
            } else {
                if acc <= 0x7fff_ffff {
                    Some(acc as u32 as i32)
                } else {
                    None
                }
            }
        },
    }
}

/// Parses an unsigned 16-bit integer: `Some` exactly when the text is
/// an unsigned literal whose value fits in `u16`.
pub fn parse_u16(s: &str) -> (r: Option<u16>)
    ensures
        match r {
            Some(n) => {
                &&& is_uint_literal(s@)
                &&& uint_literal_value(s@) <= 0xffff
                &&& n == uint_literal_value(s@)
            },
            None => !(is_uint_literal(s@) && uint_literal_value(s@) <= 0xffff),
        },
{
    let n = s.unicode_len();
    if n == 0 {
        return None;
    }
    let c0 = s.get_char(0);
    let start: usize = if c0 == '+' {
        1
    } else {
        0
    };
    let scanned = scan_digits(s, start);
    match scanned {
        None => {
            proof {
                if start == 0 {
                    assert(s@.subrange(0, s@.len() as int) =~= s@);
                }
            }
            None
        },
        Some(acc) => {
            proof {
                if start == 0 {
                    assert(s@.subrange(0, s@.len() as int) =~= s@);
                }
                lemma_digits_value_nonneg(s@.subrange(start as int, s@.len() as int));
            }
            if acc <= 0xffff {
                Some(acc as u16)
            } else {
                None
            }
        },
    }
}

/// A well-formed decimal text whose value fits in a signed 32-bit
/// integer.
pub open spec fn valid_i32(s: Seq<char>) -> bool {
    &&& is_int_literal(s)
    &&& -0x8000_0000 <= int_literal_value(s) <= 0x7fff_ffff
}

/// The decimal digits of a non-negative number.
pub open spec fn dec_digits(n: int) -> Seq<char>
    decreases n,
{
    if n < 10 {
        seq![digit_char_of(n)]
    } else {
        dec_digits(n / 10).push(digit_char_of(n % 10))
    }
}

/// The digit character for a value between 0 and 9.
pub open spec fn digit_char_of(d: int) -> char {
    if d == 0 {
        '0'
    } else if d == 1 {
        '1'
    } else if d == 2 {
        '2'
    } else if d == 3 {
        '3'
    } else if d == 4 {
        '4'
    } else if d == 5 {
        '5'
    } else if d == 6 {
        '6'
    } else if d == 7 {
        '7'
    } else if d == 8 {
        '8'
    } else {
        '9'
    }
}

/// The decimal rendering of an integer, with a leading minus sign when
/// it is negative.
pub open spec fn int_digits(n: int) -> Seq<char> {
    if n < 0 {
        seq!['-'] + dec_digits(-n)
    } else {
        dec_digits(n)
    }
}

fn digit_char(d: u32) -> (c: char)
    requires
        d < 10,
    ensures
        c == digit_char_of(d as int),
{
    match d {
        0 => '0',
        1 => '1',
        2 => '2',
        3 => '3',
        4 => '4',
        5 => '5',
        6 => '6',
        7 => '7',
        8 => '8',
        _ => '9',
    }
}

/// Appends the decimal digits of `n` to `out`.
fn push_decimal(out: &mut String, n: u32)
    ensures
        final(out)@ == old(out)@ + dec_digits(n as int),
    decreases n,
{
    if n >= 10 {
        push_decimal(out, n / 10);
    }
    push_char(out, digit_char(n % 10));
    proof {
        if n >= 10 {
            assert(old(out)@ + dec_digits(n as int) =~= (old(out)@ + dec_digits(n as int / 10)).push(
                digit_char_of(n as int % 10)));
        } else {
            assert(old(out)@ + dec_digits(n as int) =~= old(out)@.push(digit_char_of(n as int)));
        }
    }
}

/// The decimal rendering of a signed 32-bit integer.
pub fn i32_to_string(n: i32) -> (r: String)
    ensures
        r@ == int_digits(n as int),
{
    let mut out = String::new();
    if n < 0 {
        push_char(&mut out, '-');
        let m: u32 = (-(n as i64)) as u32;
        push_decimal(&mut out, m);
        proof {
            assert(out@ =~= int_digits(n as int));
        }
    } else {
        push_decimal(&mut out, n as u32);
        proof {
            assert(out@ =~= int_digits(n as int));
        }
    }
    out
}

} // verus!
