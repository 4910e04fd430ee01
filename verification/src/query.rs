use vstd::prelude::*;

use crate::text::find_char;
use crate::text::push_char;
use crate::text::first_at;
use crate::text::lemma_first_at_bounds;

verus! {

/// The value of a hexadecimal digit character, when it is one.
pub open spec fn hex_val(c: char) -> Option<int> {
    if 48 <= c as u32 <= 57 {
        Some(c as u32 - 48)
    } else if 65 <= c as u32 <= 70 {
        Some(c as u32 - 55)
    } else if 97 <= c as u32 <= 102 {
        Some(c as u32 - 87)
    } else {
        None
    }
}

/// A percent escape for an ASCII character stands at `i`: a percent
/// sign and two hexadecimal digits whose value is below 128.
pub open spec fn pct_escape_at(s: Seq<char>, i: int) -> bool {
    &&& 0 <= i
    &&& i + 3 <= s.len()
    &&& s[i] == '%'
    &&& hex_val(s[i + 1]) is Some
    &&& hex_val(s[i + 2]) is Some
    &&& hex_val(s[i + 1])->0 * 16 + hex_val(s[i + 2])->0 < 128
}

/// The character a percent escape stands for.
pub open spec fn pct_escape_char(s: Seq<char>, i: int) -> char {
    ((hex_val(s[i + 1])->0 * 16 + hex_val(s[i + 2])->0) as u32) as char
}

/// A form-urlencoded component decoded, from `i` on: `+` stands for a
/// space and a percent escape for its ASCII character; everything
/// else, a malformed or non-ASCII escape included, stands for itself.
pub open spec fn pct_decode(s: Seq<char>, i: int) -> Seq<char>
    decreases s.len() - i,
{
    if i < 0 || i >= s.len() {
        Seq::empty()
    } else if s[i] == '+' {
        seq![' '] + pct_decode(s, i + 1)
    } else if pct_escape_at(s, i) {
        seq![pct_escape_char(s, i)] + pct_decode(s, i + 3)
    } else {
        seq![s[i]] + pct_decode(s, i + 1)
    }
}

/// A segment split at its first `=` into key and value, each decoded;
/// a segment without `=` is a key with an empty value.
pub open spec fn split_pair(seg: Seq<char>) -> (Seq<char>, Seq<char>) {
    let e = first_at(seg, 0, '=');
    if e == seg.len() {
        (pct_decode(seg, 0), Seq::empty())
    } else {
        (
            pct_decode(seg.subrange(0, e), 0),
            pct_decode(seg.subrange(e + 1, seg.len() as int), 0),
        )
    }
}

fn hex_digit(c: char) -> (r: Option<u32>)
    ensures
        match r {
            Some(v) => hex_val(c) == Some(v as int) && v < 16,
            None => hex_val(c) is None,
        },
{
    let u = c as u32;
    if 48 <= u && u <= 57 {
        Some(u - 48)
    } else if 65 <= u && u <= 70 {
        Some(u - 55)
    } else if 97 <= u && u <= 102 {
        Some(u - 87)
    } else {
        None
    }
}

/// Decodes the component `s[from..to]`.
fn decode_component(s: &str, from: usize, to: usize) -> (r: String)
    requires
        from <= to <= s@.len(),
    ensures
        r@ == pct_decode(s@.subrange(from as int, to as int), 0),
{
    let ghost seg = s@.subrange(from as int, to as int);
    let mut out = String::new();
    let mut cur = from;
    proof {
        assert(out@ + pct_decode(seg, 0) =~= pct_decode(seg, 0));
    }
    while cur < to
        invariant
            from <= cur <= to <= s@.len(),
            seg == s@.subrange(from as int, to as int),
            pct_decode(seg, 0) == out@ + pct_decode(seg, cur - from),
        decreases to - cur,
    {
        let ghost out0 = out@;
        let ghost k = cur - from;
        proof {
            assert(seg[k] == s@[cur as int]);
        }
        let c = s.get_char(cur);
        if c == '+' {
            push_char(&mut out, ' ');
            proof {
                assert(pct_decode(seg, k) =~= seq![' '] + pct_decode(seg, k + 1));
                assert(out0 + pct_decode(seg, k) =~= out@ + pct_decode(seg, k + 1));
            }
            cur = cur + 1;
        } else {
            let mut escaped = false;
            if c == '%' && to - cur > 2 {
                proof {
                    assert(seg[k + 1] == s@[cur + 1]);
                    assert(seg[k + 2] == s@[cur + 2]);
                }
                match (hex_digit(s.get_char(cur + 1)), hex_digit(s.get_char(cur + 2))) {
                    (Some(hi), Some(lo)) => {
                        let v = hi * 16 + lo;
                        if v < 128 {
                            proof {
                                assert(pct_escape_at(seg, k));
                            }
                            push_char(&mut out, (v as u8) as char);
                            proof {
                                assert((v as u8) as char == pct_escape_char(seg, k));
                                assert(pct_decode(seg, k) =~= seq![pct_escape_char(seg, k)]
                                    + pct_decode(seg, k + 3));
                                assert(out0 + pct_decode(seg, k) =~= out@ + pct_decode(
                                    seg,
                                    k + 3,
                                ));
                            }
                            cur = cur + 3;
                            escaped = true;
                        }
                    },
                    _ => {},
                }
            }
            if !escaped {
                proof {
                    assert(!pct_escape_at(seg, k));
                }
                push_char(&mut out, c);
                proof {
                    assert(pct_decode(seg, k) =~= seq![seg[k]] + pct_decode(seg, k + 1));
                    assert(out0 + pct_decode(seg, k) =~= out@ + pct_decode(seg, k + 1));
                }
                cur = cur + 1;
            }
        }
    }
    proof {
        assert(pct_decode(seg, to - from) =~= Seq::<char>::empty());
        assert(out@ =~= out@ + pct_decode(seg, cur - from));
    }
    out
}

/// The key/value pairs of a query string from `i` on: segments are
/// separated by `&` and empty segments are skipped.
pub open spec fn query_pairs_at(s: Seq<char>, i: int) -> Seq<(Seq<char>, Seq<char>)>
    decreases s.len() - i,
{
    if i < 0 || i >= s.len() {
        Seq::empty()
    } else {
        let a = first_at(s, i, '&');
        let seg = s.subrange(i, a);
        let rest = if i <= a < s.len() {
            query_pairs_at(s, a + 1)
        } else {
            Seq::empty()
        };
        if seg.len() == 0 {
            rest
        } else {
            seq![split_pair(seg)] + rest
        }
    }
}

/// The key/value pairs of a whole query string.
pub open spec fn query_pairs(s: Seq<char>) -> Seq<(Seq<char>, Seq<char>)> {
    query_pairs_at(s, 0)
}

/// The views of parsed pairs.
pub open spec fn pairs_view(ps: Seq<(String, String)>) -> Seq<(Seq<char>, Seq<char>)> {
    ps.map_values(|p: (String, String)| (p.0@, p.1@))
}

/// Splits the segment `s[i..a]` at its first `=`.
fn split_segment(s: &str, i: usize, a: usize) -> (r: (String, String))
    requires
        i <= a <= s@.len(),
    ensures
        (r.0@, r.1@) == split_pair(s@.subrange(i as int, a as int)),
{
    let ghost seg = s@.subrange(i as int, a as int);
    let mut j = i;
    while j < a
        invariant
            i <= j <= a <= s@.len(),
            seg == s@.subrange(i as int, a as int),
            forall|k: int| 0 <= k < j - i ==> seg[k] != '=',
        decreases a - j,
    {
        if s.get_char(j) == '=' {
            proof {
                assert(seg[j - i] == '=');
                lemma_first_at_bounds(seg, 0, '=');
                assert(first_at(seg, 0, '=') == j - i);
            }
            let key = decode_component(s, i, j);
            let value = decode_component(s, j + 1, a);
            proof {
                assert(s@.subrange(i as int, j as int) =~= seg.subrange(0, j - i));
                assert(s@.subrange(j + 1, a as int) =~= seg.subrange(j - i + 1, seg.len() as int));
            }
            return (key, value);
        }
        proof {
            assert(seg[j - i] == s@[j as int]);
        }
        j = j + 1;
    }
    proof {
        lemma_first_at_bounds(seg, 0, '=');
        assert(first_at(seg, 0, '=') == seg.len());
    }
    let key = decode_component(s, i, a);
    let value = String::new();
    proof {
        assert(value@ =~= Seq::<char>::empty());
    }
    (key, value)
}

/// Parses a query string into its key/value pairs, in order.
pub fn parse_query(s: &str) -> (r: Vec<(String, String)>)
    ensures
        pairs_view(r@) == query_pairs(s@),
{
    let n = s.unicode_len();
    let mut out: Vec<(String, String)> = Vec::new();
    let mut i: usize = 0;
    proof {
        assert(pairs_view(out@) + query_pairs_at(s@, 0) =~= query_pairs(s@));
    }
    while i < n
        invariant
            n == s@.len(),
            i <= n,
            pairs_view(out@) + query_pairs_at(s@, i as int) == query_pairs(s@),
        decreases n - i,
    {
        let a = find_char(s, i, '&');
        let ghost out0 = pairs_view(out@);
        if a > i {
            let pair = split_segment(s, i, a);
            out.push(pair);
            proof {
                assert(pairs_view(out@) =~= out0 + seq![(pair.0@, pair.1@)]);
                assert(s@.subrange(i as int, a as int).len() > 0);
            }
        } else {
            proof {
                assert(s@.subrange(i as int, a as int).len() == 0);
            }
        }
        proof {
            let rest = if a < n {
                query_pairs_at(s@, a + 1)
            } else {
                Seq::<(Seq<char>, Seq<char>)>::empty()
            };
            assert(query_pairs_at(s@, i as int) == (if a > i {
                seq![split_pair(s@.subrange(i as int, a as int))] + rest
            } else {
                rest
            }));
            assert(pairs_view(out@) + rest =~= query_pairs(s@));
        }
        if a == n {
            proof {
                assert(pairs_view(out@) =~= pairs_view(out@) + Seq::<(
                    Seq<char>,
                    Seq<char>,
                )>::empty());
            }
            return out;
        }
        i = a + 1;
    }
    proof {
        assert(query_pairs_at(s@, n as int) =~= Seq::<(Seq<char>, Seq<char>)>::empty());
        assert(pairs_view(out@) =~= pairs_view(out@) + query_pairs_at(s@, i as int));
    }
    out
}

} // verus!
