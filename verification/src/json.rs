use vstd::prelude::*;

use crate::nums::int_digits;
use crate::nums::i32_to_string;
use crate::record::Record;
use crate::record::RecordView;
use crate::text::push_char;

verus! {

/// How one character is written inside a JSON string: quotes,
/// backslashes and the common control characters are escaped, every
/// other character stands for itself.
pub open spec fn esc_char(c: char) -> Seq<char> {
    if c == '"' {
        seq!['\\', '"']
    } else if c == '\\' {
        seq!['\\', '\\']
    } else if c == '\n' {
        seq!['\\', 'n']
    } else if c == '\r' {
        seq!['\\', 'r']
    } else if c == '\t' {
        seq!['\\', 't']
    } else {
        seq![c]
    }
}

/// The escaped form of a whole string.
pub open spec fn esc_string(s: Seq<char>) -> Seq<char>
    decreases s.len(),
{
    if s.len() == 0 {
        Seq::empty()
    } else {
        esc_string(s.drop_last()) + esc_char(s.last())
    }
}

/// A JSON string token: the escaped text between double quotes.
pub open spec fn json_string(s: Seq<char>) -> Seq<char> {
    seq!['"'] + esc_string(s) + seq!['"']
}

/// The JSON encoding of one record: an object with the fields `id`
/// (a number, or `null` before an id is assigned), `name` and `phone`.
pub open spec fn json_record(r: RecordView) -> Seq<char> {
    "{\"id\":"@ + (match r.id {
        Some(i) => int_digits(i),
        None => "null"@,
    }) + ",\"name\":"@ + json_string(r.name) + ",\"phone\":"@ + json_string(r.phone) + "}"@
}

/// The comma-separated encodings of a sequence of records.
pub open spec fn json_records_inner(rs: Seq<RecordView>) -> Seq<char>
    decreases rs.len(),
{
    if rs.len() == 0 {
        Seq::empty()
    } else if rs.len() == 1 {
        json_record(rs[0])
    } else {
        json_records_inner(rs.drop_last()) + seq![','] + json_record(rs.last())
    }
}

/// The JSON encoding of a sequence of records: an array of objects.
pub open spec fn json_records(rs: Seq<RecordView>) -> Seq<char> {
    seq!['['] + json_records_inner(rs) + seq![']']
}

/// Appends the escaped form of `s` to `out`.
fn push_escaped(out: &mut String, s: &str)
    ensures
        final(out)@ == old(out)@ + esc_string(s@),
{
    let n = s.unicode_len();
    let mut i: usize = 0;
    proof {
        assert(out@ =~= old(out)@ + esc_string(s@.subrange(0, 0)));
    }
    while i < n
        invariant
            n == s@.len(),
            i <= n,
            out@ == old(out)@ + esc_string(s@.subrange(0, i as int)),
        decreases n - i,
    {
        let c = s.get_char(i);
        if c == '"' {
            push_char(out, '\\');
            push_char(out, '"');
        } else if c == '\\' {
            push_char(out, '\\');
            push_char(out, '\\');
        } else if c == '\n' {
            push_char(out, '\\');
            push_char(out, 'n');
        } else if c == '\r' {
            push_char(out, '\\');
            push_char(out, 'r');
        } else if c == '\t' {
            push_char(out, '\\');
            push_char(out, 't');
        } else {
            push_char(out, c);
        }
        proof {
            let ext = s@.subrange(0, i + 1);
            assert(ext.drop_last() =~= s@.subrange(0, i as int));
            assert(ext.last() == s@[i as int]);
            assert(out@ =~= old(out)@ + esc_string(ext));
        }
        i = i + 1;
    }
    proof {
        assert(s@.subrange(0, n as int) =~= s@);
    }
}

/// Appends the JSON string token for `s` to `out`.
fn push_json_string(out: &mut String, s: &str)
    ensures
        final(out)@ == old(out)@ + json_string(s@),
{
    push_char(out, '"');
    push_escaped(out, s);
    push_char(out, '"');
    proof {
        assert(out@ =~= old(out)@ + json_string(s@));
    }
}

/// Appends the JSON encoding of one record to `out`.
fn push_record(out: &mut String, r: &Record)
    ensures
        final(out)@ == old(out)@ + json_record(r@),
{
    out.append("{\"id\":");
    match r.id {
        Some(i) => {
            let digits = i32_to_string(i);
            out.append(digits.as_str());
        },
        None => {
            out.append("null");
        },
    }
    out.append(",\"name\":");
    push_json_string(out, self_name(r));
    out.append(",\"phone\":");
    push_json_string(out, self_phone(r));
    out.append("}");
    proof {
        assert(out@ =~= old(out)@ + json_record(r@));
    }
}

/// The name field as a slice.
fn self_name(r: &Record) -> (s: &str)
    ensures
        s@ == r@.name,
{
    r.name.as_str()
}

/// The phone field as a slice.
fn self_phone(r: &Record) -> (s: &str)
    ensures
        s@ == r@.phone,
{
    r.phone.as_str()
}

/// The JSON encoding of one record.
pub fn encode_record(r: &Record) -> (out: String)
    ensures
        out@ == json_record(r@),
{
    let mut out = String::new();
    push_record(&mut out, r);
    proof {
        assert(out@ =~= json_record(r@));
    }
    out
}

/// The JSON encoding of a sequence of records, in order.
pub fn encode_records(rs: &Vec<Record>) -> (out: String)
    ensures
        out@ == json_records(crate::store::views_of(rs@)),
{
    let ghost views = crate::store::views_of(rs@);
    let mut out = String::new();
    push_char(&mut out, '[');
    let n = rs.len();
    let mut i: usize = 0;
    proof {
        assert(out@ =~= seq!['['] + json_records_inner(views.subrange(0, 0)));
    }
    while i < n
        invariant
            n == rs@.len(),
            i <= n,
            views == crate::store::views_of(rs@),
            out@ == seq!['['] + json_records_inner(views.subrange(0, i as int)),
        decreases n - i,
    {
        if i > 0 {
            push_char(&mut out, ',');
        }
        push_record(&mut out, &rs[i]);
        proof {
            let ext = views.subrange(0, i + 1);
            assert(ext.drop_last() =~= views.subrange(0, i as int));
            assert(ext.last() == views[i as int]);
            assert(views[i as int] == rs@[i as int]@);
            assert(out@ =~= seq!['['] + json_records_inner(ext));
        }
        i = i + 1;
    }
    push_char(&mut out, ']');
    proof {
        assert(views.subrange(0, n as int) =~= views);
        assert(out@ =~= json_records(views));
    }
    out
}

// What follows is the parsing half of the wire format: the grammar of
// a record request body, written as spec-level recursive descent, and
// executable parsers proved to return exactly what the grammar says.

/// JSON whitespace.
pub open spec fn is_ws(c: char) -> bool {
    c == ' ' || c == '\t' || c == '\n' || c == '\r'
}

/// The first index at or after `i` holding a non-whitespace character,
/// or the length of `s` when only whitespace follows.
pub open spec fn skip_ws(s: Seq<char>, i: int) -> int
    decreases s.len() - i,
{
    if i < 0 || i >= s.len() {
        s.len() as int
    } else if is_ws(s[i]) {
        skip_ws(s, i + 1)
    } else {
        i
    }
}

fn skip_ws_exec(s: &str, i: usize) -> (r: usize)
    requires
        i <= s@.len(),
    ensures
        r == skip_ws(s@, i as int),
        i <= r <= s@.len(),
{
    let n = s.unicode_len();
    let mut cur = i;
    while cur < n
        invariant
            n == s@.len(),
            i <= cur <= n,
            skip_ws(s@, i as int) == skip_ws(s@, cur as int),
        decreases n - cur,
    {
        let c = s.get_char(cur);
        if !(c == ' ' || c == '\t' || c == '\n' || c == '\r') {
            return cur;
        }
        cur = cur + 1;
    }
    cur
}

/// The character an escape sequence stands for, when the character
/// after the backslash is one this format accepts.
pub open spec fn unescape(c: char) -> Option<char> {
    if c == '"' {
        Some('"')
    } else if c == '\\' {
        Some('\\')
    } else if c == '/' {
        Some('/')
    } else if c == 'n' {
        Some('\n')
    } else if c == 'r' {
        Some('\r')
    } else if c == 't' {
        Some('\t')
    } else {
        None
    }
}

fn unescape_exec(c: char) -> (r: Option<char>)
    ensures
        r == unescape(c),
{
    if c == '"' {
        Some('"')
    } else if c == '\\' {
        Some('\\')
    } else if c == '/' {
        Some('/')
    } else if c == 'n' {
        Some('\n')
    } else if c == 'r' {
        Some('\r')
    } else if c == 't' {
        Some('\t')
    } else {
        None
    }
}

/// The characters of a string token read from just after the opening
/// quote, and the index just after the closing quote.
pub open spec fn parse_string_body(s: Seq<char>, i: int) -> Option<(Seq<char>, int)>
    decreases s.len() - i,
{
    if i < 0 || i >= s.len() {
        None
    } else if s[i] == '"' {
        Some((Seq::empty(), i + 1))
    } else if s[i] == '\\' {
        if i + 1 >= s.len() {
            None
        } else {
            match unescape(s[i + 1]) {
                Some(c) => match parse_string_body(s, i + 2) {
                    Some(p) => Some((seq![c] + p.0, p.1)),
                    None => None,
                },
                None => None,
            }
        }
    } else {
        match parse_string_body(s, i + 1) {
            Some(p) => Some((seq![s[i]] + p.0, p.1)),
            None => None,
        }
    }
}

fn parse_string_body_exec(s: &str, i: usize) -> (r: Option<(String, usize)>)
    requires
        i <= s@.len(),
    ensures
        match r {
            Some(p) => {
                &&& parse_string_body(s@, i as int) == Some((p.0@, p.1 as int))
                &&& i < p.1 <= s@.len()
            },
            None => parse_string_body(s@, i as int) is None,
        },
{
    let n = s.unicode_len();
    let mut cur = i;
    let mut out = String::new();
    loop
        invariant
            n == s@.len(),
            i <= cur <= n,
            match parse_string_body(s@, cur as int) {
                Some(p) => parse_string_body(s@, i as int) == Some((out@ + p.0, p.1)),
                None => parse_string_body(s@, i as int) is None,
            },
        decreases n - cur,
    {
        if cur == n {
            return None;
        }
        let c = s.get_char(cur);
        if c == '"' {
            proof {
                assert(parse_string_body(s@, cur as int) == Some(
                    (Seq::<char>::empty(), cur + 1),
                ));
                assert(out@ + Seq::<char>::empty() =~= out@);
            }
            return Some((out, cur + 1));
        }
        if c == '\\' {
            if cur + 1 == n {
                return None;
            }
            let c2 = s.get_char(cur + 1);
            match unescape_exec(c2) {
                None => {
                    return None;
                },
                Some(u) => {
                    let ghost out0 = out@;
                    push_char(&mut out, u);
                    proof {
                        match parse_string_body(s@, cur + 2) {
                            Some(p2) => {
                                assert(parse_string_body(s@, cur as int) == Some(
                                    (seq![u] + p2.0, p2.1),
                                ));
                                assert(out0 + (seq![u] + p2.0) =~= out@ + p2.0);
                            },
                            None => {},
                        }
                    }
                    cur = cur + 2;
                },
            }
        } else {
            let ghost out0 = out@;
            push_char(&mut out, c);
            proof {
                match parse_string_body(s@, cur + 1) {
                    Some(p2) => {
                        assert(parse_string_body(s@, cur as int) == Some(
                            (seq![s@[cur as int]] + p2.0, p2.1),
                        ));
                        assert(out0 + (seq![s@[cur as int]] + p2.0) =~= out@ + p2.0);
                    },
                    None => {},
                }
            }
            cur = cur + 1;
        }
    }
}

/// A whole string token: an opening quote at `i`, the body, and the
/// closing quote.
pub open spec fn parse_jstring(s: Seq<char>, i: int) -> Option<(Seq<char>, int)> {
    if 0 <= i < s.len() && s[i] == '"' {
        parse_string_body(s, i + 1)
    } else {
        None
    }
}

fn parse_jstring_exec(s: &str, i: usize) -> (r: Option<(String, usize)>)
    requires
        i <= s@.len(),
    ensures
        match r {
            Some(p) => {
                &&& parse_jstring(s@, i as int) == Some((p.0@, p.1 as int))
                &&& i < p.1 <= s@.len()
            },
            None => parse_jstring(s@, i as int) is None,
        },
{
    let n = s.unicode_len();
    if i == n {
        return None;
    }
    if s.get_char(i) != '"' {
        return None;
    }
    parse_string_body_exec(s, i + 1)
}

/// The first index at or after `i` that does not hold a digit.
pub open spec fn digits_end(s: Seq<char>, i: int) -> int
    decreases s.len() - i,
{
    if i < 0 || i >= s.len() {
        i
    } else if crate::nums::is_digit(s[i]) {
        digits_end(s, i + 1)
    } else {
        i
    }
}

fn digits_end_exec(s: &str, i: usize) -> (r: usize)
    requires
        i <= s@.len(),
    ensures
        r == digits_end(s@, i as int),
        i <= r <= s@.len(),
{
    let n = s.unicode_len();
    let mut cur = i;
    while cur < n
        invariant
            n == s@.len(),
            i <= cur <= n,
            digits_end(s@, i as int) == digits_end(s@, cur as int),
        decreases n - cur,
    {
        let u = s.get_char(cur) as u32;
        if u < 48 || u > 57 {
            return cur;
        }
        cur = cur + 1;
    }
    cur
}

/// One integer token: an optional minus sign and at least one digit;
/// the result is the index just after the digits.
pub open spec fn parse_int_tok(s: Seq<char>, i: int) -> Option<int> {
    let d0 = if 0 <= i < s.len() && s[i] == '-' {
        i + 1
    } else {
        i
    };
    let e = digits_end(s, d0);
    if e > d0 {
        Some(e)
    } else {
        None
    }
}

/// The keyword `null` stands at `i`.
pub open spec fn is_null_at(s: Seq<char>, i: int) -> bool {
    &&& i >= 0
    &&& i + 4 <= s.len()
    &&& s[i] == 'n'
    &&& s[i + 1] == 'u'
    &&& s[i + 2] == 'l'
    &&& s[i + 3] == 'l'
}

/// The value of one member: a string, `null`, or an integer (whose
/// numeric value no caller needs).
pub enum JsonVal {
    Str(String),
    Null,
    Num,
}

/// The mathematical value of a [`JsonVal`].
pub ghost enum JsonValV {
    Str(Seq<char>),
    Null,
    Num,
}

impl View for JsonVal {
    type V = JsonValV;

    open spec fn view(&self) -> JsonValV {
        match self {
            JsonVal::Str(t) => JsonValV::Str(t@),
            JsonVal::Null => JsonValV::Null,
            JsonVal::Num => JsonValV::Num,
        }
    }
}

/// A scalar member value at `i`: a string, `null`, or an integer.
pub open spec fn parse_value(s: Seq<char>, i: int) -> Option<(JsonValV, int)> {
    match parse_jstring(s, i) {
        Some(p) => Some((JsonValV::Str(p.0), p.1)),
        None => if is_null_at(s, i) {
            Some((JsonValV::Null, i + 4))
        } else {
            match parse_int_tok(s, i) {
                Some(e) => Some((JsonValV::Num, e)),
                None => None,
            }
        },
    }
}

fn parse_value_exec(s: &str, i: usize) -> (r: Option<(JsonVal, usize)>)
    requires
        i <= s@.len(),
    ensures
        match r {
            Some(p) => {
                &&& parse_value(s@, i as int) == Some((p.0@, p.1 as int))
                &&& i < p.1 <= s@.len()
            },
            None => parse_value(s@, i as int) is None,
        },
{
    let n = s.unicode_len();
    match parse_jstring_exec(s, i) {
        Some(p) => {
            return Some((JsonVal::Str(p.0), p.1));
        },
        None => {},
    }
    if n >= 4 && i <= n - 4 && s.get_char(i) == 'n' && s.get_char(i + 1) == 'u' && s.get_char(
        i + 2,
    ) == 'l' && s.get_char(i + 3) == 'l' {
        return Some((JsonVal::Null, i + 4));
    }
    proof {
        assert(!is_null_at(s@, i as int));
    }
    let d0 = if i < n && s.get_char(i) == '-' {
        i + 1
    } else {
        i
    };
    let e = digits_end_exec(s, d0);
    if e > d0 {
        Some((JsonVal::Num, e))
    } else {
        None
    }
}

/// One `"key": value` member starting at the key's opening quote; the
/// result is the key, the value, and the index just after the value.
pub open spec fn parse_member(s: Seq<char>, i: int) -> Option<(Seq<char>, JsonValV, int)> {
    match parse_jstring(s, i) {
        Some(k) => {
            let c = skip_ws(s, k.1);
            if c < s.len() && s[c] == ':' {
                match parse_value(s, skip_ws(s, c + 1)) {
                    Some(p) => Some((k.0, p.0, p.1)),
                    None => None,
                }
            } else {
                None
            }
        },
        None => None,
    }
}

fn parse_member_exec(s: &str, i: usize) -> (r: Option<(String, JsonVal, usize)>)
    requires
        i <= s@.len(),
    ensures
        match r {
            Some(p) => {
                &&& parse_member(s@, i as int) == Some((p.0@, p.1@, p.2 as int))
                &&& i < p.2 <= s@.len()
            },
            None => parse_member(s@, i as int) is None,
        },
{
    let n = s.unicode_len();
    match parse_jstring_exec(s, i) {
        Some(k) => {
            let c = skip_ws_exec(s, k.1);
            if c < n && s.get_char(c) == ':' {
                match parse_value_exec(s, skip_ws_exec(s, c + 1)) {
                    Some(p) => Some((k.0, p.0, p.1)),
                    None => None,
                }
            } else {
                None
            }
        },
        None => None,
    }
}

/// The effect of one member on the name and phone accumulators: the
/// two known keys require string values and are remembered, the last
/// occurrence winning; a member under any other key is ignored.
pub open spec fn member_effect(
    k: Seq<char>,
    v: JsonValV,
    name: Option<Seq<char>>,
    phone: Option<Seq<char>>,
) -> Option<(Option<Seq<char>>, Option<Seq<char>>)> {
    if k == "name"@ {
        match v {
            JsonValV::Str(t) => Some((Some(t), phone)),
            _ => None,
        }
    } else if k == "phone"@ {
        match v {
            JsonValV::Str(t) => Some((name, Some(t))),
            _ => None,
        }
    } else {
        Some((name, phone))
    }
}

/// A comma-separated run of members starting at `i`; the result is the
/// accumulated name and phone and the index of the first character
/// after the run and its trailing whitespace.
pub open spec fn parse_members(
    s: Seq<char>,
    i: int,
    name: Option<Seq<char>>,
    phone: Option<Seq<char>>,
) -> Option<(Option<Seq<char>>, Option<Seq<char>>, int)>
    decreases s.len() - i,
{
    match parse_member(s, i) {
        Some((k, v, j)) => match member_effect(k, v, name, phone) {
            Some(acc) => {
                let c = skip_ws(s, j);
                if c < s.len() && s[c] == ',' {
                    let nx = skip_ws(s, c + 1);
                    if i < nx <= s.len() {
                        parse_members(s, nx, acc.0, acc.1)
                    } else {
                        None
                    }
                } else {
                    Some((acc.0, acc.1, c))
                }
            },
            None => None,
        },
        None => None,
    }
}

/// The view of an optional owned string.
pub open spec fn os_view(o: Option<String>) -> Option<Seq<char>> {
    match o {
        Some(t) => Some(t@),
        None => None,
    }
}

/// The grammar of a record request body: a JSON object whose `name`
/// and `phone` members are strings, with nothing but whitespace around
/// it.  Members under other keys are ignored; when a key repeats, the
/// last occurrence wins.  `None` when the body does not parse or when
/// either field is missing.
pub open spec fn spec_parse_body(s: Seq<char>) -> Option<(Seq<char>, Seq<char>)> {
    let i = skip_ws(s, 0);
    if i < s.len() && s[i] == '{' {
        let j = skip_ws(s, i + 1);
        if j < s.len() && s[j] == '}' {
            None  // an empty object has no name and no phone
        } else {
            match parse_members(s, j, None, None) {
                Some((name, phone, c)) => {
                    if c < s.len() && s[c] == '}' && skip_ws(s, c + 1) == s.len() {
                        match (name, phone) {
                            (Some(n), Some(p)) => Some((n, p)),
                            _ => None,
                        }
                    } else {
                        None
                    }
                },
                None => None,
            }
        }
    } else {
        None
    }
}

/// Parses a record request body into its name and phone fields:
/// `Some` exactly when the body is in the grammar.
pub fn parse_record_body(s: &str) -> (r: Option<(String, String)>)
    ensures
        match r {
            Some(p) => spec_parse_body(s@) == Some((p.0@, p.1@)),
            None => spec_parse_body(s@) is None,
        },
{
    let n = s.unicode_len();
    let i = skip_ws_exec(s, 0);
    if i == n {
        return None;
    }
    if s.get_char(i) != '{' {
        return None;
    }
    let j = skip_ws_exec(s, i + 1);
    if j < n && s.get_char(j) == '}' {
        return None;
    }
    let mut cur = j;
    let mut name: Option<String> = None;
    let mut phone: Option<String> = None;
    let ghost target = parse_members(s@, j as int, None, None);
    loop
        invariant
            n == s@.len(),
            j <= cur <= n,
            target == parse_members(s@, j as int, None::<Seq<char>>, None::<Seq<char>>),
            parse_members(s@, cur as int, os_view(name), os_view(phone)) == target,
            i == skip_ws(s@, 0),
            i < n && s@[i as int] == '{',
            j == skip_ws(s@, i + 1),
            !(j < n && s@[j as int] == '}'),
        decreases n - cur,
    {
        match parse_member_exec(s, cur) {
            None => {
                return None;
            },
            Some((k, v, end)) => {
                let ghost n0 = os_view(name);
                let ghost p0 = os_view(phone);
                let ghost vv = v@;
                let ghost kv = k@;
                if str_eq_lit_name(&k) {
                    match v {
                        JsonVal::Str(t) => {
                            name = Some(t);
                        },
                        _ => {
                            return None;
                        },
                    }
                } else if str_eq_lit_phone(&k) {
                    match v {
                        JsonVal::Str(t) => {
                            phone = Some(t);
                        },
                        _ => {
                            return None;
                        },
                    }
                }
                proof {
                    assert(member_effect(kv, vv, n0, p0) == Some((os_view(name), os_view(phone))));
                }
                let c = skip_ws_exec(s, end);
                if c < n && s.get_char(c) == ',' {
                    let nx = skip_ws_exec(s, c + 1);
                    proof {
                        assert(parse_members(s@, nx as int, os_view(name), os_view(phone))
                            == target);
                    }
                    cur = nx;
                } else {
                    proof {
                        assert(target == Some((os_view(name), os_view(phone), c as int)));
                    }
                    if c < n && s.get_char(c) == '}' {
                        let f = skip_ws_exec(s, c + 1);
                        if f == n {
                            match (name, phone) {
                                (Some(np), Some(pp)) => {
                                    return Some((np, pp));
                                },
                                _ => {
                                    return None;
                                },
                            }
                        } else {
                            return None;
                        }
                    } else {
                        return None;
                    }
                }
            },
        }
    }
}

/// The key is exactly `name`.
fn str_eq_lit_name(k: &String) -> (r: bool)
    ensures
        r == (k@ == "name"@),
{
    crate::text::str_eq(k.as_str(), "name")
}

/// The key is exactly `phone`.
fn str_eq_lit_phone(k: &String) -> (r: bool)
    ensures
        r == (k@ == "phone"@),
{
    crate::text::str_eq(k.as_str(), "phone")
}

} // verus!
