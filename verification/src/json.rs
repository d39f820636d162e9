//! The library's own model of a JSON document.
//!
//! Registry manifests, admission objects and the patches this library emits
//! are all JSON. Verified code works on this value type; the boundary code
//! converts between it and whatever representation the wire layer uses.
//! `json_text` specifies the exact serialized form, and `to_text` produces it.

use vstd::prelude::*;

verus! {

/// A JSON value. Numbers are integers: the admission and manifest documents
/// this library reads and writes carry no fractional values, so a fractional
/// number arriving from outside has no representation here and the boundary
/// maps it to `Null`.
#[derive(Debug)]
pub enum Json {
    Null,
    Bool(bool),
    UInt(u64),
    Int(i64),
    Str(String),
    Arr(Vec<Json>),
    Obj(Vec<(String, Json)>),
}

/// The value of the first entry of `es` whose key reads `key`, if any.
pub open spec fn entries_get(es: Seq<(String, Json)>, key: Seq<char>) -> Option<Json>
    decreases es.len(),
{
    if es.len() == 0 {
        None
    } else if es[0].0@ == key {
        Some(es[0].1)
    } else {
        entries_get(es.subrange(1, es.len() as int), key)
    }
}

/// Member lookup: the value under `key` when `v` is an object holding it.
pub open spec fn spec_get(v: Json, key: Seq<char>) -> Option<Json> {
    match v {
        Json::Obj(es) => entries_get(es@, key),
        _ => None,
    }
}

proof fn lemma_entries_get_skip(es: Seq<(String, Json)>, key: Seq<char>, i: int)
    requires
        0 <= i <= es.len(),
        forall|j: int| 0 <= j < i ==> (#[trigger] es[j]).0@ != key,
    ensures
        entries_get(es, key) == entries_get(es.subrange(i, es.len() as int), key),
    decreases i,
{
    if i == 0 {
        assert(es.subrange(0, es.len() as int) =~= es);
    } else {
        let sub = es.subrange(1, es.len() as int);
        assert(es[0].0@ != key);
        assert forall|j: int| 0 <= j < i - 1 implies (#[trigger] sub[j]).0@ != key by {
            assert(sub[j] == es[j + 1]);
        }
        lemma_entries_get_skip(sub, key, i - 1);
        assert(sub.subrange(i - 1, sub.len() as int) =~= es.subrange(i, es.len() as int));
    }
}

impl Json {
    /// Looks up a member of an object, first occurrence of the key winning.
    /// Returns `None` on non-objects and missing keys, as `spec_get` says.
    pub fn get<'a>(&'a self, key: &str) -> (r: Option<&'a Json>)
        ensures
            match r {
                Some(j) => spec_get(*self, key@) == Some(*j),
                None => spec_get(*self, key@) is None,
            },
    {
        match self {
            Json::Obj(es) => {
                let n: usize = es.len();
                let mut i: usize = 0;
                while i < n
                    invariant
                        *self == Json::Obj(*es),
                        n == es@.len(),
                        0 <= i <= n,
                        forall|j: int| 0 <= j < i ==> (#[trigger] es@[j]).0@ != key@,
                    decreases n - i,
                {
                    if crate::strutil::str_eq(es[i].0.as_str(), key) {
                        proof {
                            lemma_entries_get_skip(es@, key@, i as int);
                            let tail = es@.subrange(i as int, es@.len() as int);
                            assert(tail[0] == es@[i as int]);
                            assert(entries_get(tail, key@) == Some(tail[0].1));
                        }
                        return Some(&es[i].1);
                    }
                    i = i + 1;
                }
                proof {
                    lemma_entries_get_skip(es@, key@, n as int);
                    assert(es@.subrange(n as int, es@.len() as int) =~= Seq::<(String,
                    Json)>::empty());
                }
                None
            },
            _ => None,
        }
    }

    /// The string payload, when the value is a string.
    pub fn as_str<'a>(&'a self) -> (r: Option<&'a String>)
        ensures
            match r {
                Some(s) => *self == Json::Str(*s),
                None => !(*self is Str),
            },
    {
        match self {
            Json::Str(s) => Some(s),
            _ => None,
        }
    }

    /// The unsigned-integer payload, when the value is one.
    pub fn as_u64(&self) -> (r: Option<u64>)
        ensures
            match r {
                Some(n) => *self == Json::UInt(n),
                None => !(*self is UInt),
            },
    {
        match self {
            Json::UInt(n) => Some(*n),
            _ => None,
        }
    }

    /// The element vector, when the value is an array.
    pub fn as_array<'a>(&'a self) -> (r: Option<&'a Vec<Json>>)
        ensures
            match r {
                Some(es) => *self == Json::Arr(*es),
                None => !(*self is Arr),
            },
    {
        match self {
            Json::Arr(es) => Some(es),
            _ => None,
        }
    }
}

/// The character for one decimal digit.
pub open spec fn digit_char(d: int) -> char {
    if d == 0 { '0' }
    else if d == 1 { '1' }
    else if d == 2 { '2' }
    else if d == 3 { '3' }
    else if d == 4 { '4' }
    else if d == 5 { '5' }
    else if d == 6 { '6' }
    else if d == 7 { '7' }
    else if d == 8 { '8' }
    else { '9' }
}

/// The character for one lower-case hexadecimal digit.
pub open spec fn hex_char(d: int) -> char {
    if d < 10 { digit_char(d) }
    else if d == 10 { 'a' }
    else if d == 11 { 'b' }
    else if d == 12 { 'c' }
    else if d == 13 { 'd' }
    else if d == 14 { 'e' }
    else { 'f' }
}

/// Decimal text of a non-negative integer, no leading zeros.
pub open spec fn dec_digits(n: int) -> Seq<char>
    decreases n,
{
    if n < 10 {
        seq![digit_char(n)]
    } else {
        dec_digits(n / 10) + seq![digit_char(n % 10)]
    }
}

/// The JSON escape of one character inside a string literal.
pub open spec fn escape_char(c: char) -> Seq<char> {
    if c == '"' { seq!['\\', '"'] }
    else if c == '\\' { seq!['\\', '\\'] }
    else if c == '\n' { seq!['\\', 'n'] }
    else if c == '\r' { seq!['\\', 'r'] }
    else if c == '\t' { seq!['\\', 't'] }
    else if (c as u32) < 32 {
        seq!['\\', 'u', '0', '0', hex_char(c as u32 as int / 16), hex_char(c as u32 as int % 16)]
    } else {
        seq![c]
    }
}

/// The escape of the first `i` characters of `s`, in order.
pub open spec fn escape_prefix(s: Seq<char>, i: int) -> Seq<char>
    decreases i,
{
    if i <= 0 || i > s.len() {
        Seq::empty()
    } else {
        escape_prefix(s, i - 1) + escape_char(s[i - 1])
    }
}

/// The body of a JSON string literal for `s`.
pub open spec fn escape_text(s: Seq<char>) -> Seq<char> {
    escape_prefix(s, s.len() as int)
}

/// Serialized text of `v`: the compact form, members and elements in order,
/// separated by single commas and colons, strings quoted and escaped.
pub open spec fn json_text(v: Json) -> Seq<char>
    decreases v, 0int, 0int,
{
    match v {
        Json::Null => "null"@,
        Json::Bool(b) => if b { "true"@ } else { "false"@ },
        Json::UInt(n) => dec_digits(n as int),
        Json::Int(n) => if n < 0 {
            seq!['-'] + dec_digits(-(n as int))
        } else {
            dec_digits(n as int)
        },
        Json::Str(s) => seq!['"'] + escape_text(s@) + seq!['"'],
        Json::Arr(es) => seq!['['] + arr_prefix_text(es@, es@.len() as int) + seq![']'],
        Json::Obj(es) => seq!['{'] + obj_prefix_text(es@, es@.len() as int) + seq!['}'],
    }
}

/// Comma-separated text of the first `i` elements of an array.
pub open spec fn arr_prefix_text(es: Seq<Json>, i: int) -> Seq<char>
    decreases es, i, 1int,
{
    if i <= 0 || i > es.len() {
        Seq::empty()
    } else if i == 1 {
        json_text(es[0])
    } else {
        arr_prefix_text(es, i - 1) + seq![','] + json_text(es[i - 1])
    }
}

/// Text of one `"key":value` member.
pub open spec fn member_text(e: (String, Json)) -> Seq<char>
    decreases e, 0int, 2int,
{
    seq!['"'] + escape_text(e.0@) + seq!['"', ':'] + json_text(e.1)
}

/// Comma-separated text of the first `i` members of an object.
pub open spec fn obj_prefix_text(es: Seq<(String, Json)>, i: int) -> Seq<char>
    decreases es, i, 1int,
{
    if i <= 0 || i > es.len() {
        Seq::empty()
    } else if i == 1 {
        member_text(es[0])
    } else {
        obj_prefix_text(es, i - 1) + seq![','] + member_text(es[i - 1])
    }
}

/// Relies on `String::push`: appends exactly the given character.
pub assume_specification[ String::push ](s: &mut String, c: char)
    ensures
        final(s)@ == old(s)@ + seq![c],
;

/// One decimal digit as a character.
fn digit_of(d: u64) -> (r: char)
    requires
        d < 10,
    ensures
        r == digit_char(d as int),
{
    if d == 0 { '0' }
    else if d == 1 { '1' }
    else if d == 2 { '2' }
    else if d == 3 { '3' }
    else if d == 4 { '4' }
    else if d == 5 { '5' }
    else if d == 6 { '6' }
    else if d == 7 { '7' }
    else if d == 8 { '8' }
    else { '9' }
}

/// One hexadecimal digit as a character.
fn hex_of(d: u32) -> (r: char)
    requires
        d < 16,
    ensures
        r == hex_char(d as int),
{
    if d < 10 {
        digit_of(d as u64)
    } else if d == 10 { 'a' }
    else if d == 11 { 'b' }
    else if d == 12 { 'c' }
    else if d == 13 { 'd' }
    else if d == 14 { 'e' }
    else { 'f' }
}

/// Appends the decimal text of `n`.
fn push_u64(n: u64, out: &mut String)
    ensures
        final(out)@ == old(out)@ + dec_digits(n as int),
    decreases n,
{
    if n < 10 {
        out.push(digit_of(n));
    } else {
        push_u64(n / 10, out);
        out.push(digit_of(n % 10));
    }
}

/// Appends the body of a JSON string literal for `s`.
fn push_escaped(s: &str, out: &mut String)
    ensures
        final(out)@ == old(out)@ + escape_text(s@),
{
    let n: usize = s.unicode_len();
    let mut i: usize = 0;
    while i < n
        invariant
            n == s@.len(),
            0 <= i <= n,
            out@ == old(out)@ + escape_prefix(s@, i as int),
        decreases n - i,
    {
        let c = s.get_char(i);
        if c == '"' {
            out.push('\\');
            out.push('"');
        } else if c == '\\' {
            out.push('\\');
            out.push('\\');
        } else if c == '\n' {
            out.push('\\');
            out.push('n');
        } else if c == '\r' {
            out.push('\\');
            out.push('r');
        } else if c == '\t' {
            out.push('\\');
            out.push('t');
        } else if (c as u32) < 32 {
            let code: u32 = c as u32;
            out.push('\\');
            out.push('u');
            out.push('0');
            out.push('0');
            out.push(hex_of(code / 16));
            out.push(hex_of(code % 16));
        } else {
            out.push(c);
        }
        proof {
            assert(out@ =~= old(out)@ + escape_prefix(s@, i + 1));
        }
        i = i + 1;
    }
}

/// Appends the serialized text of `v`, exactly as `json_text` states it.
pub fn push_json(v: &Json, out: &mut String)
    ensures
        final(out)@ == old(out)@ + json_text(*v),
    decreases *v,
{
    match v {
        Json::Null => {
            out.append("null");
        },
        Json::Bool(b) => {
            if *b {
                out.append("true");
            } else {
                out.append("false");
            }
        },
        Json::UInt(n) => {
            push_u64(*n, out);
        },
        Json::Int(n) => {
            if *n >= 0 {
                push_u64(*n as u64, out);
            } else {
                out.push('-');
                let m: u64 = ((-(*n + 1)) as u64) + 1;
                proof {
                    assert(m as int == -(*n as int));
                }
                push_u64(m, out);
            }
        },
        Json::Str(s) => {
            out.push('"');
            push_escaped(s.as_str(), out);
            out.push('"');
            proof {
                assert(out@ =~= old(out)@ + json_text(*v));
            }
        },
        Json::Arr(es) => {
            out.push('[');
            let n: usize = es.len();
            let mut i: usize = 0;
            while i < n
                invariant
                    n == es@.len(),
                    0 <= i <= n,
                    *v == Json::Arr(*es),
                    out@ == old(out)@ + seq!['['] + arr_prefix_text(es@, i as int),
                decreases n - i,
            {
                if i > 0 {
                    out.push(',');
                }
                proof {
                    assert(decreases_to!(*v => v->Arr_0));
                    assert(v->Arr_0 == *es);
                    assert(decreases_to!(*es => es@));
                    assert(decreases_to!(es@ => es@[i as int]));
                    assert(decreases_to!(*v => es@[i as int]));
                }
                push_json(&es[i], out);
                proof {
                    assert(out@ =~= old(out)@ + seq!['['] + arr_prefix_text(es@, i + 1));
                }
                i = i + 1;
            }
            out.push(']');
            proof {
                assert(out@ =~= old(out)@ + json_text(*v));
            }
        },
        Json::Obj(es) => {
            out.push('{');
            let n: usize = es.len();
            let mut i: usize = 0;
            while i < n
                invariant
                    n == es@.len(),
                    0 <= i <= n,
                    *v == Json::Obj(*es),
                    out@ == old(out)@ + seq!['{'] + obj_prefix_text(es@, i as int),
                decreases n - i,
            {
                if i > 0 {
                    out.push(',');
                }
                out.push('"');
                push_escaped(es[i].0.as_str(), out);
                out.push('"');
                out.push(':');
                proof {
                    assert(decreases_to!(*v => v->Obj_0));
                    assert(v->Obj_0 == *es);
                    assert(decreases_to!(*es => es@));
                    assert(decreases_to!(es@ => es@[i as int]));
                    assert(decreases_to!(es@[i as int] => es@[i as int].1));
                    assert(decreases_to!(*v => es@[i as int].1));
                }
                push_json(&es[i].1, out);
                proof {
                    assert(member_text(es@[i as int]) =~= seq!['"'] + escape_text(
                        es@[i as int].0@) + seq!['"', ':'] + json_text(es@[i as int].1));
                    if i == 0 {
                        assert(obj_prefix_text(es@, 1) == member_text(es@[0]));
                    } else {
                        assert(obj_prefix_text(es@, i + 1) == obj_prefix_text(es@, i as int)
                            + seq![','] + member_text(es@[i as int]));
                    }
                    assert(out@ =~= old(out)@ + seq!['{'] + obj_prefix_text(es@, i + 1));
                }
                i = i + 1;
            }
            out.push('}');
            proof {
                assert(out@ =~= old(out)@ + json_text(*v));
            }
        },
    }
}

impl Json {
    /// The serialized text of this value, exactly as `json_text` states it.
    pub fn to_text(&self) -> (r: String)
        ensures
            r@ == json_text(*self),
    {
        let mut out = String::new();
        push_json(self, &mut out);
        out
    }
}

} // verus!
