//! A JSON document model for the parts of Datadog responses that are kept
//! as free-form JSON (log attributes, aggregate buckets, monitor payloads).
//!
//! Numbers are held as their JSON text, so no floating point is involved.
//! [`JsonValue::pointer`] follows RFC 6901 as `serde_json` does, and
//! [`JsonValue::to_text`] writes the compact JSON text that `serde_json`
//! writes.

use vstd::prelude::*;
use crate::text::{chars_of, is_digit, parse_u64, parse_u64_chars, push_all, push_str, split, split_chars, string_from_chars};

verus! {

/// A JSON value.
#[derive(Debug, PartialEq, Eq)]
pub enum JsonValue {
    Null,
    Bool(bool),
    /// A number, as its JSON text.
    Number(String),
    Str(String),
    Array(Vec<JsonValue>),
    /// The members in order; keys are unique in documents read from JSON.
    Object(Vec<(String, JsonValue)>),
}

/// The mathematical JSON value: strings as character sequences.
pub enum JsonSpec {
    Null,
    Bool(bool),
    Number(Seq<char>),
    Str(Seq<char>),
    Array(Seq<JsonSpec>),
    Object(Seq<(Seq<char>, JsonSpec)>),
}

/// The mathematical value of a [`JsonValue`].
pub open spec fn json_view(v: JsonValue) -> JsonSpec
    decreases v, 1nat,
{
    match v {
        JsonValue::Null => JsonSpec::Null,
        JsonValue::Bool(b) => JsonSpec::Bool(b),
        JsonValue::Number(t) => JsonSpec::Number(t@),
        JsonValue::Str(s) => JsonSpec::Str(s@),
        JsonValue::Array(xs) => JsonSpec::Array(items_view(xs@)),
        JsonValue::Object(es) => JsonSpec::Object(members_view(es@)),
    }
}

/// The mathematical values of a list of [`JsonValue`]s.
pub open spec fn items_view(xs: Seq<JsonValue>) -> Seq<JsonSpec>
    decreases xs, 0nat,
{
    if xs.len() == 0 {
        Seq::empty()
    } else {
        items_view(xs.subrange(0, xs.len() - 1)).push(json_view(xs[xs.len() - 1]))
    }
}

/// The mathematical members of an object.
pub open spec fn members_view(es: Seq<(String, JsonValue)>) -> Seq<(Seq<char>, JsonSpec)>
    decreases es, 0nat,
{
    if es.len() == 0 {
        Seq::empty()
    } else {
        members_view(es.subrange(0, es.len() - 1)).push(
            (es[es.len() - 1].0@, json_view(es[es.len() - 1].1)),
        )
    }
}

impl View for JsonValue {
    type V = JsonSpec;

    open spec fn view(&self) -> JsonSpec {
        json_view(*self)
    }
}

pub(crate) proof fn lemma_items_view(xs: Seq<JsonValue>)
    ensures
        items_view(xs).len() == xs.len(),
        forall|i: int| 0 <= i < xs.len() ==> #[trigger] items_view(xs)[i] == json_view(xs[i]),
    decreases xs.len(),
{
    if xs.len() > 0 {
        lemma_items_view(xs.subrange(0, xs.len() - 1));
    }
}

proof fn lemma_members_view(es: Seq<(String, JsonValue)>)
    ensures
        members_view(es).len() == es.len(),
        forall|i: int|
            0 <= i < es.len() ==> #[trigger] members_view(es)[i] == (es[i].0@, json_view(es[i].1)),
    decreases es.len(),
{
    if es.len() > 0 {
        lemma_members_view(es.subrange(0, es.len() - 1));
    }
}

/// The value of the first member of `entries` named `key`.
pub open spec fn obj_get(entries: Seq<(Seq<char>, JsonSpec)>, key: Seq<char>) -> Option<JsonSpec>
    decreases entries.len(),
{
    if entries.len() == 0 {
        None
    } else if entries[0].0 == key {
        Some(entries[0].1)
    } else {
        obj_get(entries.drop_first(), key)
    }
}

/// `value.get(key)`: the member `key` of an object; `None` for other values.
pub open spec fn get_spec(v: JsonSpec, key: Seq<char>) -> Option<JsonSpec> {
    match v {
        JsonSpec::Object(es) => obj_get(es, key),
        _ => None,
    }
}

fn obj_get_exec<'a>(entries: &'a Vec<(String, JsonValue)>, key: &[char]) -> (r: Option<
    &'a JsonValue,
>)
    ensures
        r matches Some(x) ==> obj_get(members_view(entries@), key@) == Some(x@),
        r is None ==> obj_get(members_view(entries@), key@) is None,
{
    let ghost mv = members_view(entries@);
    proof {
        lemma_members_view(entries@);
    }
    let mut i: usize = 0;
    assert(mv.skip(0) =~= mv);
    while i < entries.len()
        invariant
            i <= entries@.len(),
            mv == members_view(entries@),
            mv.len() == entries@.len(),
            forall|k: int| 0 <= k < entries@.len() ==> #[trigger] mv[k] == (entries@[k].0@, json_view(entries@[k].1)),
            obj_get(mv, key@) == obj_get(mv.skip(i as int), key@),
        decreases entries@.len() - i,
    {
        let k = chars_of(entries[i].0.as_str());
        assert(mv.skip(i as int)[0] == mv[i as int]);
        if crate::text::chars_eq(k.as_slice(), key) {
            return Some(&entries[i].1);
        }
        assert(mv.skip(i as int).drop_first() =~= mv.skip(i + 1));
        i = i + 1;
    }
    None
}

// ---- Pointers -----------------------------------------------------------------

/// `s` with every `ab` (found left to right, not overlapping) replaced by
/// `with` (`str::replace` with a two-character pattern).
pub open spec fn replace_pair(s: Seq<char>, a: char, b: char, with: char) -> Seq<char>
    decreases s.len(),
{
    if s.len() == 0 {
        s
    } else if s.len() >= 2 && s[0] == a && s[1] == b {
        seq![with] + replace_pair(s.skip(2), a, b, with)
    } else {
        seq![s[0]] + replace_pair(s.drop_first(), a, b, with)
    }
}

/// A pointer token with its escapes undone: `~1` is `/`, then `~0` is `~`.
pub open spec fn unescape_token(t: Seq<char>) -> Seq<char> {
    replace_pair(replace_pair(t, '~', '1', '/'), '~', '0', '~')
}

fn replace_pair_exec(s: &[char], a: char, b: char, with: char) -> (r: Vec<char>)
    ensures
        r@ == replace_pair(s@, a, b, with),
{
    let n = s.len();
    let mut out: Vec<char> = Vec::new();
    let mut i: usize = 0;
    assert(s@.skip(0) =~= s@);
    while i < n
        invariant
            n == s@.len(),
            i <= n,
            out@ + replace_pair(s@.skip(i as int), a, b, with) == replace_pair(s@, a, b, with),
        decreases n - i,
    {
        if i + 1 < n && s[i] == a && s[i + 1] == b {
            assert(s@.skip(i as int).skip(2) =~= s@.skip(i + 2));
            out.push(with);
            i = i + 2;
        } else {
            assert(s@.skip(i as int).drop_first() =~= s@.skip(i + 1));
            out.push(s[i]);
            i = i + 1;
        }
        assert(out@ + replace_pair(s@.skip(i as int), a, b, with) =~= replace_pair(s@, a, b, with));
    }
    assert(s@.skip(n as int) =~= Seq::<char>::empty());
    assert(out@ + Seq::<char>::empty() =~= out@);
    out
}

/// The array index a pointer token denotes: digits without a `+` and
/// without a leading zero (except `0` itself), within `usize`.
pub open spec fn index_token(t: Seq<char>) -> Option<int> {
    if t.len() > 0 && (t[0] == '+' || (t[0] == '0' && t.len() != 1)) {
        None
    } else {
        match parse_u64(t) {
            Some(i) => if i <= usize::MAX {
                Some(i)
            } else {
                None
            },
            None => None,
        }
    }
}

fn index_token_exec(t: &[char]) -> (r: Option<usize>)
    ensures
        r matches Some(i) ==> index_token(t@) == Some(i as int),
        r is None ==> index_token(t@) is None,
{
    if t.len() > 0 && (t[0] == '+' || (t[0] == '0' && t.len() != 1)) {
        return None;
    }
    match parse_u64_chars(t) {
        Some(i) => if i as u128 <= usize::MAX as u128 {
            Some(i as usize)
        } else {
            None
        },
        None => None,
    }
}

/// One step of a pointer: an object member or an array element.
pub open spec fn pointer_step(v: JsonSpec, token: Seq<char>) -> Option<JsonSpec> {
    match v {
        JsonSpec::Object(es) => obj_get(es, token),
        JsonSpec::Array(xs) => match index_token(token) {
            Some(i) => if i < xs.len() {
                Some(xs[i])
            } else {
                None
            },
            None => None,
        },
        _ => None,
    }
}

/// Follows the escaped tokens from `v`.
pub open spec fn pointer_walk(v: JsonSpec, tokens: Seq<Seq<char>>) -> Option<JsonSpec>
    decreases tokens.len(),
{
    if tokens.len() == 0 {
        Some(v)
    } else {
        match pointer_step(v, unescape_token(tokens[0])) {
            Some(w) => pointer_walk(w, tokens.drop_first()),
            None => None,
        }
    }
}

/// `value.pointer(p)`: the empty pointer is the value itself; otherwise the
/// pointer must start with `/` and its `/`-separated tokens are followed.
pub open spec fn pointer_spec(v: JsonSpec, p: Seq<char>) -> Option<JsonSpec> {
    if p.len() == 0 {
        Some(v)
    } else if p[0] != '/' {
        None
    } else {
        pointer_walk(v, split(p, '/').drop_first())
    }
}

// ---- Text -------------------------------------------------------------------------

/// The hexadecimal digit of `d` (`0 <= d < 16`), lower case.
pub open spec fn hex_char(d: int) -> char {
    if d < 10 {
        crate::text::digit_char(d)
    } else if d == 10 {
        'a'
    } else if d == 11 {
        'b'
    } else if d == 12 {
        'c'
    } else if d == 13 {
        'd'
    } else if d == 14 {
        'e'
    } else {
        'f'
    }
}

/// How `serde_json` writes one character inside a string.
pub open spec fn escape_char(c: char) -> Seq<char> {
    if c == '"' {
        seq!['\\', '"']
    } else if c == '\\' {
        seq!['\\', '\\']
    } else if c == '\u{8}' {
        seq!['\\', 'b']
    } else if c == '\u{c}' {
        seq!['\\', 'f']
    } else if c == '\n' {
        seq!['\\', 'n']
    } else if c == '\r' {
        seq!['\\', 'r']
    } else if c == '\t' {
        seq!['\\', 't']
    } else if (c as u32) < 0x20 {
        seq!['\\', 'u', '0', '0', hex_char(((c as u32) / 16) as int), hex_char(((c as u32) % 16) as int)]
    } else {
        seq![c]
    }
}

/// The characters of `s` escaped for a JSON string.
pub open spec fn escape(s: Seq<char>) -> Seq<char>
    decreases s.len(),
{
    if s.len() == 0 {
        s
    } else {
        escape(s.drop_last()) + escape_char(s.last())
    }
}

/// `s` as a JSON string literal.
pub open spec fn quoted(s: Seq<char>) -> Seq<char> {
    seq!['"'] + escape(s) + seq!['"']
}

/// The compact JSON text of a value, as `serde_json::to_string` writes it.
pub open spec fn json_text(v: JsonSpec) -> Seq<char>
    decreases v, 1nat,
{
    match v {
        JsonSpec::Null => seq!['n', 'u', 'l', 'l'],
        JsonSpec::Bool(b) => if b {
            seq!['t', 'r', 'u', 'e']
        } else {
            seq!['f', 'a', 'l', 's', 'e']
        },
        JsonSpec::Number(t) => t,
        JsonSpec::Str(s) => quoted(s),
        JsonSpec::Array(xs) => seq!['['] + items_text(xs) + seq![']'],
        JsonSpec::Object(es) => seq!['{'] + members_text(es) + seq!['}'],
    }
}

/// The texts of `xs` separated by commas.
pub open spec fn items_text(xs: Seq<JsonSpec>) -> Seq<char>
    decreases xs, 0nat,
{
    if xs.len() == 0 {
        Seq::empty()
    } else if xs.len() == 1 {
        json_text(xs[0])
    } else {
        items_text(xs.subrange(0, xs.len() - 1)) + seq![','] + json_text(xs[xs.len() - 1])
    }
}

/// The members `"key":value` of an object separated by commas.
pub open spec fn members_text(es: Seq<(Seq<char>, JsonSpec)>) -> Seq<char>
    decreases es, 0nat,
{
    if es.len() == 0 {
        Seq::empty()
    } else if es.len() == 1 {
        quoted(es[0].0) + seq![':'] + json_text(es[0].1)
    } else {
        members_text(es.subrange(0, es.len() - 1)) + seq![','] + quoted(es[es.len() - 1].0)
            + seq![':'] + json_text(es[es.len() - 1].1)
    }
}

fn push_escaped(out: &mut Vec<char>, s: &str)
    ensures
        final(out)@ == old(out)@ + quoted(s@),
{
    let v = chars_of(s);
    let ghost start = out@;
    out.push('"');
    let mut i: usize = 0;
    while i < v.len()
        invariant
            i <= v@.len(),
            v@ == s@,
            out@ == start + seq!['"'] + escape(v@.take(i as int)),
        decreases v@.len() - i,
    {
        let c = v[i];
        assert(v@.take(i + 1).drop_last() =~= v@.take(i as int));
        let ghost before = out@;
        if c == '"' {
            out.push('\\');
            out.push('"');
        } else if c == '\\' {
            out.push('\\');
            out.push('\\');
        } else if c == '\u{8}' {
            out.push('\\');
            out.push('b');
        } else if c == '\u{c}' {
            out.push('\\');
            out.push('f');
        } else if c == '\n' {
            out.push('\\');
            out.push('n');
        } else if c == '\r' {
            out.push('\\');
            out.push('r');
        } else if c == '\t' {
            out.push('\\');
            out.push('t');
        } else if (c as u32) < 0x20 {
            let code = c as u32;
            out.push('\\');
            out.push('u');
            out.push('0');
            out.push('0');
            out.push(hex_digit(code / 16));
            out.push(hex_digit(code % 16));
        } else {
            out.push(c);
        }
        if c == '"' || c == '\\' || c == '\u{8}' || c == '\u{c}' || c == '\n' || c == '\r' || c == '\t' {
            assert(out@ =~= before + escape_char(c));
        } else if (c as u32) < 0x20 {
            assert(out@ =~= before + escape_char(c));
        } else {
            assert(out@ =~= before + escape_char(c));
        }
        i = i + 1;
        assert(out@ =~= start + seq!['"'] + escape(v@.take(i as int)));
    }
    assert(v@.take(v@.len() as int) =~= v@);
    out.push('"');
    assert(out@ =~= start + quoted(s@));
}

fn hex_digit(d: u32) -> (c: char)
    requires
        d < 16,
    ensures
        c == hex_char(d as int),
{
    if d < 10 {
        let v = crate::text::decimal_u64(d as u64);
        assert(v@ == crate::text::decimal(d as nat));
        assert(crate::text::decimal(d as nat) == seq![crate::text::digit_char(d as int)]);
        v[0]
    } else if d == 10 {
        'a'
    } else if d == 11 {
        'b'
    } else if d == 12 {
        'c'
    } else if d == 13 {
        'd'
    } else if d == 14 {
        'e'
    } else {
        'f'
    }
}

impl JsonValue {
    /// `value.get(key)`: the member `key` of an object.
    pub fn get(&self, key: &str) -> (r: Option<&JsonValue>)
        ensures
            r matches Some(x) ==> get_spec(self@, key@) == Some(x@),
            r is None ==> get_spec(self@, key@) is None,
    {
        match self {
            JsonValue::Object(es) => {
                let k = chars_of(key);
                obj_get_exec(es, k.as_slice())
            },
            _ => None,
        }
    }

    /// The text of a string value.
    pub fn as_str(&self) -> (r: Option<&String>)
        ensures
            r matches Some(s) ==> *self == JsonValue::Str(*s),
            r is None ==> !(*self is Str),
    {
        match self {
            JsonValue::Str(s) => Some(s),
            _ => None,
        }
    }

    /// The elements of an array value.
    pub fn as_array(&self) -> (r: Option<&Vec<JsonValue>>)
        ensures
            r matches Some(xs) ==> *self == JsonValue::Array(*xs),
            r is None ==> !(*self is Array),
    {
        match self {
            JsonValue::Array(xs) => Some(xs),
            _ => None,
        }
    }

    /// Whether this is `null`.
    pub fn is_null(&self) -> (b: bool)
        ensures
            b == (*self is Null),
    {
        match self {
            JsonValue::Null => true,
            _ => false,
        }
    }

    /// Looks a value up by a JSON Pointer (RFC 6901), as `serde_json`'s
    /// `Value::pointer` does.
    pub fn pointer(&self, p: &str) -> (r: Option<&JsonValue>)
        ensures
            r matches Some(x) ==> pointer_spec(self@, p@) == Some(x@),
            r is None ==> pointer_spec(self@, p@) is None,
    {
        let pv = chars_of(p);
        if pv.len() == 0 {
            return Some(self);
        }
        if pv[0] != '/' {
            return None;
        }
        let parts = split_chars(pv.as_slice(), '/');
        let ghost tokens = split(p@, '/');
        let mut target: &JsonValue = self;
        let mut i: usize = 1;
        assert(tokens.drop_first() =~= tokens.skip(1));
        while i < parts.len()
            invariant
                1 <= i <= parts@.len(),
                parts@.len() == tokens.len(),
                forall|k: int| 0 <= k < parts@.len() ==> #[trigger] parts@[k]@ == tokens[k],
                pointer_spec(self@, p@) == pointer_walk(target@, tokens.skip(i as int)),
                p@.len() > 0 && p@[0] == '/',
                tokens == split(p@, '/'),
            decreases parts@.len() - i,
        {
            let once = replace_pair_exec(parts[i].as_slice(), '~', '1', '/');
            let tok = replace_pair_exec(once.as_slice(), '~', '0', '~');
            assert(tokens.skip(i as int)[0] == tokens[i as int]);
            assert(tokens.skip(i as int).drop_first() =~= tokens.skip(i + 1));
            let next: Option<&JsonValue> = match target {
                JsonValue::Object(es) => obj_get_exec(es, tok.as_slice()),
                JsonValue::Array(xs) => {
                    proof {
                        lemma_items_view(xs@);
                    }
                    match index_token_exec(tok.as_slice()) {
                        Some(k) => if k < xs.len() {
                            Some(&xs[k])
                        } else {
                            None
                        },
                        None => None,
                    }
                },
                _ => None,
            };
            match next {
                Some(w) => {
                    target = w;
                },
                None => {
                    return None;
                },
            }
            i = i + 1;
        }
        assert(tokens.skip(parts@.len() as int).len() == 0);
        Some(target)
    }

    /// The compact JSON text of this value, as `serde_json::to_string`
    /// writes it.
    pub fn to_text(&self) -> (r: String)
        ensures
            r@ == json_text(self@),
    {
        let mut out: Vec<char> = Vec::new();
        write_json(self, &mut out);
        assert(out@ =~= json_text(self@));
        string_from_chars(out.as_slice())
    }
}

fn write_json(v: &JsonValue, out: &mut Vec<char>)
    ensures
        final(out)@ == old(out)@ + json_text(v@),
    decreases *v, 1nat,
{
    let ghost start = out@;
    match v {
        JsonValue::Null => {
            push_str(out, "null");
            proof {
                reveal_strlit("null");
            }
            assert(out@ =~= start + json_text(v@));
        },
        JsonValue::Bool(b) => {
            if *b {
                push_str(out, "true");
                proof {
                    reveal_strlit("true");
                }
            } else {
                push_str(out, "false");
                proof {
                    reveal_strlit("false");
                }
            }
            assert(out@ =~= start + json_text(v@));
        },
        JsonValue::Number(t) => {
            push_str(out, t.as_str());
        },
        JsonValue::Str(s) => {
            push_escaped(out, s.as_str());
        },
        JsonValue::Array(xs) => {
            out.push('[');
            assert(decreases_to!(*v => xs@));
            write_items(xs, out);
            out.push(']');
            assert(out@ =~= start + json_text(v@));
        },
        JsonValue::Object(es) => {
            out.push('{');
            assert(decreases_to!(*v => es@));
            write_members(es, out);
            out.push('}');
            assert(out@ =~= start + json_text(v@));
        },
    }
}

fn write_items(xs: &Vec<JsonValue>, out: &mut Vec<char>)
    ensures
        final(out)@ == old(out)@ + items_text(items_view(xs@)),
    decreases xs@, 0nat,
{
    let ghost start = out@;
    let mut i: usize = 0;
    assert(items_view(xs@.subrange(0, 0)) =~= Seq::<JsonSpec>::empty());
    while i < xs.len()
        invariant
            i <= xs@.len(),
            out@ == start + items_text(items_view(xs@.subrange(0, i as int))),
        decreases xs@.len() - i,
    {
        let ghost before = items_view(xs@.subrange(0, i as int));
        assert(xs@.subrange(0, i + 1).subrange(0, i as int) =~= xs@.subrange(0, i as int));
        assert(items_view(xs@.subrange(0, i + 1)) == before.push(json_view(xs@[i as int])));
        proof {
            lemma_items_view(xs@.subrange(0, i as int));
        }
        assert(before.push(json_view(xs@[i as int])).subrange(0, i as int) =~= before);
        if i > 0 {
            out.push(',');
        }
        assert(decreases_to!(xs@ => xs@[i as int]));
        write_json(&xs[i], out);
        i = i + 1;
        assert(out@ =~= start + items_text(items_view(xs@.subrange(0, i as int))));
    }
    assert(xs@.subrange(0, xs@.len() as int) =~= xs@);
}

fn write_members(es: &Vec<(String, JsonValue)>, out: &mut Vec<char>)
    ensures
        final(out)@ == old(out)@ + members_text(members_view(es@)),
    decreases es@, 0nat,
{
    let ghost start = out@;
    let mut i: usize = 0;
    assert(members_view(es@.subrange(0, 0)) =~= Seq::<(Seq<char>, JsonSpec)>::empty());
    while i < es.len()
        invariant
            i <= es@.len(),
            out@ == start + members_text(members_view(es@.subrange(0, i as int))),
        decreases es@.len() - i,
    {
        let ghost before = members_view(es@.subrange(0, i as int));
        assert(es@.subrange(0, i + 1).subrange(0, i as int) =~= es@.subrange(0, i as int));
        assert(members_view(es@.subrange(0, i + 1)) == before.push(
            (es@[i as int].0@, json_view(es@[i as int].1)),
        ));
        proof {
            lemma_members_view(es@.subrange(0, i as int));
        }
        assert(before.push((es@[i as int].0@, json_view(es@[i as int].1))).subrange(0, i as int)
            =~= before);
        if i > 0 {
            out.push(',');
        }
        push_escaped(out, es[i].0.as_str());
        out.push(':');
        assert(decreases_to!(es@ => es@[i as int]));
        assert(decreases_to!(es@[i as int] => es@[i as int].1));
        write_json(&es[i].1, out);
        i = i + 1;
        assert(out@ =~= start + members_text(members_view(es@.subrange(0, i as int))));
    }
    assert(es@.subrange(0, es@.len() as int) =~= es@);
}

impl JsonValue {
    /// A copy of this value.
    pub fn copy(&self) -> (r: JsonValue)
        ensures
            r@ == self@,
        decreases *self, 1nat,
    {
        match self {
            JsonValue::Null => JsonValue::Null,
            JsonValue::Bool(b) => JsonValue::Bool(*b),
            JsonValue::Number(t) => JsonValue::Number(t.clone()),
            JsonValue::Str(s) => JsonValue::Str(s.clone()),
            JsonValue::Array(xs) => {
                assert(decreases_to!(*self => xs@));
                let ys = copy_items(xs);
                JsonValue::Array(ys)
            },
            JsonValue::Object(es) => {
                assert(decreases_to!(*self => es@));
                let fs = copy_members(es);
                JsonValue::Object(fs)
            },
        }
    }
}

fn copy_items(xs: &Vec<JsonValue>) -> (r: Vec<JsonValue>)
    ensures
        items_view(r@) == items_view(xs@),
    decreases xs@, 0nat,
{
    let mut r: Vec<JsonValue> = Vec::new();
    let mut i: usize = 0;
    assert(items_view(xs@.subrange(0, 0)) =~= Seq::<JsonSpec>::empty());
    assert(items_view(r@) =~= Seq::<JsonSpec>::empty());
    while i < xs.len()
        invariant
            i <= xs@.len(),
            items_view(r@) == items_view(xs@.subrange(0, i as int)),
            r@.len() == i,
        decreases xs@.len() - i,
    {
        assert(xs@.subrange(0, i + 1).subrange(0, i as int) =~= xs@.subrange(0, i as int));
        assert(decreases_to!(xs@ => xs@[i as int]));
        let c = xs[i].copy();
        let ghost old_r = r@;
        r.push(c);
        assert(r@.subrange(0, i as int) =~= old_r);
        i = i + 1;
    }
    assert(xs@.subrange(0, xs@.len() as int) =~= xs@);
    r
}

fn copy_members(es: &Vec<(String, JsonValue)>) -> (r: Vec<(String, JsonValue)>)
    ensures
        members_view(r@) == members_view(es@),
    decreases es@, 0nat,
{
    let mut r: Vec<(String, JsonValue)> = Vec::new();
    let mut i: usize = 0;
    assert(members_view(es@.subrange(0, 0)) =~= Seq::<(Seq<char>, JsonSpec)>::empty());
    assert(members_view(r@) =~= Seq::<(Seq<char>, JsonSpec)>::empty());
    while i < es.len()
        invariant
            i <= es@.len(),
            members_view(r@) == members_view(es@.subrange(0, i as int)),
            r@.len() == i,
        decreases es@.len() - i,
    {
        assert(es@.subrange(0, i + 1).subrange(0, i as int) =~= es@.subrange(0, i as int));
        assert(decreases_to!(es@ => es@[i as int]));
        assert(decreases_to!(es@[i as int] => es@[i as int].1));
        let c = es[i].1.copy();
        let k = es[i].0.clone();
        let ghost old_r = r@;
        r.push((k, c));
        assert(r@.subrange(0, i as int) =~= old_r);
        i = i + 1;
    }
    assert(es@.subrange(0, es@.len() as int) =~= es@);
    r
}

} // verus!
