//! A small JSON document model. Collector configuration and collector
//! responses are JSON; this module gives the library its own tree type for
//! such documents, a serializer whose output matches the compact rendering
//! used throughout the system, and lookups over parsed documents.

use vstd::prelude::*;
use vstd::string::StringExecFns;

verus! {

/// One JSON value. Numbers are carried as their decimal text so that the
/// model stays exact (no floating point) and re-serialization reproduces the
/// original rendering.
#[derive(Debug)]
pub enum JVal {
    Null,
    Bool(bool),
    Num(String),
    Str(String),
    Arr(Vec<JVal>),
    Obj(Vec<(String, JVal)>),
}

/// Text of a JSON value, compact form: no spaces, object fields in sequence
/// order, numbers as their carried text.
pub open spec fn text_of(v: JVal) -> Seq<char>
    decreases v,
{
    match v {
        JVal::Null => seq!['n', 'u', 'l', 'l'],
        JVal::Bool(b) => if b { seq!['t', 'r', 'u', 'e'] } else { seq!['f', 'a', 'l', 's', 'e'] },
        JVal::Num(s) => s@,
        JVal::Str(s) => quoted(s@),
        JVal::Arr(items) => seq!['['] + text_of_items(items@) + seq![']'],
        JVal::Obj(fields) => seq!['{'] + text_of_fields(fields@) + seq!['}'],
    }
}

/// Comma-separated texts of array elements.
pub open spec fn text_of_items(items: Seq<JVal>) -> Seq<char>
    decreases items,
{
    if items.len() == 0 {
        Seq::empty()
    } else if items.len() == 1 {
        text_of(items[0])
    } else {
        text_of_items(items.drop_last()) + seq![','] + text_of(items.last())
    }
}

/// Comma-separated `"key":value` texts of object fields.
pub open spec fn text_of_fields(fields: Seq<(String, JVal)>) -> Seq<char>
    decreases fields,
{
    if fields.len() == 0 {
        Seq::empty()
    } else if fields.len() == 1 {
        quoted(fields[0].0@) + seq![':'] + text_of(fields[0].1)
    } else {
        text_of_fields(fields.drop_last()) + seq![','] + quoted(fields.last().0@) + seq![':']
            + text_of(fields.last().1)
    }
}

/// A JSON string literal: quotes around the escaped characters.
pub open spec fn quoted(s: Seq<char>) -> Seq<char> {
    seq!['"'] + escaped(s) + seq!['"']
}

/// JSON escaping of a character sequence, one character at a time.
pub open spec fn escaped(s: Seq<char>) -> Seq<char>
    decreases s.len(),
{
    if s.len() == 0 {
        Seq::empty()
    } else {
        escaped(s.drop_last()) + escape_char(s.last())
    }
}

/// How one character appears inside a JSON string literal: `"` and `\` get a
/// backslash, the named control characters use their short escapes, other
/// control characters use `\u00XX`, everything else stands for itself.
pub open spec fn escape_char(c: char) -> Seq<char> {
    if c == '"' {
        seq!['\\', '"']
    } else if c == '\\' {
        seq!['\\', '\\']
    } else if c == '\u{8}' {
        seq!['\\', 'b']
    } else if c == '\u{c}' {
        seq!['\\', 'f']
    } else if c == '\n' {
        seq!['\\', 'n']
    } else if c == '\r' {
        seq!['\\', 'r']
    } else if c == '\t' {
        seq!['\\', 't']
    } else if (c as int) < 0x20 {
        seq!['\\', 'u', '0', '0', hex_lower((c as int) / 16), hex_lower((c as int) % 16)]
    } else {
        seq![c]
    }
}

/// Lowercase hexadecimal digit for a value in 0..16.
pub open spec fn hex_lower(d: int) -> char {
    if d == 0 { '0' } else if d == 1 { '1' } else if d == 2 { '2' } else if d == 3 { '3' }
    else if d == 4 { '4' } else if d == 5 { '5' } else if d == 6 { '6' } else if d == 7 { '7' }
    else if d == 8 { '8' } else if d == 9 { '9' } else if d == 10 { 'a' } else if d == 11 { 'b' }
    else if d == 12 { 'c' } else if d == 13 { 'd' } else if d == 14 { 'e' } else { 'f' }
}

/// Uppercase hexadecimal digit for a value in 0..16.
pub open spec fn hex_upper(d: int) -> char {
    if d == 0 { '0' } else if d == 1 { '1' } else if d == 2 { '2' } else if d == 3 { '3' }
    else if d == 4 { '4' } else if d == 5 { '5' } else if d == 6 { '6' } else if d == 7 { '7' }
    else if d == 8 { '8' } else if d == 9 { '9' } else if d == 10 { 'A' } else if d == 11 { 'B' }
    else if d == 12 { 'C' } else if d == 13 { 'D' } else if d == 14 { 'E' } else { 'F' }
}

/// The first field of an object with the given key, if the value is an
/// object holding one.
pub open spec fn spec_get(v: JVal, key: Seq<char>) -> Option<JVal> {
    match v {
        JVal::Obj(fields) => spec_get_fields(fields@, key),
        _ => None,
    }
}

/// The first pair with the given key, searching front to back.
pub open spec fn spec_get_fields(fields: Seq<(String, JVal)>, key: Seq<char>) -> Option<JVal>
    decreases fields.len(),
{
    if fields.len() == 0 {
        None
    } else if fields[0].0@ == key {
        Some(fields[0].1)
    } else {
        spec_get_fields(fields.drop_first(), key)
    }
}

/// The string content of a value, when it is a string.
pub open spec fn spec_as_str(v: Option<JVal>) -> Option<Seq<char>> {
    match v {
        Some(JVal::Str(s)) => Some(s@),
        _ => None,
    }
}

/// Relies on String::push: appends exactly the one character.
#[verifier::external_body]
pub fn push_char(s: &mut String, c: char)
    ensures
        final(s)@ == old(s)@.push(c),
{
    s.push(c);
}

/// Relies on str::chars: the characters of the string, in order.
#[verifier::external_body]
pub fn chars_vec(s: &str) -> (v: Vec<char>)
    ensures
        v@ == s@,
{
    s.chars().collect()
}

/// Appends the JSON escaping of `s` to `out`.
#[verifier::loop_isolation(false)]
fn write_escaped(s: &str, out: &mut String)
    ensures
        final(out)@ == old(out)@ + escaped(s@),
{
    let cs = chars_vec(s);
    let mut i: usize = 0;
    while i < cs.len()
        invariant
            i <= cs.len(),
            cs@ == s@,
            out@ == old(out)@ + escaped(cs@.take(i as int)),
        decreases cs.len() - i,
    {
        let c = cs[i];
        if c == '"' {
            out.append("\\\"");
        } else if c == '\\' {
            out.append("\\\\");
        } else if c == '\u{8}' {
            out.append("\\b");
        } else if c == '\u{c}' {
            out.append("\\f");
        } else if c == '\n' {
            out.append("\\n");
        } else if c == '\r' {
            out.append("\\r");
        } else if c == '\t' {
            out.append("\\t");
        } else if let Some((hi, lo)) = control_hex(c) {
            out.append("\\u00");
            push_char(out, hi);
            push_char(out, lo);
        } else {
            push_char(out, c);
        }
        proof {
            reveal_strlit("\\\"");
            reveal_strlit("\\\\");
            reveal_strlit("\\b");
            reveal_strlit("\\f");
            reveal_strlit("\\n");
            reveal_strlit("\\r");
            reveal_strlit("\\t");
            reveal_strlit("\\u00");
            assert(cs@.take(i + 1).drop_last() =~= cs@.take(i as int));
            assert(cs@.take(i + 1).last() == cs@[i as int]);
            assert(out@ =~= old(out)@ + escaped(cs@.take(i + 1)));
        }
        i = i + 1;
    }
    proof {
        assert(cs@.take(cs@.len() as int) =~= s@);
    }
}

/// The JSON string literal for `s`: quotes around its escaped characters.
pub fn json_quote(s: &str) -> (r: String)
    ensures
        r@ == quoted(s@),
{
    let mut out = String::new();
    write_quoted(s, &mut out);
    out
}

/// The two lowercase hexadecimal digits of a control character's code
/// point, `None` for every character at or above `'\u{20}'`.
fn control_hex(c: char) -> (r: Option<(char, char)>)
    ensures
        match r {
            Some(d) => (c as int) < 0x20 && d.0 == hex_lower((c as int) / 16) && d.1 == hex_lower(
                (c as int) % 16,
            ),
            None => (c as int) >= 0x20,
        },
{
    match c {
        '\u{00}' => Some(('0', '0')),
        '\u{01}' => Some(('0', '1')),
        '\u{02}' => Some(('0', '2')),
        '\u{03}' => Some(('0', '3')),
        '\u{04}' => Some(('0', '4')),
        '\u{05}' => Some(('0', '5')),
        '\u{06}' => Some(('0', '6')),
        '\u{07}' => Some(('0', '7')),
        '\u{08}' => Some(('0', '8')),
        '\u{09}' => Some(('0', '9')),
        '\u{0a}' => Some(('0', 'a')),
        '\u{0b}' => Some(('0', 'b')),
        '\u{0c}' => Some(('0', 'c')),
        '\u{0d}' => Some(('0', 'd')),
        '\u{0e}' => Some(('0', 'e')),
        '\u{0f}' => Some(('0', 'f')),
        '\u{10}' => Some(('1', '0')),
        '\u{11}' => Some(('1', '1')),
        '\u{12}' => Some(('1', '2')),
        '\u{13}' => Some(('1', '3')),
        '\u{14}' => Some(('1', '4')),
        '\u{15}' => Some(('1', '5')),
        '\u{16}' => Some(('1', '6')),
        '\u{17}' => Some(('1', '7')),
        '\u{18}' => Some(('1', '8')),
        '\u{19}' => Some(('1', '9')),
        '\u{1a}' => Some(('1', 'a')),
        '\u{1b}' => Some(('1', 'b')),
        '\u{1c}' => Some(('1', 'c')),
        '\u{1d}' => Some(('1', 'd')),
        '\u{1e}' => Some(('1', 'e')),
        '\u{1f}' => Some(('1', 'f')),
        _ => None,
    }
}

/// Appends `"s"` (quoted, escaped) to `out`.
pub(crate) fn write_quoted(s: &str, out: &mut String)
    ensures
        final(out)@ == old(out)@ + quoted(s@),
{
    push_char(out, '"');
    write_escaped(s, out);
    push_char(out, '"');
}

impl JVal {
    /// Serializes the value into `out`, in the compact form `text_of` gives.
    #[verifier::loop_isolation(false)]
    #[verifier::rlimit(40)]
    pub fn write(&self, out: &mut String)
        ensures
            final(out)@ == old(out)@ + text_of(*self),
        decreases *self, 1int,
    {
        match self {
            JVal::Null => {
                out.append("null");
                proof {
                    reveal_strlit("null");
                    assert(out@ =~= old(out)@ + text_of(*self));
                }
            },
            JVal::Bool(b) => {
                if *b {
                    out.append("true");
                } else {
                    out.append("false");
                }
                proof {
                    reveal_strlit("true");
                    reveal_strlit("false");
                    assert(out@ =~= old(out)@ + text_of(*self));
                }
            },
            JVal::Num(s) => {
                out.append(s.as_str());
            },
            JVal::Str(s) => {
                write_quoted(s.as_str(), out);
            },
            JVal::Arr(items) => {
                push_char(out, '[');
                let mut i: usize = 0;
                while i < items.len()
                    invariant
                        i <= items.len(),
                        out@ == old(out)@ + seq!['['] + text_of_items(items@.take(i as int)),
                    decreases items.len() - i,
                {
                    if i > 0 {
                        push_char(out, ',');
                    }
                    self.write_item(items, i, out);
                    proof {
                        assert(items@.take(i + 1).drop_last() =~= items@.take(i as int));
                        assert(items@.take(i + 1).last() == items@[i as int]);
                        assert(out@ =~= old(out)@ + seq!['['] + text_of_items(items@.take(i + 1)));
                    }
                    i = i + 1;
                }
                push_char(out, ']');
                proof {
                    assert(items@.take(items@.len() as int) =~= items@);
                    assert(out@ =~= old(out)@ + text_of(*self));
                }
            },
            JVal::Obj(fields) => {
                push_char(out, '{');
                let mut i: usize = 0;
                while i < fields.len()
                    invariant
                        i <= fields.len(),
                        out@ == old(out)@ + seq!['{'] + text_of_fields(fields@.take(i as int)),
                    decreases fields.len() - i,
                {
                    if i > 0 {
                        push_char(out, ',');
                    }
                    write_quoted(fields[i].0.as_str(), out);
                    push_char(out, ':');
                    self.write_field(fields, i, out);
                    proof {
                        assert(fields@.take(i + 1).drop_last() =~= fields@.take(i as int));
                        assert(fields@.take(i + 1).last() == fields@[i as int]);
                        assert(out@ =~= old(out)@ + seq!['{'] + text_of_fields(fields@.take(i + 1)));
                    }
                    i = i + 1;
                }
                push_char(out, '}');
                proof {
                    assert(fields@.take(fields@.len() as int) =~= fields@);
                    assert(out@ =~= old(out)@ + text_of(*self));
                }
            },
        }
    }

    /// Serializes one array element; split out so the recursion's measure is
    /// visibly a sub-value of `self`.
    fn write_item(&self, items: &Vec<JVal>, i: usize, out: &mut String)
        requires
            self matches JVal::Arr(its) && its@ == items@,
            i < items@.len(),
        ensures
            final(out)@ == old(out)@ + text_of(items@[i as int]),
        decreases *self, 0int,
    {
        items[i].write(out);
    }

    /// Serializes one object field value, as `write_item` does for arrays.
    fn write_field(&self, fields: &Vec<(String, JVal)>, i: usize, out: &mut String)
        requires
            self matches JVal::Obj(fs) && fs@ == fields@,
            i < fields@.len(),
        ensures
            final(out)@ == old(out)@ + text_of(fields@[i as int].1),
        decreases *self, 0int,
    {
        fields[i].1.write(out);
    }

    /// The full compact JSON text of the value.
    pub fn to_text(&self) -> (r: String)
        ensures
            r@ == text_of(*self),
    {
        let mut out = String::new();
        self.write(&mut out);
        out
    }

    /// The first field with the given key, when this value is an object.
    #[verifier::loop_isolation(false)]
    pub fn get<'a>(&'a self, key: &str) -> (r: Option<&'a JVal>)
        ensures
            match r {
                Some(f) => spec_get(*self, key@) == Some(*f),
                None => spec_get(*self, key@) is None,
            },
    {
        let k = key.to_owned();
        match self {
            JVal::Obj(fields) => {
                proof {
                    assert(fields@.skip(0) =~= fields@);
                }
                let mut i: usize = 0;
                while i < fields.len()
                    invariant
                        i <= fields.len(),
                        spec_get_fields(fields@, key@) == spec_get_fields(
                            fields@.skip(i as int),
                            key@,
                        ),
                        forall|j: int| 0 <= j < i ==> fields@[j].0@ != key@,
                    decreases fields.len() - i,
                {
                    if fields[i].0.eq(&k) {
                        proof {
                            assert(fields@.skip(i as int)[0] == fields@[i as int]);
                        }
                        return Some(&fields[i].1);
                    }
                    proof {
                        assert(fields@.skip(i as int).drop_first() =~= fields@.skip(i + 1));
                        assert(fields@.skip(i as int)[0] == fields@[i as int]);
                    }
                    i = i + 1;
                }
                proof {
                    assert(fields@.skip(fields@.len() as int).len() == 0);
                }
                None
            },
            _ => None,
        }
    }

    /// The string content, when this value is a string.
    pub fn as_str_val<'a>(&'a self) -> (r: Option<&'a String>)
        ensures
            match r {
                Some(s) => spec_as_str(Some(*self)) == Some(s@),
                None => spec_as_str(Some(*self)) is None,
            },
    {
        match self {
            JVal::Str(s) => Some(s),
            _ => None,
        }
    }
}

#[verifier::external_type_specification]
#[verifier::external_body]
pub struct ExValue(serde_json::Value);

/// Relies on serde_json::Value's variants: each one moves to the matching
/// constructor of the library's own tree, one arm per variant, numbers
/// keeping their decimal rendering.
#[verifier::external_body]
pub(crate) fn value_tree(v: &serde_json::Value) -> JVal {
    match v {
        serde_json::Value::Null => JVal::Null,
        serde_json::Value::Bool(b) => JVal::Bool(*b),
        serde_json::Value::Number(n) => JVal::Num(n.to_string()),
        serde_json::Value::String(s) => JVal::Str(s.clone()),
        serde_json::Value::Array(a) => JVal::Arr(a.iter().map(value_tree).collect()),
        serde_json::Value::Object(m) => JVal::Obj(
            m.iter().map(|(k, x)| (k.clone(), value_tree(x))).collect(),
        ),
    }
}

/// The document tree a text parses to, nothing for invalid JSON: a
/// function of the text alone, named so that callers of the parser can
/// carry exact contracts through it.
pub uninterp spec fn json_of(s: Seq<char>) -> Option<JVal>;

/// Relies on serde_json::from_str: a document tree for valid JSON text,
/// nothing for anything else. The result depends on the text alone, so it
/// carries the name `json_of`.
#[verifier::external_body]
pub(crate) fn parse_json(s: &str) -> (r: Option<JVal>)
    ensures
        r == json_of(s@),
{
    serde_json::from_str::<serde_json::Value>(s).ok().map(|v| value_tree(&v))
}

} // verus!
