//! JSON, as the stored records, the tools' answers and the hook's output spell
//! it.

use vstd::prelude::*;
use vstd::string::*;

use crate::fence;
use crate::text;

verus! {

#[verifier::external_type_specification]
#[verifier::external_body]
pub struct ExJsonError(serde_json::Error);

/// How one character stands inside a JSON string.
pub open spec fn json_char(c: char) -> Seq<char> {
    if c == '"' {
        seq!['\\', '"']
    } else if c == '\\' {
        seq!['\\', '\\']
    } else if c == '\u{8}' {
        seq!['\\', 'b']
    } else if c == '\t' {
        seq!['\\', 't']
    } else if c == '\n' {
        seq!['\\', 'n']
    } else if c == '\u{c}' {
        seq!['\\', 'f']
    } else if c == '\r' {
        seq!['\\', 'r']
    } else if ' ' > c {
        seq![
            '\\',
            'u',
            '0',
            '0',
            fence::hex_digit(c as int / 16),
            fence::hex_digit(c as int % 16),
        ]
    } else {
        seq![c]
    }
}

/// What stands between the quotes of the JSON string for `s`.
pub open spec fn json_chars(s: Seq<char>) -> Seq<char>
    decreases s.len(),
{
    if s.len() == 0 {
        seq![]
    } else {
        json_char(s[0]) + json_chars(s.skip(1))
    }
}

/// The JSON string for `s`, quotes included.
pub open spec fn json_text(s: Seq<char>) -> Seq<char> {
    seq!['"'] + json_chars(s) + seq!['"']
}

/// Calls `serde_json::to_string` on a string slice. The result is that text as
/// a JSON string: quotes around it, a backslash before each quote and
/// backslash, the short escapes for backspace, tab, line feed, form feed and
/// carriage return, `\u00` and two lowercase digits for the other characters
/// below the space, and every other character as it is. It never fails:
/// writing a string slice into memory has no error to report.
#[verifier::external_body]
pub(crate) fn json_string(content: &str) -> (res: Result<String, serde_json::Error>)
    ensures
        res is Ok,
        res->Ok_0@ == json_text(content@),
{
    serde_json::to_string(content)
}

/// The JSON string for `content`.
pub fn quoted(content: &str) -> (res: String)
    ensures
        res@ == json_text(content@),
{
    match json_string(content) {
        Ok(text) => text,
        Err(_) => vstd::pervasive::unreached(),
    }
}

/// A member of a JSON object, given its value's text.
pub open spec fn member_text(name: Seq<char>, value: Seq<char>) -> Seq<char> {
    json_text(name) + ": "@ + value
}

/// A member of a JSON object, given its value's text.
pub fn member(name: &str, value: &str) -> (res: String)
    ensures
        res@ == member_text(name@, value@),
{
    let mut out = quoted(name);
    out.append(": ");
    out.append(value);
    assert(out@ == member_text(name@, value@));
    out
}

/// Parts between brackets, each on a line of its own and one step further in
/// than `pad`, which is how far in the line is that the brackets open on.
pub open spec fn bracketed(
    open: Seq<char>,
    parts: Seq<Seq<char>>,
    close: Seq<char>,
    pad: Seq<char>,
) -> Seq<char> {
    if parts.len() == 0 {
        open + close
    } else {
        open + "\n"@ + text::joined(
            parts.map_values(|p: Seq<char>| pad + "  "@ + p),
            ",\n"@,
        ) + "\n"@ + pad + close
    }
}

/// A JSON array of these items.
pub open spec fn list_text(items: Seq<Seq<char>>, pad: Seq<char>) -> Seq<char> {
    bracketed("["@, items, "]"@, pad)
}

/// A JSON object with these members.
pub open spec fn object_text(members: Seq<Seq<char>>, pad: Seq<char>) -> Seq<char> {
    bracketed("{"@, members, "}"@, pad)
}

fn bracket(open: &str, parts: &Vec<String>, close: &str, pad: &str) -> (res: String)
    ensures
        res@ == bracketed(open@, text::texts(parts@), close@, pad@),
{
    let mut out = String::new();
    out.append(open);
    if parts.len() > 0 {
        let mut lines: Vec<String> = Vec::new();
        let mut i: usize = 0;
        while i < parts.len()
            invariant
                i <= parts.len(),
                lines@.len() == i,
                forall|k: int| 0 <= k < i ==> (#[trigger] lines@[k])@ == pad@ + "  "@ + parts@[k]@,
            decreases parts.len() - i,
        {
            let mut line = String::new();
            line.append(pad);
            line.append("  ");
            line.append(parts[i].as_str());
            assert(line@ == pad@ + "  "@ + parts@[i as int]@);
            lines.push(line);
            i += 1;
        }
        assert(text::texts(lines@) == text::texts(parts@).map_values(
            |p: Seq<char>| pad@ + "  "@ + p,
        ));
        out.append("\n");
        out.append(text::join(&lines, ",\n").as_str());
        out.append("\n");
        out.append(pad);
    }
    out.append(close);
    assert(out@ == bracketed(open@, text::texts(parts@), close@, pad@));
    out
}

/// A JSON array of these items.
pub fn list(items: &Vec<String>, pad: &str) -> (res: String)
    ensures
        res@ == list_text(text::texts(items@), pad@),
{
    bracket("[", items, "]", pad)
}

/// A JSON object with these members.
pub fn object(members: &Vec<String>, pad: &str) -> (res: String)
    ensures
        res@ == object_text(text::texts(members@), pad@),
{
    bracket("{", members, "}", pad)
}

/// How JSON spells a truth value.
pub open spec fn truth_text(b: bool) -> Seq<char> {
    if b {
        "true"@
    } else {
        "false"@
    }
}

/// How JSON spells a truth value.
pub fn truth(b: bool) -> (res: &'static str)
    ensures
        res@ == truth_text(b),
{
    if b {
        "true"
    } else {
        "false"
    }
}

proof fn lemma_json_char_is_a_code(c: char, d: char, u: Seq<char>, v: Seq<char>)
    requires
        json_char(c) + u == json_char(d) + v,
    ensures
        c == d,
        u == v,
{
    let a = json_char(c) + u;
    let b = json_char(d) + v;
    assert(a[0] == json_char(c)[0]);
    assert(b[0] == json_char(d)[0]);
    if json_char(c).len() > 1 && json_char(d).len() > 1 {
        assert(a[1] == json_char(c)[1]);
        assert(b[1] == json_char(d)[1]);
        if json_char(c).len() == 6 && json_char(d).len() == 6 {
            assert(a[4] == json_char(c)[4]);
            assert(b[4] == json_char(d)[4]);
            assert(a[5] == json_char(c)[5]);
            assert(b[5] == json_char(d)[5]);
        }
    }
    assert(c == d);
    assert(a.skip(json_char(c).len() as int) == u);
    assert(b.skip(json_char(d).len() as int) == v);
}

proof fn lemma_json_chars_end_at_the_quote(a: Seq<char>, b: Seq<char>, x: Seq<char>, y: Seq<char>)
    requires
        json_chars(a) + (seq!['"'] + x) == json_chars(b) + (seq!['"'] + y),
    ensures
        a == b,
        x == y,
    decreases a.len(),
{
    let p = json_chars(a) + (seq!['"'] + x);
    let q = json_chars(b) + (seq!['"'] + y);
    if a.len() == 0 {
        assert(p[0] == '"');
        if b.len() > 0 {
            assert(q[0] == json_char(b[0])[0]);
        }
        assert(p == seq!['"'] + x);
        assert(q == seq!['"'] + y);
        assert(p.skip(1) == x);
        assert(q.skip(1) == y);
        assert(a == b);
    } else if b.len() == 0 {
        assert(q[0] == '"');
        assert(p[0] == json_char(a[0])[0]);
    } else {
        let u = json_chars(a.skip(1)) + (seq!['"'] + x);
        let v = json_chars(b.skip(1)) + (seq!['"'] + y);
        assert(p == json_char(a[0]) + u);
        assert(q == json_char(b[0]) + v);
        lemma_json_char_is_a_code(a[0], b[0], u, v);
        lemma_json_chars_end_at_the_quote(a.skip(1), b.skip(1), x, y);
        assert(a == seq![a[0]] + a.skip(1));
        assert(b == seq![b[0]] + b.skip(1));
    }
}

/// **A JSON string says what it holds and where it ends**: no two texts share
/// one, and none is the start of another's.
pub proof fn law_json_strings_are_unambiguous(
    a: Seq<char>,
    b: Seq<char>,
    x: Seq<char>,
    y: Seq<char>,
)
    requires
        json_text(a) + x == json_text(b) + y,
    ensures
        a == b,
        x == y,
{
    let p = json_text(a) + x;
    let q = json_text(b) + y;
    assert(p.skip(1) == json_chars(a) + (seq!['"'] + x));
    assert(q.skip(1) == json_chars(b) + (seq!['"'] + y));
    lemma_json_chars_end_at_the_quote(a, b, x, y);
}

} // verus!
