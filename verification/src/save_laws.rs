//! What saving is for: what is refused and why, what is kept, and where it is
//! filed, said of what the caller handed in.

use vstd::prelude::*;

use crate::json;
use crate::record::{KeyErrorView, KeyView, MemoryType, RecordView};
use crate::record;
use crate::record_laws;
use crate::server::{SaveParams, ToolErrorView};
use crate::server;
use crate::text;
use crate::text_laws;

verus! {

// ---------------------------------------------------------------------------
// Limits
// ---------------------------------------------------------------------------

/// **A save of a known type is refused exactly where it is too large**: its name
/// over 120 characters, its description over 300, its body over 16 KiB, more
/// than 32 links, or a link over 120 characters. Each limit stands for itself,
/// whatever the rest of the memory holds.
pub proof fn law_a_save_is_refused_exactly_over_a_limit(p: SaveParams)
    requires
        record::parsed_type(p.kind@) is Some,
    ensures
        server::save_refusal(p) is Some <==> {
            ||| p.name@.len() > 120
            ||| p.description@.len() > 300
            ||| vstd::utf8::encode_utf8(p.body@).len() > 16384
            ||| p.links@.len() > 32
            ||| exists|i: int| 0 <= i < p.links@.len() && (#[trigger] p.links@[i])@.len() > 120
        },
{
    let links = text::texts(p.links@);
    if exists|i: int| 0 <= i < p.links@.len() && (#[trigger] p.links@[i])@.len() > 120 {
        let i = choose|i: int| 0 <= i < p.links@.len() && (#[trigger] p.links@[i])@.len() > 120;
        assert(links[i].len() > 120);
    }
    if record::has_long_link(links) {
        let i = choose|i: int|
            0 <= i < links.len() && (#[trigger] links[i]).len() > record::MAX_LINK_CHARS;
        assert(p.links@[i]@.len() > 120);
    }
}

/// **A refusal names the limit that was broken**, the first of them in the order
/// that a memory is written in.
pub proof fn law_a_refusal_names_the_limit(p: SaveParams)
    requires
        record::parsed_type(p.kind@) is Some,
    ensures
        p.name@.len() > 120 ==> server::save_refusal(p) == Some(
            ToolErrorView::InvalidParams("name is over 120 characters"@),
        ),
        p.name@.len() <= 120 && p.description@.len() > 300 ==> server::save_refusal(p) == Some(
            ToolErrorView::InvalidParams("description is over 300 characters"@),
        ),
        p.name@.len() <= 120 && p.description@.len() <= 300 && vstd::utf8::encode_utf8(
            p.body@,
        ).len() > 16384 ==> server::save_refusal(p) == Some(
            ToolErrorView::InvalidParams("body is over 16 KiB"@),
        ),
        p.name@.len() <= 120 && p.description@.len() <= 300 && vstd::utf8::encode_utf8(
            p.body@,
        ).len() <= 16384 && p.links@.len() > 32 ==> server::save_refusal(p) == Some(
            ToolErrorView::InvalidParams("there are more than 32 links"@),
        ),
        p.name@.len() <= 120 && p.description@.len() <= 300 && vstd::utf8::encode_utf8(
            p.body@,
        ).len() <= 16384 && p.links@.len() <= 32 && server::save_refusal(p) is Some
            ==> server::save_refusal(p) == Some(
            ToolErrorView::InvalidParams("a link is over 120 characters"@),
        ),
{
}

/// **A save of a type nobody knows is refused, and says so.**
pub proof fn law_an_unknown_type_is_refused(p: SaveParams)
    requires
        record::parsed_type(p.kind@) is None,
    ensures
        server::save_refusal(p) == Some(
            ToolErrorView::InvalidParams(
                "unknown memory type `"@ + p.kind@
                    + "`; expected user, feedback, project or reference"@,
            ),
        ),
{
}

/// **What is saved is what was handed in**, field by field.
pub proof fn law_what_is_saved_is_what_was_handed_in(
    p: SaveParams,
    kind: MemoryType,
    updated_at: Seq<char>,
)
    ensures
        ({
            let r = server::record_asked(p, kind, updated_at);
            &&& r.v == 1
            &&& r.name == p.name@
            &&& r.kind == kind
            &&& r.description == p.description@
            &&& r.body == p.body@
            &&& r.links.len() == p.links@.len()
            &&& forall|i: int| 0 <= i < p.links@.len() ==> #[trigger] r.links[i] == p.links@[i]@
            &&& r.updated_at == updated_at
        }),
{
}

/// **A record's own limits are those of a save.**
pub proof fn law_a_record_is_too_large_exactly_over_a_limit(r: RecordView)
    ensures
        record::broken_limit(r) is Some <==> {
            ||| r.name.len() > 120
            ||| r.description.len() > 300
            ||| vstd::utf8::encode_utf8(r.body).len() > 16384
            ||| r.links.len() > 32
            ||| exists|i: int| 0 <= i < r.links.len() && (#[trigger] r.links[i]).len() > 120
        },
{
}

// ---------------------------------------------------------------------------
// Types and keys
// ---------------------------------------------------------------------------

/// **There are four types, by four names**, read whatever their case and the
/// white space around them, and nothing else is a type.
pub proof fn law_four_names_name_the_four_types(s: Seq<char>)
    ensures
        ({
            let bare = text::lowered(text::trimmed(s));
            &&& record::parsed_type(s) == Some(MemoryType::User) <==> bare == "user"@
            &&& record::parsed_type(s) == Some(MemoryType::Feedback) <==> bare == "feedback"@
            &&& record::parsed_type(s) == Some(MemoryType::Project) <==> bare == "project"@
            &&& record::parsed_type(s) == Some(MemoryType::Reference) <==> bare == "reference"@
        }),
        MemoryType::User.name() == "user"@,
        MemoryType::Feedback.name() == "feedback"@,
        MemoryType::Project.name() == "project"@,
        MemoryType::Reference.name() == "reference"@,
{
    reveal_strlit("user");
    reveal_strlit("feedback");
    reveal_strlit("project");
    reveal_strlit("reference");
    assert("user"@.len() == 4);
    assert("feedback"@.len() == 8);
    assert("project"@.len() == 7);
    assert("reference"@.len() == 9);
}

/// **A key is spelt `<type>/<slug>`.**
pub proof fn law_a_key_is_spelt_type_and_slug(key: KeyView)
    ensures
        key.text() == key.kind.name() + "/"@ + key.slug,
        record::key_prefix(key.kind) == key.kind.name() + "/"@,
{
}

/// **A stored key reads as the type before its first slash and the slug behind
/// it**, and where it does not, the error says which part was at fault.
pub proof fn law_a_stored_key_is_read_at_its_first_slash(before: Seq<char>, after: Seq<char>)
    requires
        forall|i: int| 0 <= i < before.len() ==> #[trigger] before[i] != '/',
    ensures
        record::parsed_key(before) == Err::<KeyView, KeyErrorView>(KeyErrorView::Malformed(before)),
        record::raw_type(before) is None,
        ({
            let raw = before + seq!['/'] + after;
            &&& record::raw_type(raw) == record::parsed_type(before)
            &&& record::parsed_key(raw) == match record::parsed_type(before) {
                None => Err::<KeyView, KeyErrorView>(KeyErrorView::UnknownType(before)),
                Some(kind) => if after.len() == 0 {
                    Err(KeyErrorView::EmptySlug(raw))
                } else {
                    Ok(KeyView { kind, slug: after })
                },
            }
        }),
{
    let raw = before + seq!['/'] + after;
    text::lemma_run_before_is(before, '/', before.len());
    assert(raw[before.len() as int] == '/');
    assert forall|i: int| 0 <= i < before.len() implies #[trigger] raw[i] != '/' by {
        assert(raw[i] == before[i]);
    }
    text::lemma_run_before_is(raw, '/', before.len());
    assert(raw.take(before.len() as int) == before);
    assert(raw.skip(before.len() as int + 1) == after);
}

/// **A memory is filed under its own type and the words of its own name**: the
/// key holds all of them, lowered and in order, with a hyphen between each two.
pub proof fn law_a_memory_is_filed_under_its_name(kind: MemoryType, name: Seq<char>)
    ensures
        match record::named_key(kind, name) {
            Ok(key) => {
                &&& text::words(name).len() > 0
                &&& key.kind == kind
                &&& text::words(key.slug) == text::words(name)
                &&& key.slug == text::joined(text::words(name), "-"@)
            },
            Err(e) => text::words(name).len() == 0 && e == KeyErrorView::EmptySlug(name),
        },
{
    record_laws::law_a_slug_keeps_the_words(name);
    record_laws::law_a_name_needs_a_word(kind, name);
}

/// **A slug is made part by part**: one word is itself, lowered, and what is no
/// letter and no digit becomes a hyphen where there are words on both sides.
pub proof fn law_a_slug_is_made_part_by_part(a: Seq<char>, c: char, b: Seq<char>)
    requires
        !text::is_alnum(c),
    ensures
        text_laws::all_alnum(a) ==> record::slug(a) == text::lowered(a),
        record::slug(a + seq![c] + b) == if text::words(a).len() == 0 {
            record::slug(b)
        } else if text::words(b).len() == 0 {
            record::slug(a)
        } else {
            record::slug(a) + "-"@ + record::slug(b)
        },
{
    text_laws::law_anything_else_parts_words(a, c, b);
    text_laws::law_joining_puts_the_separator_between(text::words(a), text::words(b), "-"@);
    if text_laws::all_alnum(a) {
        text_laws::law_letters_on_end_are_one_word(a);
        assert(text::lowered(a).len() == 0 ==> text::lowered(a) == Seq::<char>::empty());
    }
    if text::words(a).len() == 0 {
        assert(text::words(a) + text::words(b) == text::words(b));
    }
    if text::words(b).len() == 0 {
        assert(text::words(a) + text::words(b) == text::words(a));
    }
}

// ---------------------------------------------------------------------------
// The stored value
// ---------------------------------------------------------------------------

/// **A stored value is one JSON object with each field whole**: seven members,
/// each under its own name, parted by commas.
pub proof fn law_a_stored_value_holds_each_field(r: RecordView)
    ensures
        record::wire_text(r) == "{"@ + text::joined(
            seq![
                "\"v\":"@ + text::decimal(r.v as nat),
                "\"name\":"@ + json::json_text(r.name),
                "\"type\":"@ + ("\""@ + r.kind.name() + "\""@),
                "\"description\":"@ + json::json_text(r.description),
                "\"body\":"@ + json::json_text(r.body),
                "\"links\":"@ + ("["@ + text::joined(
                    r.links.map_values(|l: Seq<char>| json::json_text(l)),
                    ","@,
                ) + "]"@),
                "\"updatedAt\":"@ + json::json_text(r.updated_at),
            ],
            ","@,
        ) + "}"@,
{
    let links = text::joined(r.links.map_values(|l: Seq<char>| json::json_text(l)), ","@);
    let parts = seq![
        "\"v\":"@ + text::decimal(r.v as nat),
        "\"name\":"@ + json::json_text(r.name),
        "\"type\":"@ + ("\""@ + r.kind.name() + "\""@),
        "\"description\":"@ + json::json_text(r.description),
        "\"body\":"@ + json::json_text(r.body),
        "\"links\":"@ + ("["@ + links + "]"@),
        "\"updatedAt\":"@ + json::json_text(r.updated_at),
    ];
    let c = ","@;
    let end = "}"@;
    let t6 = parts[6] + end;
    let t5 = parts[5] + (c + t6);
    let t4 = parts[4] + (c + t5);
    let t3 = parts[3] + (c + t4);
    let t2 = parts[2] + (c + t3);
    let t1 = parts[1] + (c + t2);
    let t0 = parts[0] + (c + t1);
    lemma_seven_joined(parts, c, end);
    lemma_member_names();
    record_laws::lemma_wire_parts(r);
    assert(record::json_links(r.links) == r.links.map_values(|l: Seq<char>| json::json_text(l)));
    let u = json::json_text(r.updated_at);
    lemma_member(c, "\"updatedAt\":"@, u, end);
    lemma_bracketed_member(c, "\"links\":"@, "["@, links, "]"@, c + t6);
    lemma_member(c, "\"body\":"@, json::json_text(r.body), c + t5);
    lemma_member(c, "\"description\":"@, json::json_text(r.description), c + t4);
    lemma_bracketed_member(c, "\"type\":"@, "\""@, r.kind.name(), "\""@, c + t3);
    lemma_member(c, "\"name\":"@, json::json_text(r.name), c + t2);
    lemma_member("{"@, "\"v\":"@, text::decimal(r.v as nat), c + t1);
    assert(seq![','] + ("\"name\":"@ + (json::json_text(r.name) + (c + t2))) == c + t1) by {
        lemma_regroup(c, "\"name\":"@, json::json_text(r.name) + (c + t2));
    }
    assert(record::wire_text(r) == "{"@ + t0);
    lemma_regroup("{"@, text::joined(parts, c), end);
}

proof fn lemma_regroup(a: Seq<char>, b: Seq<char>, c: Seq<char>)
    ensures
        a + (b + c) == (a + b) + c,
{
}

proof fn lemma_member(sep: Seq<char>, name: Seq<char>, value: Seq<char>, rest: Seq<char>)
    ensures
        (sep + name) + (value + rest) == sep + ((name + value) + rest),
{
}

proof fn lemma_bracketed_member(
    sep: Seq<char>,
    name: Seq<char>,
    open: Seq<char>,
    value: Seq<char>,
    close: Seq<char>,
    rest: Seq<char>,
)
    ensures
        (sep + name + open) + (value + (close + rest)) == sep + ((name + (open + value + close))
            + rest),
{
}

proof fn lemma_member_names()
    ensures
        "{\"v\":"@ == "{"@ + "\"v\":"@,
        ",\"name\":"@ == ","@ + "\"name\":"@,
        ",\"type\":\""@ == ","@ + "\"type\":"@ + "\""@,
        ",\"description\":"@ == ","@ + "\"description\":"@,
        ",\"body\":"@ == ","@ + "\"body\":"@,
        ",\"links\":["@ == ","@ + "\"links\":"@ + "["@,
        ",\"updatedAt\":"@ == ","@ + "\"updatedAt\":"@,
        ","@ == seq![','],
        "\""@ == seq!['"'],
        "]"@ == seq![']'],
{
    reveal_strlit("{");
    reveal_strlit("\"v\":");
    reveal_strlit("{\"v\":");
    reveal_strlit(",");
    reveal_strlit("\"");
    reveal_strlit("[");
    reveal_strlit("]");
    reveal_strlit("\"name\":");
    reveal_strlit(",\"name\":");
    reveal_strlit("\"type\":");
    reveal_strlit(",\"type\":\"");
    reveal_strlit("\"description\":");
    reveal_strlit(",\"description\":");
    reveal_strlit("\"body\":");
    reveal_strlit(",\"body\":");
    reveal_strlit("\"links\":");
    reveal_strlit(",\"links\":[");
    reveal_strlit("\"updatedAt\":");
    reveal_strlit(",\"updatedAt\":");
    assert("{\"v\":"@ == "{"@ + "\"v\":"@);
    assert(",\"name\":"@ == ","@ + "\"name\":"@);
    assert(",\"type\":\""@ == ","@ + "\"type\":"@ + "\""@);
    assert(",\"description\":"@ == ","@ + "\"description\":"@);
    assert(",\"body\":"@ == ","@ + "\"body\":"@);
    assert(",\"links\":["@ == ","@ + "\"links\":"@ + "["@);
    assert(",\"updatedAt\":"@ == ","@ + "\"updatedAt\":"@);
    assert(","@ == seq![',']);
    assert("\""@ == seq!['"']);
    assert("]"@ == seq![']']);
}

proof fn lemma_joined_before(parts: Seq<Seq<char>>, sep: Seq<char>, end: Seq<char>, k: int)
    requires
        0 <= k < parts.len() - 1,
    ensures
        text::joined(parts.skip(k), sep) + end == parts[k] + (sep + (text::joined(
            parts.skip(k + 1),
            sep,
        ) + end)),
{
    let rest = parts.skip(k);
    text_laws::law_joining_puts_the_separator_between(seq![parts[k]], parts.skip(k + 1), sep);
    assert(rest == seq![parts[k]] + parts.skip(k + 1));
}

pub proof fn lemma_seven_joined(parts: Seq<Seq<char>>, sep: Seq<char>, end: Seq<char>)
    requires
        parts.len() == 7,
    ensures
        text::joined(parts, sep) + end == parts[0] + (sep + (parts[1] + (sep + (parts[2] + (sep + (
        parts[3] + (sep + (parts[4] + (sep + (parts[5] + (sep + (parts[6] + end)))))))))))),
{
    lemma_joined_before(parts, sep, end, 0);
    lemma_joined_before(parts, sep, end, 1);
    lemma_joined_before(parts, sep, end, 2);
    lemma_joined_before(parts, sep, end, 3);
    lemma_joined_before(parts, sep, end, 4);
    lemma_joined_before(parts, sep, end, 5);
    assert(parts.skip(0) == parts);
    assert(text::joined(parts.skip(6), sep) == parts[6]);
}

// ---------------------------------------------------------------------------
// Values from elsewhere
// ---------------------------------------------------------------------------

/// **The description that stands in for a value from elsewhere is its first
/// line**: without the white space at its ends, and whole unless it is over 120
/// characters, when the first 117 and an ellipsis stand for it.
pub proof fn law_a_stand_in_description_is_the_first_line(line: Seq<char>, rest: Seq<char>)
    requires
        forall|i: int| 0 <= i < line.len() ==> #[trigger] line[i] != '\n',
    ensures
        record::first_line_of(line + seq!['\n'] + rest) == record::first_line_of(line),
        text::trimmed(line).len() <= 120 ==> record::first_line_of(line) == text::trimmed(line),
        text::trimmed(line).len() > 120 ==> record::first_line_of(line) == text::trimmed(line).take(
            117,
        ).push('…'),
{
    let s = line + seq!['\n'] + rest;
    text::lemma_run_before_is(line, '\n', line.len());
    assert(s[line.len() as int] == '\n');
    assert forall|i: int| 0 <= i < line.len() implies #[trigger] s[i] != '\n' by {
        assert(s[i] == line[i]);
    }
    text::lemma_run_before_is(s, '\n', line.len());
    assert(s.take(line.len() as int) == line);
    assert(line.take(line.len() as int) == line);
}

/// **A value that holds a record is that record, and one that holds none is kept
/// whole**, as a reference under the slug it was filed under.
pub proof fn law_a_value_is_its_record_or_is_kept_whole(
    key: KeyView,
    value: Seq<char>,
    parsed: Option<RecordView>,
)
    ensures
        parsed matches Some(r) ==> record::decoded(key, value, parsed) == r,
        parsed is None ==> record::decoded(key, value, parsed) == (RecordView {
            v: 0,
            name: key.slug,
            kind: MemoryType::Reference,
            description: record::first_line_of(value),
            body: value,
            links: seq![],
            updated_at: seq![],
        }),
{
}

} // verus!
