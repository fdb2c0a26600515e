//! What the tools' answers are for: every field of a reply stands in the JSON,
//! whole and under its own name, and whoever reads the JSON can have the reply
//! back.

use vstd::prelude::*;

use crate::answers;
use crate::fence;
use crate::fence_laws;
use crate::json;
use crate::record::{MemoryDetail, MemorySummary, SummaryView};
use crate::record;
use crate::record_laws;
use crate::save_laws;
use crate::server::{
    ContextReply, FencedAnswer, ForgetReply, ListReply, RecallReply, SaveReply,
};
use crate::server;
use crate::text;
use crate::text_laws;

verus! {

// ---------------------------------------------------------------------------
// JSON
// ---------------------------------------------------------------------------

/// What stands between brackets in front of their closing one, on a line that
/// stands `pad` in.
pub open spec fn line_end(pad: Seq<char>, close: Seq<char>) -> Seq<char> {
    "\n"@ + pad + close
}

proof fn lemma_brackets_grow(
    open: Seq<char>,
    parts: Seq<Seq<char>>,
    x: Seq<char>,
    close: Seq<char>,
    pad: Seq<char>,
)
    ensures
        json::bracketed(open, Seq::empty(), close, pad) == open + close,
        json::bracketed(open, seq![x], close, pad) == open + "\n"@ + pad + "  "@ + x + "\n"@ + pad
            + close,
        parts.len() > 0 ==> exists|shown: Seq<char>|
            #![trigger shown + line_end(pad, close)]
            json::bracketed(open, parts, close, pad) == shown + line_end(pad, close)
                && json::bracketed(open, parts.push(x), close, pad) == shown + (",\n"@ + pad + "  "@
                + x) + line_end(pad, close),
{
    let f = |p: Seq<char>| pad + "  "@ + p;
    let one = seq![x].map_values(f);
    assert(one.len() == 1 && one[0] == pad + "  "@ + x);
    assert(text::joined(one, ",\n"@) == pad + "  "@ + x);
    assert(json::bracketed(open, seq![x], close, pad) == open + "\n"@ + pad + "  "@ + x + "\n"@
        + pad + close);
    if parts.len() > 0 {
        let lines = parts.map_values(f);
        let more = parts.push(x).map_values(f);
        assert(more.drop_last() == lines);
        assert(more.last() == pad + "  "@ + x);
        let shown = open + "\n"@ + text::joined(lines, ",\n"@);
        assert(json::bracketed(open, parts, close, pad) == shown + line_end(pad, close));
        assert(text::joined(more, ",\n"@) == text::joined(lines, ",\n"@) + ",\n"@ + (pad + "  "@
            + x));
        assert(json::bracketed(open, parts.push(x), close, pad) == shown + (",\n"@ + pad + "  "@
            + x) + line_end(pad, close));
    }
}

/// **An array shows every item, each on a line of its own**: it starts with
/// nothing between its brackets, and each further item adds its own line and a
/// comma, and changes nothing before it.
pub proof fn law_an_array_shows_every_item(
    items: Seq<Seq<char>>,
    x: Seq<char>,
    pad: Seq<char>,
)
    ensures
        json::list_text(Seq::empty(), pad) == "["@ + "]"@,
        json::list_text(seq![x], pad) == "["@ + "\n"@ + pad + "  "@ + x + "\n"@ + pad + "]"@,
        items.len() > 0 ==> exists|shown: Seq<char>|
            #![trigger shown + line_end(pad, "]"@)]
            json::list_text(items, pad) == shown + line_end(pad, "]"@) && json::list_text(
                items.push(x),
                pad,
            ) == shown + (",\n"@ + pad + "  "@ + x) + line_end(pad, "]"@),
{
    lemma_brackets_grow("["@, items, x, "]"@, pad);
}

/// **An object shows every member, each on a line of its own**, in the same way.
pub proof fn law_an_object_shows_every_member(
    members: Seq<Seq<char>>,
    x: Seq<char>,
    pad: Seq<char>,
)
    ensures
        json::object_text(Seq::empty(), pad) == "{"@ + "}"@,
        json::object_text(seq![x], pad) == "{"@ + "\n"@ + pad + "  "@ + x + "\n"@ + pad + "}"@,
        members.len() > 0 ==> exists|shown: Seq<char>|
            #![trigger shown + line_end(pad, "}"@)]
            json::object_text(members, pad) == shown + line_end(pad, "}"@) && json::object_text(
                members.push(x),
                pad,
            ) == shown + (",\n"@ + pad + "  "@ + x) + line_end(pad, "}"@),
{
    lemma_brackets_grow("{"@, members, x, "}"@, pad);
}

/// A character that stands for itself in a JSON string.
pub open spec fn is_bare(c: char) -> bool {
    c as int >= 32 && c != '"' && c != '\\'
}

/// **A text of ordinary characters stands in its JSON string as it is.**
pub proof fn law_ordinary_text_is_its_own_json(s: Seq<char>)
    requires
        forall|i: int| 0 <= i < s.len() ==> is_bare(#[trigger] s[i]),
    ensures
        json::json_text(s) == seq!['"'] + s + seq!['"'],
    decreases s.len(),
{
    if s.len() == 0 {
        assert(json::json_chars(s) == s);
    } else {
        let rest = s.skip(1);
        assert forall|i: int| 0 <= i < rest.len() implies is_bare(#[trigger] rest[i]) by {
            assert(rest[i] == s[i + 1]);
        }
        law_ordinary_text_is_its_own_json(rest);
        assert(is_bare(s[0]));
        assert(json::json_char(s[0]) == seq![s[0]]);
        let quoted = json::json_text(rest);
        assert(quoted.subrange(1, quoted.len() - 1) == rest);
        assert(quoted.subrange(1, quoted.len() - 1) == json::json_chars(rest));
        assert(s == seq![s[0]] + rest);
        assert(json::json_chars(s) == s);
    }
}

/// **A JSON string shows every character in its turn**: as itself, or escaped
/// where it has to be.
pub proof fn law_a_json_string_shows_every_character(a: Seq<char>, b: Seq<char>)
    ensures
        json::json_chars(a + b) == json::json_chars(a) + json::json_chars(b),
        json::json_text(a) == "\""@ + json::json_chars(a) + "\""@,
    decreases a.len(),
{
    reveal_strlit("\"");
    assert("\""@ == seq!['"']);
    if a.len() == 0 {
        assert(a + b == b);
        assert(json::json_chars(a) + json::json_chars(b) == json::json_chars(b));
    } else {
        law_a_json_string_shows_every_character(a.skip(1), b);
        assert((a + b).skip(1) == a.skip(1) + b);
        assert((a + b)[0] == a[0]);
        assert(json::json_char(a[0]) + (json::json_chars(a.skip(1)) + json::json_chars(b)) == (
        json::json_char(a[0]) + json::json_chars(a.skip(1))) + json::json_chars(b));
    }
}

/// The name of a member as it stands in the JSON.
proof fn lemma_member_name(name: Seq<char>, written: Seq<char>)
    requires
        forall|i: int| 0 <= i < name.len() ==> is_bare(#[trigger] name[i]),
        written == seq!['"'] + name + seq!['"', ':', ' '],
    ensures
        forall|value: Seq<char>| #[trigger]
            json::member_text(name, value) == written + value,
{
    reveal_strlit(": ");
    law_ordinary_text_is_its_own_json(name);
    assert(": "@ == seq![':', ' ']);
    assert forall|value: Seq<char>| #[trigger]
        json::member_text(name, value) == written + value by {
        assert(json::member_text(name, value) == written + value);
    }
}

proof fn lemma_named_body()
    ensures
        forall|value: Seq<char>| #[trigger]
            json::member_text("body"@, value) == "\"body\": "@ + value,
{
    reveal_strlit("body");
    reveal_strlit("\"body\": ");
    assert("\"body\": "@ == seq!['"'] + "body"@ + seq!['"', ':', ' ']);
    lemma_member_name("body"@, "\"body\": "@);
}

proof fn lemma_named_connected()
    ensures
        forall|value: Seq<char>| #[trigger]
            json::member_text("connected"@, value) == "\"connected\": "@ + value,
{
    reveal_strlit("connected");
    reveal_strlit("\"connected\": ");
    assert("\"connected\": "@ == seq!['"'] + "connected"@ + seq!['"', ':', ' ']);
    lemma_member_name("connected"@, "\"connected\": "@);
}

proof fn lemma_named_context_id()
    ensures
        forall|value: Seq<char>| #[trigger]
            json::member_text("contextId"@, value) == "\"contextId\": "@ + value,
{
    reveal_strlit("contextId");
    reveal_strlit("\"contextId\": ");
    assert("\"contextId\": "@ == seq!['"'] + "contextId"@ + seq!['"', ':', ' ']);
    lemma_member_name("contextId"@, "\"contextId\": "@);
}

proof fn lemma_named_count()
    ensures
        forall|value: Seq<char>| #[trigger]
            json::member_text("count"@, value) == "\"count\": "@ + value,
{
    reveal_strlit("count");
    reveal_strlit("\"count\": ");
    assert("\"count\": "@ == seq!['"'] + "count"@ + seq!['"', ':', ' ']);
    lemma_member_name("count"@, "\"count\": "@);
}

proof fn lemma_named_description()
    ensures
        forall|value: Seq<char>| #[trigger]
            json::member_text("description"@, value) == "\"description\": "@ + value,
{
    reveal_strlit("description");
    reveal_strlit("\"description\": ");
    assert("\"description\": "@ == seq!['"'] + "description"@ + seq!['"', ':', ' ']);
    lemma_member_name("description"@, "\"description\": "@);
}

proof fn lemma_named_forgotten()
    ensures
        forall|value: Seq<char>| #[trigger]
            json::member_text("forgotten"@, value) == "\"forgotten\": "@ + value,
{
    reveal_strlit("forgotten");
    reveal_strlit("\"forgotten\": ");
    assert("\"forgotten\": "@ == seq!['"'] + "forgotten"@ + seq!['"', ':', ' ']);
    lemma_member_name("forgotten"@, "\"forgotten\": "@);
}

proof fn lemma_named_identity()
    ensures
        forall|value: Seq<char>| #[trigger]
            json::member_text("identity"@, value) == "\"identity\": "@ + value,
{
    reveal_strlit("identity");
    reveal_strlit("\"identity\": ");
    assert("\"identity\": "@ == seq!['"'] + "identity"@ + seq!['"', ':', ' ']);
    lemma_member_name("identity"@, "\"identity\": "@);
}

proof fn lemma_named_key()
    ensures
        forall|value: Seq<char>| #[trigger]
            json::member_text("key"@, value) == "\"key\": "@ + value,
{
    reveal_strlit("key");
    reveal_strlit("\"key\": ");
    assert("\"key\": "@ == seq!['"'] + "key"@ + seq!['"', ':', ' ']);
    lemma_member_name("key"@, "\"key\": "@);
}

proof fn lemma_named_limit()
    ensures
        forall|value: Seq<char>| #[trigger]
            json::member_text("limit"@, value) == "\"limit\": "@ + value,
{
    reveal_strlit("limit");
    reveal_strlit("\"limit\": ");
    assert("\"limit\": "@ == seq!['"'] + "limit"@ + seq!['"', ':', ' ']);
    lemma_member_name("limit"@, "\"limit\": "@);
}

proof fn lemma_named_links()
    ensures
        forall|value: Seq<char>| #[trigger]
            json::member_text("links"@, value) == "\"links\": "@ + value,
{
    reveal_strlit("links");
    reveal_strlit("\"links\": ");
    assert("\"links\": "@ == seq!['"'] + "links"@ + seq!['"', ':', ' ']);
    lemma_member_name("links"@, "\"links\": "@);
}

proof fn lemma_named_memories()
    ensures
        forall|value: Seq<char>| #[trigger]
            json::member_text("memories"@, value) == "\"memories\": "@ + value,
{
    reveal_strlit("memories");
    reveal_strlit("\"memories\": ");
    assert("\"memories\": "@ == seq!['"'] + "memories"@ + seq!['"', ':', ' ']);
    lemma_member_name("memories"@, "\"memories\": "@);
}

proof fn lemma_named_name()
    ensures
        forall|value: Seq<char>| #[trigger]
            json::member_text("name"@, value) == "\"name\": "@ + value,
{
    reveal_strlit("name");
    reveal_strlit("\"name\": ");
    assert("\"name\": "@ == seq!['"'] + "name"@ + seq!['"', ':', ' ']);
    lemma_member_name("name"@, "\"name\": "@);
}

proof fn lemma_named_next_offset()
    ensures
        forall|value: Seq<char>| #[trigger]
            json::member_text("nextOffset"@, value) == "\"nextOffset\": "@ + value,
{
    reveal_strlit("nextOffset");
    reveal_strlit("\"nextOffset\": ");
    assert("\"nextOffset\": "@ == seq!['"'] + "nextOffset"@ + seq!['"', ':', ' ']);
    lemma_member_name("nextOffset"@, "\"nextOffset\": "@);
}

proof fn lemma_named_note()
    ensures
        forall|value: Seq<char>| #[trigger]
            json::member_text("note"@, value) == "\"note\": "@ + value,
{
    reveal_strlit("note");
    reveal_strlit("\"note\": ");
    assert("\"note\": "@ == seq!['"'] + "note"@ + seq!['"', ':', ' ']);
    lemma_member_name("note"@, "\"note\": "@);
}

proof fn lemma_named_offset()
    ensures
        forall|value: Seq<char>| #[trigger]
            json::member_text("offset"@, value) == "\"offset\": "@ + value,
{
    reveal_strlit("offset");
    reveal_strlit("\"offset\": ");
    assert("\"offset\": "@ == seq!['"'] + "offset"@ + seq!['"', ':', ' ']);
    lemma_member_name("offset"@, "\"offset\": "@);
}

proof fn lemma_named_saved()
    ensures
        forall|value: Seq<char>| #[trigger]
            json::member_text("saved"@, value) == "\"saved\": "@ + value,
{
    reveal_strlit("saved");
    reveal_strlit("\"saved\": ");
    assert("\"saved\": "@ == seq!['"'] + "saved"@ + seq!['"', ':', ' ']);
    lemma_member_name("saved"@, "\"saved\": "@);
}

proof fn lemma_named_total()
    ensures
        forall|value: Seq<char>| #[trigger]
            json::member_text("total"@, value) == "\"total\": "@ + value,
{
    reveal_strlit("total");
    reveal_strlit("\"total\": ");
    assert("\"total\": "@ == seq!['"'] + "total"@ + seq!['"', ':', ' ']);
    lemma_member_name("total"@, "\"total\": "@);
}

proof fn lemma_named_trust()
    ensures
        forall|value: Seq<char>| #[trigger]
            json::member_text("trust"@, value) == "\"trust\": "@ + value,
{
    reveal_strlit("trust");
    reveal_strlit("\"trust\": ");
    assert("\"trust\": "@ == seq!['"'] + "trust"@ + seq!['"', ':', ' ']);
    lemma_member_name("trust"@, "\"trust\": "@);
}

proof fn lemma_named_trust_task_transport()
    ensures
        forall|value: Seq<char>| #[trigger]
            json::member_text("trustTaskTransport"@, value) == "\"trustTaskTransport\": "@ + value,
{
    reveal_strlit("trustTaskTransport");
    reveal_strlit("\"trustTaskTransport\": ");
    assert("\"trustTaskTransport\": "@ == seq!['"'] + "trustTaskTransport"@ + seq!['"', ':', ' ']);
    lemma_member_name("trustTaskTransport"@, "\"trustTaskTransport\": "@);
}

proof fn lemma_named_type()
    ensures
        forall|value: Seq<char>| #[trigger]
            json::member_text("type"@, value) == "\"type\": "@ + value,
{
    reveal_strlit("type");
    reveal_strlit("\"type\": ");
    assert("\"type\": "@ == seq!['"'] + "type"@ + seq!['"', ':', ' ']);
    lemma_member_name("type"@, "\"type\": "@);
}

proof fn lemma_named_updated_at()
    ensures
        forall|value: Seq<char>| #[trigger]
            json::member_text("updatedAt"@, value) == "\"updatedAt\": "@ + value,
{
    reveal_strlit("updatedAt");
    reveal_strlit("\"updatedAt\": ");
    assert("\"updatedAt\": "@ == seq!['"'] + "updatedAt"@ + seq!['"', ':', ' ']);
    lemma_member_name("updatedAt"@, "\"updatedAt\": "@);
}

proof fn lemma_named_vta_did()
    ensures
        forall|value: Seq<char>| #[trigger]
            json::member_text("vtaDid"@, value) == "\"vtaDid\": "@ + value,
{
    reveal_strlit("vtaDid");
    reveal_strlit("\"vtaDid\": ");
    assert("\"vtaDid\": "@ == seq!['"'] + "vtaDid"@ + seq!['"', ':', ' ']);
    lemma_member_name("vtaDid"@, "\"vtaDid\": "@);
}

proof fn lemma_joined_indented(parts: Seq<Seq<char>>, sep: Seq<char>, pre: Seq<char>)
    requires
        parts.len() > 0,
    ensures
        text::joined(parts.map_values(|p: Seq<char>| pre + p), sep) == pre + text::joined(
            parts,
            sep + pre,
        ),
    decreases parts.len(),
{
    let f = |p: Seq<char>| pre + p;
    let lines = parts.map_values(f);
    if parts.len() == 1 {
        assert(lines[0] == pre + parts[0]);
    } else {
        lemma_joined_indented(parts.drop_last(), sep, pre);
        assert(lines.drop_last() == parts.drop_last().map_values(f));
        assert(lines.last() == pre + parts.last());
        let head = text::joined(parts.drop_last(), sep + pre);
        assert(pre + head + sep + (pre + parts.last()) == pre + (head + (sep + pre)
            + parts.last()));
    }
}

/// **An object is its members, one to a line**, each as far in as the others.
pub proof fn law_an_object_is_its_members(members: Seq<Seq<char>>, pad: Seq<char>)
    requires
        members.len() > 0,
    ensures
        json::object_text(members, pad) == "{"@ + "\n"@ + (pad + "  "@) + text::joined(
            members,
            ",\n"@ + (pad + "  "@),
        ) + "\n"@ + pad + "}"@,
{
    let pre = pad + "  "@;
    lemma_joined_indented(members, ",\n"@, pre);
    assert(members.map_values(|p: Seq<char>| pad + "  "@ + p) == members.map_values(
        |p: Seq<char>| pre + p,
    ));
    assert("{"@ + "\n"@ + (pre + text::joined(members, ",\n"@ + pre)) + "\n"@ + pad + "}"@ == "{"@
        + "\n"@ + pre + text::joined(members, ",\n"@ + pre) + "\n"@ + pad + "}"@);
}

// ---------------------------------------------------------------------------
// Replies
// ---------------------------------------------------------------------------

/// **A summary is written out field by field**, each whole and under its own
/// name.
pub proof fn law_a_summary_is_written_out(s: SummaryView, pad: Seq<char>)
    ensures
        answers::summary_text(s, pad) == "{"@ + "\n"@ + (pad + "  "@) + text::joined(
            seq![
                "\"description\": "@ + json::json_text(s.description),
                "\"key\": "@ + json::json_text(s.key),
                "\"links\": "@ + json::list_text(s.links.map_values(|l: Seq<char>| json::json_text(l)), pad + "  "@),
                "\"name\": "@ + json::json_text(s.name),
                "\"trust\": "@ + json::json_text(s.trust),
                "\"type\": "@ + json::json_text(s.kind.name()),
                "\"updatedAt\": "@ + json::json_text(s.updated_at),
            ],
            ",\n"@ + (pad + "  "@),
        ) + "\n"@ + pad + "}"@,
{
    lemma_named_description();
    lemma_named_key();
    lemma_named_links();
    lemma_named_name();
    lemma_named_trust();
    lemma_named_type();
    lemma_named_updated_at();
    assert(record::json_links(s.links) == s.links.map_values(|l: Seq<char>| json::json_text(l)));
    assert(answers::summary_members(s, pad).len() == 7);
    let members = seq![
        "\"description\": "@ + json::json_text(s.description),
        "\"key\": "@ + json::json_text(s.key),
        "\"links\": "@ + json::list_text(s.links.map_values(|l: Seq<char>| json::json_text(l)), pad + "  "@),
        "\"name\": "@ + json::json_text(s.name),
        "\"trust\": "@ + json::json_text(s.trust),
        "\"type\": "@ + json::json_text(s.kind.name()),
        "\"updatedAt\": "@ + json::json_text(s.updated_at),
    ];
    law_an_object_is_its_members(members, pad);
    assert(answers::summary_text(s, pad) == json::object_text(members, pad));
}

/// **One memory in full is written out with its whole body**, and with every
/// field of its summary.
pub proof fn law_one_memory_is_written_out(d: MemoryDetail)
    ensures
        answers::detail_text(d) == "{"@ + "\n"@ + (""@ + "  "@) + text::joined(
            seq![
                "\"body\": "@ + json::json_text(d.body@),
                "\"description\": "@ + json::json_text(d.summary@.description),
                "\"key\": "@ + json::json_text(d.summary@.key),
                "\"links\": "@ + json::list_text(d.summary@.links.map_values(|l: Seq<char>| json::json_text(l)), ""@ + "  "@),
                "\"name\": "@ + json::json_text(d.summary@.name),
                "\"trust\": "@ + json::json_text(d.summary@.trust),
                "\"type\": "@ + json::json_text(d.summary@.kind.name()),
                "\"updatedAt\": "@ + json::json_text(d.summary@.updated_at),
            ],
            ",\n"@ + (""@ + "  "@),
        ) + "\n"@ + ""@ + "}"@,
{
    lemma_named_body();
    lemma_named_description();
    lemma_named_key();
    lemma_named_links();
    lemma_named_name();
    lemma_named_trust();
    lemma_named_type();
    lemma_named_updated_at();
    assert(record::json_links(d.summary@.links) == d.summary@.links.map_values(
        |l: Seq<char>| json::json_text(l),
    ));
    let members = seq![
        "\"body\": "@ + json::json_text(d.body@),
        "\"description\": "@ + json::json_text(d.summary@.description),
        "\"key\": "@ + json::json_text(d.summary@.key),
        "\"links\": "@ + json::list_text(d.summary@.links.map_values(|l: Seq<char>| json::json_text(l)), ""@ + "  "@),
        "\"name\": "@ + json::json_text(d.summary@.name),
        "\"trust\": "@ + json::json_text(d.summary@.trust),
        "\"type\": "@ + json::json_text(d.summary@.kind.name()),
        "\"updatedAt\": "@ + json::json_text(d.summary@.updated_at),
    ];
    law_an_object_is_its_members(members, ""@);
    assert(seq![json::member_text("body"@, json::json_text(d.body@))] + answers::summary_members(
        d.summary@,
        ""@,
    ) == members);
    assert(answers::detail_text(d) == json::object_text(members, ""@));
}

/// **What recalling answers is written out**: the context, how many there are,
/// and the summary of each.
pub proof fn law_a_recall_is_written_out(r: RecallReply)
    ensures
        answers::recall_text(r) == "{"@ + "\n"@ + (""@ + "  "@) + text::joined(
            seq![
                "\"contextId\": "@ + json::json_text(r.context_id@),
                "\"count\": "@ + text::decimal(r.count as nat),
                "\"memories\": "@ + json::list_text(r.memories@.map_values(|m: MemorySummary| answers::summary_text(m@, "    "@)), "  "@),
            ],
            ",\n"@ + (""@ + "  "@),
        ) + "\n"@ + ""@ + "}"@,
{
    lemma_named_context_id();
    lemma_named_count();
    lemma_named_memories();
    lemma_each_is_summed_up(r.memories@);
    let members = seq![
        "\"contextId\": "@ + json::json_text(r.context_id@),
        "\"count\": "@ + text::decimal(r.count as nat),
        "\"memories\": "@ + json::list_text(r.memories@.map_values(|m: MemorySummary| answers::summary_text(m@, "    "@)), "  "@),
    ];
    law_an_object_is_its_members(members, ""@);
    assert(answers::recall_text(r) == json::object_text(members, ""@));
}

/// **What listing answers is written out**: the context, which page it is, where
/// the next one starts, and the summary of each entry.
pub proof fn law_a_listing_is_written_out(r: ListReply)
    ensures
        answers::list_text(r) == "{"@ + "\n"@ + (""@ + "  "@) + text::joined(
            seq![
                "\"contextId\": "@ + json::json_text(r.context_id@),
                "\"count\": "@ + text::decimal(r.count as nat),
                "\"limit\": "@ + text::decimal(r.limit as nat),
                "\"memories\": "@ + json::list_text(r.memories@.map_values(|m: MemorySummary| answers::summary_text(m@, "    "@)), "  "@),
                "\"nextOffset\": "@ + (match r.next_offset {
                    Some(at) => text::decimal(at as nat),
                    None => "null"@,
                }),
                "\"offset\": "@ + text::decimal(r.offset as nat),
                "\"total\": "@ + text::decimal(r.total as nat),
            ],
            ",\n"@ + (""@ + "  "@),
        ) + "\n"@ + ""@ + "}"@,
{
    lemma_named_context_id();
    lemma_named_count();
    lemma_named_limit();
    lemma_named_memories();
    lemma_named_next_offset();
    lemma_named_offset();
    lemma_named_total();
    lemma_each_is_summed_up(r.memories@);
    let members = seq![
        "\"contextId\": "@ + json::json_text(r.context_id@),
        "\"count\": "@ + text::decimal(r.count as nat),
        "\"limit\": "@ + text::decimal(r.limit as nat),
        "\"memories\": "@ + json::list_text(r.memories@.map_values(|m: MemorySummary| answers::summary_text(m@, "    "@)), "  "@),
        "\"nextOffset\": "@ + (match r.next_offset {
                    Some(at) => text::decimal(at as nat),
                    None => "null"@,
                }),
        "\"offset\": "@ + text::decimal(r.offset as nat),
        "\"total\": "@ + text::decimal(r.total as nat),
    ];
    law_an_object_is_its_members(members, ""@);
    assert(seq![
        json::member_text("contextId"@, json::json_text(r.context_id@)),
        json::member_text("count"@, text::decimal(r.count as nat)),
        json::member_text("limit"@, text::decimal(r.limit as nat)),
        json::member_text(
            "memories"@,
            answers::summaries_text(server::summary_views(r.memories@)),
        ),
        json::member_text("nextOffset"@, answers::next_text(r.next_offset)),
        json::member_text("offset"@, text::decimal(r.offset as nat)),
        json::member_text("total"@, text::decimal(r.total as nat)),
    ] == members);
    assert(answers::list_text(r) == json::object_text(members, ""@));
}

/// **What saving answers is written out.**
pub proof fn law_a_save_is_written_out(r: SaveReply)
    ensures
        answers::save_text(r) == "{"@ + "\n"@ + (""@ + "  "@) + text::joined(
            seq![
                "\"contextId\": "@ + json::json_text(r.context_id@),
                "\"key\": "@ + json::json_text(r.key@),
                "\"saved\": "@ + (if r.saved {
                    "true"@
                } else {
                    "false"@
                }),
            ],
            ",\n"@ + (""@ + "  "@),
        ) + "\n"@ + ""@ + "}"@,
{
    lemma_named_context_id();
    lemma_named_key();
    lemma_named_saved();
    let members = seq![
        "\"contextId\": "@ + json::json_text(r.context_id@),
        "\"key\": "@ + json::json_text(r.key@),
        "\"saved\": "@ + (if r.saved {
                    "true"@
                } else {
                    "false"@
                }),
    ];
    law_an_object_is_its_members(members, ""@);
    assert(answers::save_text(r) == json::object_text(members, ""@));
}

/// **What forgetting answers is written out.**
pub proof fn law_a_forgetting_is_written_out(r: ForgetReply)
    ensures
        answers::forget_text(r) == "{"@ + "\n"@ + (""@ + "  "@) + text::joined(
            seq![
                "\"contextId\": "@ + json::json_text(r.context_id@),
                "\"forgotten\": "@ + (if r.forgotten {
                    "true"@
                } else {
                    "false"@
                }),
                "\"key\": "@ + json::json_text(r.key@),
            ],
            ",\n"@ + (""@ + "  "@),
        ) + "\n"@ + ""@ + "}"@,
{
    lemma_named_context_id();
    lemma_named_forgotten();
    lemma_named_key();
    let members = seq![
        "\"contextId\": "@ + json::json_text(r.context_id@),
        "\"forgotten\": "@ + (if r.forgotten {
                    "true"@
                } else {
                    "false"@
                }),
        "\"key\": "@ + json::json_text(r.key@),
    ];
    law_an_object_is_its_members(members, ""@);
    assert(answers::forget_text(r) == json::object_text(members, ""@));
}

/// **Where the memories are is written out.**
pub proof fn law_the_context_is_written_out(r: ContextReply)
    ensures
        answers::context_text(r) == "{"@ + "\n"@ + (""@ + "  "@) + text::joined(
            seq![
                "\"connected\": "@ + (if r.connected {
                    "true"@
                } else {
                    "false"@
                }),
                "\"contextId\": "@ + json::json_text(r.context_id@),
                "\"identity\": "@ + json::json_text(r.identity@),
                "\"note\": "@ + json::json_text(r.note@),
                "\"trustTaskTransport\": "@ + (match r.trust_task_transport {
                    Some(t) => json::json_text(t@),
                    None => "null"@,
                }),
                "\"vtaDid\": "@ + json::json_text(r.vta_did@),
            ],
            ",\n"@ + (""@ + "  "@),
        ) + "\n"@ + ""@ + "}"@,
{
    lemma_named_connected();
    lemma_named_context_id();
    lemma_named_identity();
    lemma_named_note();
    lemma_named_trust_task_transport();
    lemma_named_vta_did();
    let members = seq![
        "\"connected\": "@ + (if r.connected {
                    "true"@
                } else {
                    "false"@
                }),
        "\"contextId\": "@ + json::json_text(r.context_id@),
        "\"identity\": "@ + json::json_text(r.identity@),
        "\"note\": "@ + json::json_text(r.note@),
        "\"trustTaskTransport\": "@ + (match r.trust_task_transport {
                    Some(t) => json::json_text(t@),
                    None => "null"@,
                }),
        "\"vtaDid\": "@ + json::json_text(r.vta_did@),
    ];
    law_an_object_is_its_members(members, ""@);
    assert(seq![
        json::member_text("connected"@, json::truth_text(r.connected)),
        json::member_text("contextId"@, json::json_text(r.context_id@)),
        json::member_text("identity"@, json::json_text(r.identity@)),
        json::member_text("note"@, json::json_text(r.note@)),
        json::member_text("trustTaskTransport"@, answers::transport_text(r.trust_task_transport)),
        json::member_text("vtaDid"@, json::json_text(r.vta_did@)),
    ] == members);
    assert(answers::context_text(r) == json::object_text(members, ""@));
}

proof fn lemma_each_is_summed_up(all: Seq<MemorySummary>)
    ensures
        answers::summaries_text(server::summary_views(all)) == json::list_text(
            all.map_values(|m: MemorySummary| answers::summary_text(m@, "    "@)),
            "  "@,
        ),
{
    assert(server::summary_views(all).map_values(|s: SummaryView| answers::summary_text(s, "    "@))
        == all.map_values(|m: MemorySummary| answers::summary_text(m@, "    "@)));
}

// ---------------------------------------------------------------------------
// Reading answers back
// ---------------------------------------------------------------------------

/// A joined text holds each of its parts.
pub proof fn lemma_joined_holds_its_parts(parts: Seq<Seq<char>>, sep: Seq<char>, i: int)
    requires
        0 <= i < parts.len(),
    ensures
        text::contains_text(text::joined(parts, sep), parts[i]),
    decreases parts.len(),
{
    let none = Seq::<char>::empty();
    if parts.len() == 1 {
        text_laws::lemma_holds_its_middle(none, parts[0], none);
        assert(none + parts[0] + none == parts[0]);
    } else {
        let head = text::joined(parts.drop_last(), sep);
        if i == parts.len() - 1 {
            text_laws::lemma_holds_its_middle(head + sep, parts.last(), none);
            assert(head + sep + parts.last() + none == text::joined(parts, sep));
        } else {
            lemma_joined_holds_its_parts(parts.drop_last(), sep, i);
            text_laws::lemma_holds_what_its_parts_hold(none, head, sep + parts.last(), parts[i]);
            assert(none + head + (sep + parts.last()) == text::joined(parts, sep));
        }
    }
}

proof fn lemma_brackets_hold_their_parts(
    open: Seq<char>,
    parts: Seq<Seq<char>>,
    close: Seq<char>,
    pad: Seq<char>,
    i: int,
)
    requires
        0 <= i < parts.len(),
    ensures
        text::contains_text(json::bracketed(open, parts, close, pad), parts[i]),
{
    let lines = parts.map_values(|p: Seq<char>| pad + "  "@ + p);
    let none = Seq::<char>::empty();
    let all = text::joined(lines, ",\n"@);
    text_laws::lemma_holds_its_middle(pad + "  "@, parts[i], none);
    assert(pad + "  "@ + parts[i] + none == lines[i]);
    lemma_joined_holds_its_parts(lines, ",\n"@, i);
    text_laws::lemma_holding_goes_on(all, lines[i], parts[i]);
    text_laws::lemma_holds_what_its_parts_hold(
        open + "\n"@,
        all,
        "\n"@ + pad + close,
        parts[i],
    );
    assert(open + "\n"@ + all + ("\n"@ + pad + close) == json::bracketed(open, parts, close, pad));
}

/// **Reading one memory gives its whole body**: the answer holds the JSON string
/// of all of it, under its name.
pub proof fn law_the_whole_body_is_answered(d: MemoryDetail)
    ensures
        text::contains_text(answers::detail_text(d), "\"body\": "@ + json::json_text(d.body@)),
{
    lemma_named_body();
    let members = seq![json::member_text("body"@, json::json_text(d.body@))]
        + answers::summary_members(d.summary@, ""@);
    lemma_brackets_hold_their_parts("{"@, members, "}"@, ""@, 0);
}

/// **Every memory that recall returns is in its answer**, as the JSON of its own
/// summary.
pub proof fn law_every_hit_is_answered(r: RecallReply, i: int)
    requires
        0 <= i < r.memories@.len(),
    ensures
        text::contains_text(
            answers::recall_text(r),
            answers::summary_text(r.memories@[i]@, "    "@),
        ),
{
    let all = server::summary_views(r.memories@);
    let shown = all.map_values(|s: SummaryView| answers::summary_text(s, "    "@));
    let members = seq![
        json::member_text("contextId"@, json::json_text(r.context_id@)),
        json::member_text("count"@, text::decimal(r.count as nat)),
        json::member_text("memories"@, answers::summaries_text(all)),
    ];
    lemma_a_list_in_a_member("memories"@, shown, "  "@, i);
    lemma_brackets_hold_their_parts("{"@, members, "}"@, ""@, 2);
    text_laws::lemma_holding_goes_on(answers::recall_text(r), members[2], shown[i]);
}

/// **Every memory on a page is in the answer**, as the JSON of its own summary.
pub proof fn law_every_listed_memory_is_answered(r: ListReply, i: int)
    requires
        0 <= i < r.memories@.len(),
    ensures
        text::contains_text(
            answers::list_text(r),
            answers::summary_text(r.memories@[i]@, "    "@),
        ),
{
    let all = server::summary_views(r.memories@);
    let shown = all.map_values(|s: SummaryView| answers::summary_text(s, "    "@));
    let members = seq![
        json::member_text("contextId"@, json::json_text(r.context_id@)),
        json::member_text("count"@, text::decimal(r.count as nat)),
        json::member_text("limit"@, text::decimal(r.limit as nat)),
        json::member_text("memories"@, answers::summaries_text(all)),
        json::member_text("nextOffset"@, answers::next_text(r.next_offset)),
        json::member_text("offset"@, text::decimal(r.offset as nat)),
        json::member_text("total"@, text::decimal(r.total as nat)),
    ];
    lemma_a_list_in_a_member("memories"@, shown, "  "@, i);
    lemma_brackets_hold_their_parts("{"@, members, "}"@, ""@, 3);
    text_laws::lemma_holding_goes_on(answers::list_text(r), members[3], shown[i]);
}

proof fn lemma_a_list_in_a_member(
    name: Seq<char>,
    items: Seq<Seq<char>>,
    pad: Seq<char>,
    i: int,
)
    requires
        0 <= i < items.len(),
    ensures
        text::contains_text(json::member_text(name, json::list_text(items, pad)), items[i]),
{
    let none = Seq::<char>::empty();
    let listed = json::list_text(items, pad);
    lemma_brackets_hold_their_parts("["@, items, "]"@, pad, i);
    text_laws::lemma_holds_what_its_parts_hold(
        json::json_text(name) + ": "@,
        listed,
        none,
        items[i],
    );
    assert(json::json_text(name) + ": "@ + listed + none == json::member_text(name, listed));
}

/// **A summary's answer holds each of its fields whole**, under its name.
pub proof fn law_every_field_of_a_summary_is_answered(s: SummaryView, pad: Seq<char>)
    ensures
        ({
            let shown = answers::summary_text(s, pad);
            &&& text::contains_text(shown, "\"key\": "@ + json::json_text(s.key))
            &&& text::contains_text(shown, "\"name\": "@ + json::json_text(s.name))
            &&& text::contains_text(shown, "\"type\": "@ + json::json_text(s.kind.name()))
            &&& text::contains_text(shown, "\"description\": "@ + json::json_text(s.description))
            &&& text::contains_text(shown, "\"updatedAt\": "@ + json::json_text(s.updated_at))
            &&& text::contains_text(shown, "\"trust\": "@ + json::json_text(s.trust))
            &&& forall|i: int|
                0 <= i < s.links.len() ==> text::contains_text(
                    shown,
                    json::json_text(#[trigger] s.links[i]),
                )
        }),
{
    lemma_named_description();
    lemma_named_key();
    lemma_named_name();
    lemma_named_trust();
    lemma_named_type();
    lemma_named_updated_at();
    let members = answers::summary_members(s, pad);
    let shown = answers::summary_text(s, pad);
    lemma_brackets_hold_their_parts("{"@, members, "}"@, pad, 0);
    lemma_brackets_hold_their_parts("{"@, members, "}"@, pad, 1);
    lemma_brackets_hold_their_parts("{"@, members, "}"@, pad, 2);
    lemma_brackets_hold_their_parts("{"@, members, "}"@, pad, 3);
    lemma_brackets_hold_their_parts("{"@, members, "}"@, pad, 4);
    lemma_brackets_hold_their_parts("{"@, members, "}"@, pad, 5);
    lemma_brackets_hold_their_parts("{"@, members, "}"@, pad, 6);
    let links = record::json_links(s.links);
    assert forall|i: int| 0 <= i < s.links.len() implies text::contains_text(
        shown,
        json::json_text(#[trigger] s.links[i]),
    ) by {
        lemma_a_list_in_a_member("links"@, links, pad + "  "@, i);
        assert(links[i] == json::json_text(s.links[i]));
        text_laws::lemma_holding_goes_on(shown, members[2], links[i]);
    }
}

/// What is written tells what it was written for, whatever follows it.
pub open spec fn tells_apart<T>(write: spec_fn(T) -> Seq<char>) -> bool {
    forall|a: T, b: T, x: Seq<char>, y: Seq<char>|
        #![trigger write(a) + x, write(b) + y]
        write(a) + x == write(b) + y ==> a == b && x == y
}

proof fn lemma_items_tell_apart<T>(
    write: spec_fn(T) -> Seq<char>,
    a: Seq<T>,
    b: Seq<T>,
    sep: Seq<char>,
    x: Seq<char>,
    y: Seq<char>,
)
    requires
        tells_apart(write),
        a.len() > 0,
        b.len() > 0,
        sep.len() > 0,
        x.len() > 0,
        y.len() > 0,
        x[0] != sep[0],
        y[0] != sep[0],
        text::joined(a.map_values(write), sep) + x == text::joined(b.map_values(write), sep) + y,
    ensures
        a == b,
        x == y,
    decreases a.len(),
{
    let u = lemma_first_item(write, a, sep, x);
    let v = lemma_first_item(write, b, sep, y);
    assert(write(a[0]) + u == write(b[0]) + v);
    assert(u[0] == v[0]);
    if a.len() == 1 || b.len() == 1 {
        assert(a.len() == 1 && b.len() == 1);
        assert(a == b);
    } else {
        let ra = text::joined(a.skip(1).map_values(write), sep) + x;
        let rb = text::joined(b.skip(1).map_values(write), sep) + y;
        record_laws::lemma_same_beginning(sep, ra, rb);
        lemma_items_tell_apart(write, a.skip(1), b.skip(1), sep, x, y);
        assert(a == seq![a[0]] + a.skip(1));
        assert(b == seq![b[0]] + b.skip(1));
    }
}

proof fn lemma_first_item<T>(
    write: spec_fn(T) -> Seq<char>,
    a: Seq<T>,
    sep: Seq<char>,
    x: Seq<char>,
) -> (after: Seq<char>)
    requires
        a.len() > 0,
    ensures
        text::joined(a.map_values(write), sep) + x == write(a[0]) + after,
        after == if a.len() == 1 {
            x
        } else {
            sep + (text::joined(a.skip(1).map_values(write), sep) + x)
        },
{
    let w = a.map_values(write);
    assert(w[0] == write(a[0]));
    if a.len() == 1 {
        x
    } else {
        record_laws::lemma_joined_from_the_front(w, sep);
        assert(w.skip(1) == a.skip(1).map_values(write));
        let rest = text::joined(w.skip(1), sep);
        assert(w[0] + sep + rest + x == w[0] + (sep + (rest + x)));
        sep + (rest + x)
    }
}

proof fn lemma_lists_tell_apart<T>(
    write: spec_fn(T) -> Seq<char>,
    a: Seq<T>,
    b: Seq<T>,
    pad: Seq<char>,
    x: Seq<char>,
    y: Seq<char>,
)
    requires
        tells_apart(write),
        json::list_text(a.map_values(write), pad) + x == json::list_text(b.map_values(write), pad)
            + y,
    ensures
        a == b,
        x == y,
{
    reveal_strlit("[");
    reveal_strlit("]");
    reveal_strlit("\n");
    reveal_strlit(",\n");
    let p = json::list_text(a.map_values(write), pad) + x;
    let q = json::list_text(b.map_values(write), pad) + y;
    let pre = pad + "  "@;
    let sep = ",\n"@ + pre;
    let ex = "\n"@ + pad + "]"@ + x;
    let ey = "\n"@ + pad + "]"@ + y;
    if a.len() > 0 {
        lemma_a_list_is_its_items(a.map_values(write), pad, x);
        assert(p[1] == '\n');
    } else {
        assert(p == seq!['[', ']'] + x);
        assert(p[1] == ']');
    }
    if b.len() > 0 {
        lemma_a_list_is_its_items(b.map_values(write), pad, y);
        assert(q[1] == '\n');
    } else {
        assert(q == seq!['[', ']'] + y);
        assert(q[1] == ']');
    }
    if a.len() == 0 {
        assert(a == b);
        record_laws::lemma_same_beginning(seq!['[', ']'], x, y);
    } else {
        record_laws::lemma_same_beginning(
            "["@ + "\n"@ + pre,
            text::joined(a.map_values(write), sep) + ex,
            text::joined(b.map_values(write), sep) + ey,
        );
        assert(sep[0] == ',');
        assert(ex[0] == '\n');
        assert(ey[0] == '\n');
        lemma_items_tell_apart(write, a, b, sep, ex, ey);
        assert(ex == ("\n"@ + pad + "]"@) + x);
        record_laws::lemma_same_beginning("\n"@ + pad + "]"@, x, y);
    }
}

proof fn lemma_a_list_is_its_items(items: Seq<Seq<char>>, pad: Seq<char>, x: Seq<char>)
    requires
        items.len() > 0,
    ensures
        json::list_text(items, pad) + x == ("["@ + "\n"@ + (pad + "  "@)) + (text::joined(
            items,
            ",\n"@ + (pad + "  "@),
        ) + ("\n"@ + pad + "]"@ + x)),
{
    let pre = pad + "  "@;
    lemma_joined_indented(items, ",\n"@, pre);
    assert(items.map_values(|p: Seq<char>| pad + "  "@ + p) == items.map_values(
        |p: Seq<char>| pre + p,
    ));
    let all = text::joined(items, ",\n"@ + pre);
    assert("["@ + "\n"@ + (pre + all) + "\n"@ + pad + "]"@ + x == ("["@ + "\n"@ + pre) + (all + (
    "\n"@ + pad + "]"@ + x)));
}

proof fn lemma_strings_tell_apart()
    ensures
        tells_apart(|l: Seq<char>| json::json_text(l)),
{
    let write = |l: Seq<char>| json::json_text(l);
    assert forall|a: Seq<char>, b: Seq<char>, x: Seq<char>, y: Seq<char>|
        #![trigger write(a) + x, write(b) + y]
        write(a) + x == write(b) + y implies a == b && x == y by {
        json::law_json_strings_are_unambiguous(a, b, x, y);
    }
}

/// A member with a string for its value tells that string.
proof fn lemma_member_tells(name: Seq<char>, a: Seq<char>, b: Seq<char>, x: Seq<char>, y: Seq<char>)
    requires
        json::member_text(name, json::json_text(a)) + x == json::member_text(
            name,
            json::json_text(b),
        ) + y,
    ensures
        a == b,
        x == y,
{
    let head = json::json_text(name) + ": "@;
    assert(json::member_text(name, json::json_text(a)) + x == head + (json::json_text(a) + x));
    assert(json::member_text(name, json::json_text(b)) + y == head + (json::json_text(b) + y));
    record_laws::lemma_same_beginning(head, json::json_text(a) + x, json::json_text(b) + y);
    json::law_json_strings_are_unambiguous(a, b, x, y);
}

proof fn lemma_links_tell(
    a: Seq<Seq<char>>,
    b: Seq<Seq<char>>,
    pad: Seq<char>,
    x: Seq<char>,
    y: Seq<char>,
)
    requires
        json::member_text("links"@, json::list_text(record::json_links(a), pad)) + x
            == json::member_text("links"@, json::list_text(record::json_links(b), pad)) + y,
    ensures
        a == b,
        x == y,
{
    let head = json::json_text("links"@) + ": "@;
    let write = |l: Seq<char>| json::json_text(l);
    let la = json::list_text(record::json_links(a), pad);
    let lb = json::list_text(record::json_links(b), pad);
    assert(json::member_text("links"@, la) + x == head + (la + x));
    assert(json::member_text("links"@, lb) + y == head + (lb + y));
    record_laws::lemma_same_beginning(head, la + x, lb + y);
    lemma_strings_tell_apart();
    assert(record::json_links(a) == a.map_values(write));
    assert(record::json_links(b) == b.map_values(write));
    lemma_lists_tell_apart(write, a, b, pad, x, y);
}

proof fn lemma_members_tell(
    a: SummaryView,
    b: SummaryView,
    pad: Seq<char>,
    sep: Seq<char>,
    x: Seq<char>,
    y: Seq<char>,
)
    requires
        text::joined(answers::summary_members(a, pad), sep) + x == text::joined(
            answers::summary_members(b, pad),
            sep,
        ) + y,
    ensures
        a == b,
        x == y,
{
    let m = answers::summary_members(a, pad);
    let n = answers::summary_members(b, pad);
    save_laws::lemma_seven_joined(m, sep, x);
    save_laws::lemma_seven_joined(n, sep, y);
    let a6 = m[6] + x;
    let a5 = m[5] + (sep + a6);
    let a4 = m[4] + (sep + a5);
    let a3 = m[3] + (sep + a4);
    let a2 = m[2] + (sep + a3);
    let a1 = m[1] + (sep + a2);
    let b6 = n[6] + y;
    let b5 = n[5] + (sep + b6);
    let b4 = n[4] + (sep + b5);
    let b3 = n[3] + (sep + b4);
    let b2 = n[2] + (sep + b3);
    let b1 = n[1] + (sep + b2);
    lemma_member_tells("description"@, a.description, b.description, sep + a1, sep + b1);
    record_laws::lemma_same_beginning(sep, a1, b1);
    lemma_member_tells("key"@, a.key, b.key, sep + a2, sep + b2);
    record_laws::lemma_same_beginning(sep, a2, b2);
    lemma_links_tell(a.links, b.links, pad + "  "@, sep + a3, sep + b3);
    record_laws::lemma_same_beginning(sep, a3, b3);
    lemma_member_tells("name"@, a.name, b.name, sep + a4, sep + b4);
    record_laws::lemma_same_beginning(sep, a4, b4);
    lemma_member_tells("trust"@, a.trust, b.trust, sep + a5, sep + b5);
    record_laws::lemma_same_beginning(sep, a5, b5);
    lemma_member_tells("type"@, a.kind.name(), b.kind.name(), sep + a6, sep + b6);
    record_laws::lemma_same_beginning(sep, a6, b6);
    lemma_member_tells("updatedAt"@, a.updated_at, b.updated_at, x, y);
    record_laws::law_type_names_read_back(a.kind);
    record_laws::law_type_names_read_back(b.kind);
}

/// **Reading one memory tells the memory**: no two memories are answered alike,
/// so the answer gives back the whole body, the name, the description, the
/// links, the type and the stamp.
pub proof fn law_what_is_read_tells_the_memory(a: MemoryDetail, b: MemoryDetail)
    requires
        answers::detail_text(a) == answers::detail_text(b),
    ensures
        a.body@ == b.body@,
        a.summary@ == b.summary@,
{
    lemma_detail_parts(a);
    lemma_detail_parts(b);
    let pre = ""@ + "  "@;
    let sep = ",\n"@ + pre;
    let end = "\n"@ + ""@ + "}"@;
    let ra = text::joined(answers::summary_members(a.summary@, ""@), sep) + end;
    let rb = text::joined(answers::summary_members(b.summary@, ""@), sep) + end;
    record_laws::lemma_same_beginning(
        "{"@ + "\n"@ + pre,
        json::member_text("body"@, json::json_text(a.body@)) + (sep + ra),
        json::member_text("body"@, json::json_text(b.body@)) + (sep + rb),
    );
    lemma_member_tells("body"@, a.body@, b.body@, sep + ra, sep + rb);
    record_laws::lemma_same_beginning(sep, ra, rb);
    lemma_members_tell(a.summary@, b.summary@, ""@, sep, end, end);
}

proof fn lemma_detail_parts(d: MemoryDetail)
    ensures
        ({
            let pre = ""@ + "  "@;
            let sep = ",\n"@ + pre;
            let end = "\n"@ + ""@ + "}"@;
            answers::detail_text(d) == ("{"@ + "\n"@ + pre) + (json::member_text(
                "body"@,
                json::json_text(d.body@),
            ) + (sep + (text::joined(answers::summary_members(d.summary@, ""@), sep) + end)))
        }),
{
    let pre = ""@ + "  "@;
    let sep = ",\n"@ + pre;
    let end = "\n"@ + ""@ + "}"@;
    let first = json::member_text("body"@, json::json_text(d.body@));
    let rest = answers::summary_members(d.summary@, ""@);
    law_an_object_is_its_members(seq![first] + rest, ""@);
    text_laws::law_joining_puts_the_separator_between(seq![first], rest, sep);
    let all = text::joined(rest, sep);
    assert("{"@ + "\n"@ + pre + (first + sep + all) + "\n"@ + ""@ + "}"@ == ("{"@ + "\n"@ + pre) + (
    first + (sep + (all + end))));
}

proof fn lemma_summaries_tell_apart(pad: Seq<char>)
    ensures
        tells_apart(|s: SummaryView| answers::summary_text(s, pad)),
{
    let write = |s: SummaryView| answers::summary_text(s, pad);
    assert forall|a: SummaryView, b: SummaryView, x: Seq<char>, y: Seq<char>|
        #![trigger write(a) + x, write(b) + y]
        write(a) + x == write(b) + y implies a == b && x == y by {
        let pre = pad + "  "@;
        let sep = ",\n"@ + pre;
        let end = "\n"@ + pad + "}"@;
        lemma_summary_parts(a, pad, x);
        lemma_summary_parts(b, pad, y);
        let ja = text::joined(answers::summary_members(a, pad), sep);
        let jb = text::joined(answers::summary_members(b, pad), sep);
        record_laws::lemma_same_beginning("{"@ + "\n"@ + pre, ja + (end + x), jb + (end + y));
        lemma_members_tell(a, b, pad, sep, end + x, end + y);
        record_laws::lemma_same_beginning(end, x, y);
    }
}

proof fn lemma_summary_parts(s: SummaryView, pad: Seq<char>, x: Seq<char>)
    ensures
        ({
            let pre = pad + "  "@;
            let sep = ",\n"@ + pre;
            let end = "\n"@ + pad + "}"@;
            answers::summary_text(s, pad) + x == ("{"@ + "\n"@ + pre) + (text::joined(
                answers::summary_members(s, pad),
                sep,
            ) + (end + x))
        }),
{
    let pre = pad + "  "@;
    let all = text::joined(answers::summary_members(s, pad), ",\n"@ + pre);
    law_an_object_is_its_members(answers::summary_members(s, pad), pad);
    assert("{"@ + "\n"@ + pre + all + "\n"@ + pad + "}"@ + x == ("{"@ + "\n"@ + pre) + (all + (
    "\n"@ + pad + "}"@ + x)));
}

/// **What recall answers tells what it found**: no two lists of summaries are
/// written alike, in number, in order or in any field.
pub proof fn law_what_is_listed_tells_the_memories(a: Seq<SummaryView>, b: Seq<SummaryView>)
    requires
        answers::summaries_text(a) == answers::summaries_text(b),
    ensures
        a == b,
{
    let write = |s: SummaryView| answers::summary_text(s, "    "@);
    let none = Seq::<char>::empty();
    lemma_summaries_tell_apart("    "@);
    assert(json::list_text(a.map_values(write), "  "@) + none == answers::summaries_text(a));
    assert(json::list_text(b.map_values(write), "  "@) + none == answers::summaries_text(b));
    lemma_lists_tell_apart(write, a, b, "  "@, none, none);
}

// ---------------------------------------------------------------------------
// The fence around them
// ---------------------------------------------------------------------------

/// **An answer with stored text is three blocks**: the preamble and the opening
/// delimiter, the JSON, and the closing delimiter, with the nonce in both.
pub proof fn law_a_fenced_answer_is_three_blocks(a: FencedAnswer, json: Seq<char>, nonce: Seq<char>)
    requires
        server::is_fenced(a, json, nonce),
    ensures
        a.opening@ == fence::CONTEXT_PREAMBLE@ + "\n"@ + ("<<<"@ + "UNTRUSTED-MEMORY"@ + ":"@ + nonce
            + ">>>"@),
        a.json@ == fence::sanitized(json),
        a.closing@ == "<<</"@ + "UNTRUSTED-MEMORY"@ + ":"@ + nonce + ">>>"@,
        !text::contains_text(json, "UNTRUSTED-MEMORY"@) ==> a.json@ == json,
{
    if !text::contains_text(json, "UNTRUSTED-MEMORY"@) {
        fence_laws::law_text_without_the_sentinel_is_unchanged(json);
    }
}

} // verus!
