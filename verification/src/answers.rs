//! How the tools' answers are written: JSON, its members in order of their names,
//! and inside a fence where it holds stored text.

use vstd::prelude::*;
use vstd::string::*;

use crate::fence::NoRandomness;
use crate::fence;
use crate::json;
use crate::record::{MemoryDetail, MemorySummary, SummaryView};
use crate::record;
use crate::server::{
    ContextReply, FencedAnswer, ForgetReply, ListReply, RecallReply, SaveReply,
};
use crate::server;
use crate::text;

verus! {

// ---------------------------------------------------------------------------
// Summaries
// ---------------------------------------------------------------------------

/// The members of a summary that stands `pad` in.
pub open spec fn summary_members(s: SummaryView, pad: Seq<char>) -> Seq<Seq<char>> {
    seq![
        json::member_text("description"@, json::json_text(s.description)),
        json::member_text("key"@, json::json_text(s.key)),
        json::member_text("links"@, json::list_text(record::json_links(s.links), pad + "  "@)),
        json::member_text("name"@, json::json_text(s.name)),
        json::member_text("trust"@, json::json_text(s.trust)),
        json::member_text("type"@, json::json_text(s.kind.name())),
        json::member_text("updatedAt"@, json::json_text(s.updated_at)),
    ]
}

/// A summary that stands `pad` in.
pub open spec fn summary_text(s: SummaryView, pad: Seq<char>) -> Seq<char> {
    json::object_text(summary_members(s, pad), pad)
}

/// The summaries of an answer.
pub open spec fn summaries_text(all: Seq<SummaryView>) -> Seq<char> {
    json::list_text(all.map_values(|s: SummaryView| summary_text(s, "    "@)), "  "@)
}

fn links(all: &Vec<String>, pad: &str) -> (res: String)
    ensures
        res@ == json::list_text(record::json_links(text::texts(all@)), pad@ + "  "@),
{
    let mut items: Vec<String> = Vec::new();
    let mut i: usize = 0;
    while i < all.len()
        invariant
            i <= all.len(),
            items@.len() == i,
            forall|k: int| 0 <= k < i ==> (#[trigger] items@[k])@ == json::json_text(all@[k]@),
        decreases all.len() - i,
    {
        items.push(json::quoted(all[i].as_str()));
        i += 1;
    }
    assert(text::texts(items@) == record::json_links(text::texts(all@)));
    let mut inner = String::new();
    inner.append(pad);
    inner.append("  ");
    assert(inner@ == pad@ + "  "@);
    json::list(&items, inner.as_str())
}

fn push_members(out: &mut Vec<String>, s: &MemorySummary, pad: &str)
    ensures
        text::texts(final(out)@) == text::texts(old(out)@) + summary_members(s@, pad@),
{
    let ghost before = text::texts(out@);
    out.push(json::member("description", json::quoted(s.description.as_str()).as_str()));
    out.push(json::member("key", json::quoted(s.key.as_str()).as_str()));
    out.push(json::member("links", links(&s.links, pad).as_str()));
    out.push(json::member("name", json::quoted(s.name.as_str()).as_str()));
    out.push(json::member("trust", json::quoted(s.trust.as_str()).as_str()));
    out.push(json::member("type", json::quoted(s.kind.as_str()).as_str()));
    out.push(json::member("updatedAt", json::quoted(s.updated_at.as_str()).as_str()));
    assert(text::texts(out@) == before + summary_members(s@, pad@));
}

fn summaries(all: &Vec<MemorySummary>) -> (res: String)
    ensures
        res@ == summaries_text(server::summary_views(all@)),
{
    let mut items: Vec<String> = Vec::new();
    let mut i: usize = 0;
    while i < all.len()
        invariant
            i <= all.len(),
            items@.len() == i,
            forall|k: int|
                0 <= k < i ==> (#[trigger] items@[k])@ == summary_text(all@[k]@, "    "@),
        decreases all.len() - i,
    {
        let mut members: Vec<String> = Vec::new();
        push_members(&mut members, &all[i], "    ");
        assert(text::texts(members@) == summary_members(all@[i as int]@, "    "@));
        items.push(json::object(&members, "    "));
        i += 1;
    }
    assert(text::texts(items@) == server::summary_views(all@).map_values(
        |s: SummaryView| summary_text(s, "    "@),
    ));
    json::list(&items, "  ")
}

// ---------------------------------------------------------------------------
// Answers that hold stored text
// ---------------------------------------------------------------------------

/// What recalling answers, as JSON.
pub open spec fn recall_text(r: RecallReply) -> Seq<char> {
    json::object_text(
        seq![
            json::member_text("contextId"@, json::json_text(r.context_id@)),
            json::member_text("count"@, text::decimal(r.count as nat)),
            json::member_text("memories"@, summaries_text(server::summary_views(r.memories@))),
        ],
        ""@,
    )
}

/// What recalling answers, as JSON.
pub fn recall_json(r: &RecallReply) -> (res: String)
    ensures
        res@ == recall_text(*r),
{
    let mut members: Vec<String> = Vec::new();
    members.push(json::member("contextId", json::quoted(r.context_id.as_str()).as_str()));
    members.push(json::member("count", text::to_decimal(r.count).as_str()));
    members.push(json::member("memories", summaries(&r.memories).as_str()));
    assert(text::texts(members@) == seq![
        json::member_text("contextId"@, json::json_text(r.context_id@)),
        json::member_text("count"@, text::decimal(r.count as nat)),
        json::member_text("memories"@, summaries_text(server::summary_views(r.memories@))),
    ]);
    json::object(&members, "")
}

/// One memory in full, as JSON.
pub open spec fn detail_text(d: MemoryDetail) -> Seq<char> {
    json::object_text(
        seq![json::member_text("body"@, json::json_text(d.body@))] + summary_members(
            d.summary@,
            ""@,
        ),
        ""@,
    )
}

/// One memory in full, as JSON.
pub fn detail_json(d: &MemoryDetail) -> (res: String)
    ensures
        res@ == detail_text(*d),
{
    let mut members: Vec<String> = Vec::new();
    members.push(json::member("body", json::quoted(d.body.as_str()).as_str()));
    assert(text::texts(members@) == seq![
        json::member_text("body"@, json::json_text(d.body@)),
    ]);
    push_members(&mut members, &d.summary, "");
    json::object(&members, "")
}

/// Where the next page starts, as JSON.
pub open spec fn next_text(next: Option<usize>) -> Seq<char> {
    match next {
        Some(at) => text::decimal(at as nat),
        None => "null"@,
    }
}

/// What listing answers, as JSON.
pub open spec fn list_text(r: ListReply) -> Seq<char> {
    json::object_text(
        seq![
            json::member_text("contextId"@, json::json_text(r.context_id@)),
            json::member_text("count"@, text::decimal(r.count as nat)),
            json::member_text("limit"@, text::decimal(r.limit as nat)),
            json::member_text("memories"@, summaries_text(server::summary_views(r.memories@))),
            json::member_text("nextOffset"@, next_text(r.next_offset)),
            json::member_text("offset"@, text::decimal(r.offset as nat)),
            json::member_text("total"@, text::decimal(r.total as nat)),
        ],
        ""@,
    )
}

/// What listing answers, as JSON.
pub fn list_json(r: &ListReply) -> (res: String)
    ensures
        res@ == list_text(*r),
{
    let next = match r.next_offset {
        Some(at) => text::to_decimal(at),
        None => "null".to_owned(),
    };
    let mut members: Vec<String> = Vec::new();
    members.push(json::member("contextId", json::quoted(r.context_id.as_str()).as_str()));
    members.push(json::member("count", text::to_decimal(r.count).as_str()));
    members.push(json::member("limit", text::to_decimal(r.limit).as_str()));
    members.push(json::member("memories", summaries(&r.memories).as_str()));
    members.push(json::member("nextOffset", next.as_str()));
    members.push(json::member("offset", text::to_decimal(r.offset).as_str()));
    members.push(json::member("total", text::to_decimal(r.total).as_str()));
    assert(text::texts(members@) == seq![
        json::member_text("contextId"@, json::json_text(r.context_id@)),
        json::member_text("count"@, text::decimal(r.count as nat)),
        json::member_text("limit"@, text::decimal(r.limit as nat)),
        json::member_text("memories"@, summaries_text(server::summary_views(r.memories@))),
        json::member_text("nextOffset"@, next_text(r.next_offset)),
        json::member_text("offset"@, text::decimal(r.offset as nat)),
        json::member_text("total"@, text::decimal(r.total as nat)),
    ]);
    json::object(&members, "")
}

/// `res` is this JSON inside a fresh fence, where one could be minted.
pub open spec fn is_fenced_or_not_given(
    res: Result<FencedAnswer, NoRandomness>,
    json: Seq<char>,
) -> bool {
    res matches Ok(a) ==> exists|nonce: Seq<char>| #[trigger]
        fence::is_nonce(nonce) && server::is_fenced(a, json, nonce)
}

/// What recalling answers, inside a fresh fence: what
/// [`server::fenced_from_draw`] makes of [`recall_json`] and a fresh draw.
pub fn recall_answer(r: &RecallReply) -> (res: Result<FencedAnswer, NoRandomness>)
    ensures
        is_fenced_or_not_given(res, recall_text(*r)),
{
    server::fenced_json(recall_json(r).as_str())
}

/// One memory in full, inside a fresh fence: what [`server::fenced_from_draw`]
/// makes of [`detail_json`] and a fresh draw.
pub fn get_answer(d: &MemoryDetail) -> (res: Result<FencedAnswer, NoRandomness>)
    ensures
        is_fenced_or_not_given(res, detail_text(*d)),
{
    server::fenced_json(detail_json(d).as_str())
}

/// What listing answers, inside a fresh fence: what [`server::fenced_from_draw`]
/// makes of [`list_json`] and a fresh draw.
pub fn list_answer(r: &ListReply) -> (res: Result<FencedAnswer, NoRandomness>)
    ensures
        is_fenced_or_not_given(res, list_text(*r)),
{
    server::fenced_json(list_json(r).as_str())
}

// ---------------------------------------------------------------------------
// Answers that hold none
// ---------------------------------------------------------------------------

/// What saving answers, as JSON.
pub open spec fn save_text(r: SaveReply) -> Seq<char> {
    json::object_text(
        seq![
            json::member_text("contextId"@, json::json_text(r.context_id@)),
            json::member_text("key"@, json::json_text(r.key@)),
            json::member_text("saved"@, json::truth_text(r.saved)),
        ],
        ""@,
    )
}

/// What saving answers, as JSON.
pub fn save_json(r: &SaveReply) -> (res: String)
    ensures
        res@ == save_text(*r),
{
    let mut members: Vec<String> = Vec::new();
    members.push(json::member("contextId", json::quoted(r.context_id.as_str()).as_str()));
    members.push(json::member("key", json::quoted(r.key.as_str()).as_str()));
    members.push(json::member("saved", json::truth(r.saved)));
    assert(text::texts(members@) == seq![
        json::member_text("contextId"@, json::json_text(r.context_id@)),
        json::member_text("key"@, json::json_text(r.key@)),
        json::member_text("saved"@, json::truth_text(r.saved)),
    ]);
    json::object(&members, "")
}

/// What forgetting answers, as JSON.
pub open spec fn forget_text(r: ForgetReply) -> Seq<char> {
    json::object_text(
        seq![
            json::member_text("contextId"@, json::json_text(r.context_id@)),
            json::member_text("forgotten"@, json::truth_text(r.forgotten)),
            json::member_text("key"@, json::json_text(r.key@)),
        ],
        ""@,
    )
}

/// What forgetting answers, as JSON.
pub fn forget_json(r: &ForgetReply) -> (res: String)
    ensures
        res@ == forget_text(*r),
{
    let mut members: Vec<String> = Vec::new();
    members.push(json::member("contextId", json::quoted(r.context_id.as_str()).as_str()));
    members.push(json::member("forgotten", json::truth(r.forgotten)));
    members.push(json::member("key", json::quoted(r.key.as_str()).as_str()));
    assert(text::texts(members@) == seq![
        json::member_text("contextId"@, json::json_text(r.context_id@)),
        json::member_text("forgotten"@, json::truth_text(r.forgotten)),
        json::member_text("key"@, json::json_text(r.key@)),
    ]);
    json::object(&members, "")
}

/// What is known of the transport, as JSON.
pub open spec fn transport_text(transport: Option<String>) -> Seq<char> {
    match transport {
        Some(t) => json::json_text(t@),
        None => "null"@,
    }
}

/// Where the memories are, as JSON.
pub open spec fn context_text(r: ContextReply) -> Seq<char> {
    json::object_text(
        seq![
            json::member_text("connected"@, json::truth_text(r.connected)),
            json::member_text("contextId"@, json::json_text(r.context_id@)),
            json::member_text("identity"@, json::json_text(r.identity@)),
            json::member_text("note"@, json::json_text(r.note@)),
            json::member_text("trustTaskTransport"@, transport_text(r.trust_task_transport)),
            json::member_text("vtaDid"@, json::json_text(r.vta_did@)),
        ],
        ""@,
    )
}

/// Where the memories are, as JSON.
pub fn context_json(r: &ContextReply) -> (res: String)
    ensures
        res@ == context_text(*r),
{
    let transport = match &r.trust_task_transport {
        Some(t) => json::quoted(t.as_str()),
        None => "null".to_owned(),
    };
    let mut members: Vec<String> = Vec::new();
    members.push(json::member("connected", json::truth(r.connected)));
    members.push(json::member("contextId", json::quoted(r.context_id.as_str()).as_str()));
    members.push(json::member("identity", json::quoted(r.identity.as_str()).as_str()));
    members.push(json::member("note", json::quoted(r.note.as_str()).as_str()));
    members.push(json::member("trustTaskTransport", transport.as_str()));
    members.push(json::member("vtaDid", json::quoted(r.vta_did.as_str()).as_str()));
    assert(text::texts(members@) == seq![
        json::member_text("connected"@, json::truth_text(r.connected)),
        json::member_text("contextId"@, json::json_text(r.context_id@)),
        json::member_text("identity"@, json::json_text(r.identity@)),
        json::member_text("note"@, json::json_text(r.note@)),
        json::member_text("trustTaskTransport"@, transport_text(r.trust_task_transport)),
        json::member_text("vtaDid"@, json::json_text(r.vta_did@)),
    ]);
    json::object(&members, "")
}

} // verus!
