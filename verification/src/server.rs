//! The tool surface: what each memory tool is asked, and what it answers.
//!
//! Narrow on purpose. These are tools shaped like remembering and recalling
//! rather than like a key/value store. Each comes in two halves: what its
//! parameters mean, which is decided before anything is connected, and what is
//! answered once the store has been asked.
//!
//! What recall, get and list return is stored text that someone wrote at some
//! point, and a model reads it as text whatever its shape. So it is answered
//! inside a fence; see [`crate::fence`].

use vstd::prelude::*;
use vstd::string::*;

use crate::config::{Config, DEFAULT_RECALL_LIMIT};
use crate::fence::{Fence, NoRandomness, Provenance};
use crate::fence;
use crate::fence_laws;
use crate::listing;
use crate::rank;
use crate::record::{
    Entry, KeyView, MemoryDetail, MemoryKey, MemoryRecord, MemorySummary, MemoryType, RecordView,
    SummaryView,
};
use crate::record;
use crate::store::Store;
use crate::store;
use crate::text;

verus! {

/// Page size of a listing when the caller does not ask for one.
pub const LIST_DEFAULT_LIMIT: usize = 50;

/// The largest page of a listing, whatever the caller asks for. A context of a
/// few hundred memories must not arrive as one answer.
pub const LIST_MAX_LIMIT: usize = 200;

/// The most hits a recall returns, whatever the caller asks for.
pub const RECALL_MAX_LIMIT: usize = 100;

/// `n`, brought into the range from one to `most`.
pub open spec fn clamped(n: usize, most: usize) -> usize {
    if n == 0 {
        1
    } else if n > most {
        most
    } else {
        n
    }
}

fn clamp(n: usize, most: usize) -> (res: usize)
    requires
        most >= 1,
    ensures
        res == clamped(n, most),
{
    if n == 0 {
        1
    } else if n > most {
        most
    } else {
        n
    }
}

// ---------------------------------------------------------------------------
// Refusals
// ---------------------------------------------------------------------------

/// A tool's refusal.
#[derive(Debug, Clone)]
pub enum ToolError {
    /// The caller's mistake.
    InvalidParams(String),
    /// Anything else.
    Internal(String),
}

/// A refusal as a value.
#[verifier::ext_equal]
pub enum ToolErrorView {
    InvalidParams(Seq<char>),
    Internal(Seq<char>),
}

impl View for ToolError {
    type V = ToolErrorView;

    open spec fn view(&self) -> ToolErrorView {
        match self {
            ToolError::InvalidParams(m) => ToolErrorView::InvalidParams(m@),
            ToolError::Internal(m) => ToolErrorView::Internal(m@),
        }
    }
}

/// What is said of a type nobody knows.
pub open spec fn unknown_type(raw: Seq<char>) -> Seq<char> {
    "unknown memory type `"@ + raw + "`; expected user, feedback, project or reference"@
}

/// What is said of a type nobody knows.
pub fn unknown_type_message(raw: &str) -> (res: String)
    ensures
        res@ == unknown_type(raw@),
{
    let mut out = String::new();
    out.append("unknown memory type `");
    out.append(raw);
    out.append("`; expected user, feedback, project or reference");
    assert(out@ == unknown_type(raw@));
    out
}

/// The type a caller names.
pub open spec fn asked_type(raw: Seq<char>) -> Result<MemoryType, ToolErrorView> {
    match record::parsed_type(raw) {
        Some(kind) => Ok(kind),
        None => Err(ToolErrorView::InvalidParams(unknown_type(raw))),
    }
}

/// The type a caller may name.
pub open spec fn maybe_type(raw: Option<Seq<char>>) -> Result<Option<MemoryType>, ToolErrorView> {
    match raw {
        None => Ok(None),
        Some(raw) => match asked_type(raw) {
            Ok(kind) => Ok(Some(kind)),
            Err(e) => Err(e),
        },
    }
}

/// Read a type a caller names.
pub fn parse_type(raw: &str) -> (res: Result<MemoryType, ToolError>)
    ensures
        match asked_type(raw@) {
            Ok(kind) => res == Ok::<MemoryType, ToolError>(kind),
            Err(e) => res is Err && res->Err_0@ == e,
        },
{
    match MemoryType::parse(raw) {
        Some(kind) => Ok(kind),
        None => Err(ToolError::InvalidParams(unknown_type_message(raw))),
    }
}

fn parse_maybe_type(raw: &Option<String>) -> (res: Result<Option<MemoryType>, ToolError>)
    ensures
        match maybe_type(text::option_view(*raw)) {
            Ok(kind) => res == Ok::<Option<MemoryType>, ToolError>(kind),
            Err(e) => res is Err && res->Err_0@ == e,
        },
{
    match raw {
        None => Ok(None),
        Some(raw) => match parse_type(raw.as_str()) {
            Ok(kind) => Ok(Some(kind)),
            Err(e) => Err(e),
        },
    }
}

/// Read a key a caller names.
pub fn parse_key(raw: &str) -> (res: Result<MemoryKey, ToolError>)
    ensures
        match record::parsed_key(raw@) {
            Ok(key) => res is Ok && res->Ok_0@ == key,
            Err(e) => res is Err && res->Err_0@ == ToolErrorView::InvalidParams(e.message()),
        },
{
    match MemoryKey::parse(raw) {
        Ok(key) => Ok(key),
        Err(e) => Err(ToolError::InvalidParams(e.to_string())),
    }
}

// ---------------------------------------------------------------------------
// Saving
// ---------------------------------------------------------------------------

/// What saving is asked.
#[derive(Debug, Clone)]
pub struct SaveParams {
    /// Short human name for this memory. Becomes the stable key; saving the same
    /// name again replaces the memory.
    pub name: String,
    /// `user`, `feedback`, `project` or `reference`.
    pub kind: String,
    /// One line saying what this is. It is what recall ranks and returns.
    pub description: String,
    /// The memory itself.
    pub body: String,
    /// Names of related memories. One that does not exist yet is fine.
    pub links: Vec<String>,
}

/// The record that is to be saved, when it was written at `updated_at`.
pub open spec fn record_asked(p: SaveParams, kind: MemoryType, updated_at: Seq<char>) -> RecordView {
    RecordView {
        v: record::RECORD_VERSION,
        name: p.name@,
        kind,
        description: p.description@,
        body: p.body@,
        links: text::texts(p.links@),
        updated_at,
    }
}

/// Why a save is refused, if it is: a type nobody knows, or the first limit it
/// breaks.
pub open spec fn save_refusal(p: SaveParams) -> Option<ToolErrorView> {
    match asked_type(p.kind@) {
        Err(e) => Some(e),
        Ok(kind) => match record::broken_limit(record_asked(p, kind, seq![])) {
            Some(limit) => Some(ToolErrorView::InvalidParams(limit.message())),
            None => None,
        },
    }
}

/// The record to save, or why it is refused. Decided before anything is
/// connected: an oversized save is the caller's mistake, and saying so must not
/// depend on the agent being within reach.
pub fn memory_save(p: SaveParams) -> (res: Result<MemoryRecord, ToolError>)
    ensures
        match save_refusal(p) {
            Some(e) => res is Err && res->Err_0@ == e,
            None => {
                &&& res is Ok
                &&& record::is_utc_stamp(res->Ok_0@.updated_at)
                &&& res->Ok_0@ == record_asked(
                    p,
                    asked_type(p.kind@)->Ok_0,
                    res->Ok_0@.updated_at,
                )
            },
        },
{
    let kind = match parse_type(p.kind.as_str()) {
        Ok(kind) => kind,
        Err(e) => {
            return Err(e);
        },
    };
    let record = MemoryRecord::new(
        kind,
        p.name.as_str(),
        p.description.as_str(),
        p.body.as_str(),
        p.links,
    );
    match record.check_limits() {
        Ok(_) => Ok(record),
        Err(limit) => Err(ToolError::InvalidParams(limit.to_string())),
    }
}

/// What saving answers.
#[derive(Debug, Clone)]
pub struct SaveReply {
    pub key: String,
    pub context_id: String,
    pub saved: bool,
}

/// What saving answers once the store has acknowledged it.
pub fn save_reply(key: &MemoryKey, store: &Store) -> (res: SaveReply)
    ensures
        res.key@ == key@.text(),
        res.context_id@ == store.context(),
        res.saved,
{
    SaveReply { key: key.to_string(), context_id: store.context_id().to_owned(), saved: true }
}

// ---------------------------------------------------------------------------
// Recalling
// ---------------------------------------------------------------------------

/// What recalling is asked.
#[derive(Debug, Clone)]
pub struct RecallParams {
    /// What to look for, in words. Without it, the most recent memories.
    pub query: Option<String>,
    /// Narrow to one type.
    pub kind: Option<String>,
    /// Maximum results.
    pub limit: Option<usize>,
}

/// What recalling is to do.
#[derive(Debug, Clone)]
pub struct RecallPlan {
    pub query: String,
    pub kind: Option<MemoryType>,
    pub limit: usize,
}

/// How many hits to return: what was asked for, else what is configured, else
/// the default, and in any case from one to [`RECALL_MAX_LIMIT`].
pub open spec fn recall_limit(asked: Option<usize>, configured: Option<usize>) -> usize {
    clamped(
        match asked {
            Some(n) => n,
            None => match configured {
                Some(n) => n,
                None => DEFAULT_RECALL_LIMIT,
            },
        },
        RECALL_MAX_LIMIT,
    )
}

/// What recalling is to do, given the limit that is configured, where the
/// configuration can be read.
pub fn recall_plan(p: RecallParams, configured: Option<usize>) -> (res: Result<
    RecallPlan,
    ToolError,
>)
    ensures
        match maybe_type(text::option_view(p.kind)) {
            Err(e) => res is Err && res->Err_0@ == e,
            Ok(kind) => {
                &&& res is Ok
                &&& res->Ok_0.kind == kind
                &&& res->Ok_0.query@ == match p.query {
                    Some(q) => q@,
                    None => seq![],
                }
                &&& res->Ok_0.limit == recall_limit(p.limit, configured)
            },
        },
{
    let kind = match parse_maybe_type(&p.kind) {
        Ok(kind) => kind,
        Err(e) => {
            return Err(e);
        },
    };
    let query = match p.query {
        Some(q) => q,
        None => String::new(),
    };
    let asked: usize = match p.limit {
        Some(n) => n,
        None => match configured {
            Some(n) => n,
            None => DEFAULT_RECALL_LIMIT,
        },
    };
    Ok(RecallPlan { query, kind, limit: clamp(asked, RECALL_MAX_LIMIT) })
}

/// The views of a list of summaries.
pub open spec fn summary_views(v: Seq<MemorySummary>) -> Seq<SummaryView> {
    v.map_values(|s: MemorySummary| s@)
}

/// The summary of an entry.
pub open spec fn entry_summary(e: Entry) -> SummaryView {
    record::summarised(e.record@, e.key@)
}

/// What recalling answers.
#[derive(Debug, Clone)]
pub struct RecallReply {
    pub context_id: String,
    pub count: usize,
    pub memories: Vec<MemorySummary>,
}

/// What recalling answers, given the entries listed.
pub fn memory_recall(store: &Store, entries: Vec<Entry>, plan: &RecallPlan) -> (res: RecallReply)
    requires
        rank::scores_fit(entries@, plan.query@),
    ensures
        res.context_id@ == store.context(),
        summary_views(res.memories@) == store::recalled(
            entries@,
            plan.query@,
            plan.limit as nat,
        ).map_values(|h: record::Hit| entry_summary(h.entry)),
        res.count == res.memories@.len(),
{
    let hits = store.recall(entries, plan.query.as_str(), plan.limit);
    let mut memories: Vec<MemorySummary> = Vec::new();
    let mut i: usize = 0;
    while i < hits.len()
        invariant
            i <= hits.len(),
            memories@.len() == i,
            forall|k: int|
                0 <= k < i ==> (#[trigger] memories@[k])@ == entry_summary(hits@[k].entry),
        decreases hits.len() - i,
    {
        memories.push(hits[i].entry.record.summary(&hits[i].entry.key));
        i += 1;
    }
    assert(summary_views(memories@) == hits@.map_values(
        |h: record::Hit| entry_summary(h.entry),
    ));
    RecallReply {
        context_id: store.context_id().to_owned(),
        count: memories.len(),
        memories,
    }
}

// ---------------------------------------------------------------------------
// Reading one and forgetting one
// ---------------------------------------------------------------------------

/// What reading one memory is asked.
#[derive(Debug, Clone)]
pub struct GetParams {
    /// The memory's key, as recall returned it.
    pub key: String,
}

/// What forgetting is asked.
#[derive(Debug, Clone)]
pub struct ForgetParams {
    /// The memory's key, as recall returned it.
    pub key: String,
}

/// What is said of a key nothing is filed under.
pub open spec fn no_memory(key: KeyView, context_id: Seq<char>) -> Seq<char> {
    "no memory `"@ + key.text() + "` in context `"@ + context_id + "`"@
}

/// One memory in full, given the entries listed.
pub fn memory_get(store: &Store, entries: Vec<Entry>, key: &MemoryKey) -> (res: Result<
    MemoryDetail,
    ToolError,
>)
    ensures
        match store::first_under(entries@, key@) {
            Some(e) => {
                &&& res is Ok
                &&& res->Ok_0.summary@ == entry_summary(e)
                &&& res->Ok_0.body@ == fence::sanitized(e.record@.body)
            },
            None => res is Err && res->Err_0@ == ToolErrorView::InvalidParams(
                no_memory(key@, store.context()),
            ),
        },
{
    match store.get(entries, key) {
        Some(e) => Ok(e.record.full(&e.key)),
        None => {
            let mut out = String::new();
            out.append("no memory `");
            out.append(key.to_string().as_str());
            out.append("` in context `");
            out.append(store.context_id());
            out.append("`");
            assert(out@ == no_memory(key@, store.context()));
            Err(ToolError::InvalidParams(out))
        },
    }
}

/// What forgetting answers.
#[derive(Debug, Clone)]
pub struct ForgetReply {
    pub key: String,
    pub context_id: String,
    pub forgotten: bool,
}

/// What forgetting answers once the store has acknowledged it.
pub fn forget_reply(key: &MemoryKey, store: &Store) -> (res: ForgetReply)
    ensures
        res.key@ == key@.text(),
        res.context_id@ == store.context(),
        res.forgotten,
{
    ForgetReply {
        key: key.to_string(),
        context_id: store.context_id().to_owned(),
        forgotten: true,
    }
}

// ---------------------------------------------------------------------------
// Listing
// ---------------------------------------------------------------------------

/// What listing is asked.
#[derive(Debug, Clone)]
pub struct ListParams {
    /// Narrow to one type.
    pub kind: Option<String>,
    /// Maximum memories to return.
    pub limit: Option<usize>,
    /// How many memories to skip, in key order.
    pub offset: Option<usize>,
}

/// What listing is to do.
#[derive(Debug, Clone)]
pub struct ListPlan {
    pub kind: Option<MemoryType>,
    pub limit: usize,
    pub offset: usize,
}

/// What listing is to do.
pub fn list_plan(p: ListParams) -> (res: Result<ListPlan, ToolError>)
    ensures
        match maybe_type(text::option_view(p.kind)) {
            Err(e) => res is Err && res->Err_0@ == e,
            Ok(kind) => {
                &&& res is Ok
                &&& res->Ok_0.kind == kind
                &&& res->Ok_0.limit == clamped(
                    match p.limit {
                        Some(n) => n,
                        None => LIST_DEFAULT_LIMIT,
                    },
                    LIST_MAX_LIMIT,
                )
                &&& res->Ok_0.offset == match p.offset {
                    Some(n) => n,
                    None => 0,
                }
            },
        },
{
    let kind = match parse_maybe_type(&p.kind) {
        Ok(kind) => kind,
        Err(e) => {
            return Err(e);
        },
    };
    let asked: usize = match p.limit {
        Some(n) => n,
        None => LIST_DEFAULT_LIMIT,
    };
    let offset: usize = match p.offset {
        Some(n) => n,
        None => 0,
    };
    Ok(ListPlan { kind, limit: clamp(asked, LIST_MAX_LIMIT), offset })
}

/// The entries of one page: `limit` of them at most, in key order, from
/// `offset` on.
pub open spec fn page(entries: Seq<Entry>, offset: nat, limit: nat) -> Seq<Entry> {
    let all = listing::by_key(entries);
    if offset >= all.len() {
        seq![]
    } else if all.len() - offset <= limit {
        all.skip(offset as int)
    } else {
        all.subrange(offset as int, (offset + limit) as int)
    }
}

/// Where the page after this one starts, if there is one.
pub open spec fn next_page(entries: Seq<Entry>, offset: nat, limit: nat) -> Option<nat> {
    let shown = offset + page(entries, offset, limit).len();
    if shown < entries.len() {
        Some(shown)
    } else {
        None
    }
}

/// What listing answers.
#[derive(Debug, Clone)]
pub struct ListReply {
    pub context_id: String,
    pub total: usize,
    pub offset: usize,
    pub limit: usize,
    pub count: usize,
    pub next_offset: Option<usize>,
    pub memories: Vec<MemorySummary>,
}

/// What listing answers, given the entries listed.
pub fn memory_list(store: &Store, entries: Vec<Entry>, plan: &ListPlan) -> (res: ListReply)
    ensures
        res.context_id@ == store.context(),
        res.total == entries@.len(),
        res.offset == plan.offset,
        res.limit == plan.limit,
        summary_views(res.memories@) == page(
            entries@,
            plan.offset as nat,
            plan.limit as nat,
        ).map_values(|e: Entry| entry_summary(e)),
        res.count == res.memories@.len(),
        match next_page(entries@, plan.offset as nat, plan.limit as nat) {
            Some(at) => res.next_offset is Some && res.next_offset->Some_0 == at,
            None => res.next_offset is None,
        },
{
    let ghost shown = page(entries@, plan.offset as nat, plan.limit as nat);
    let sorted = listing::sort_by_key(entries);
    let total: usize = sorted.len();
    let from: usize = if plan.offset < total {
        plan.offset
    } else {
        total
    };
    let to: usize = if total - from <= plan.limit {
        total
    } else {
        from + plan.limit
    };
    let mut memories: Vec<MemorySummary> = Vec::new();
    let mut i: usize = from;
    while i < to
        invariant
            from <= i <= to <= sorted.len(),
            memories@.len() == i - from,
            forall|k: int|
                0 <= k < i - from ==> (#[trigger] memories@[k])@ == entry_summary(
                    sorted@[from + k],
                ),
        decreases to - i,
    {
        memories.push(sorted[i].record.summary(&sorted[i].key));
        i += 1;
    }
    assert(shown.len() == to - from);
    assert(summary_views(memories@) == shown.map_values(|e: Entry| entry_summary(e)));
    let shown_through: usize = plan.offset.saturating_add(memories.len());
    let next_offset = if shown_through < total {
        Some(shown_through)
    } else {
        None
    };
    ListReply {
        context_id: store.context_id().to_owned(),
        total,
        offset: plan.offset,
        limit: plan.limit,
        count: memories.len(),
        next_offset,
        memories,
    }
}

/// The entries that following a listing from `offset` on shows, page after page.
pub open spec fn walked(entries: Seq<Entry>, offset: nat, limit: nat) -> Seq<Entry>
    decreases entries.len() - offset,
    when limit > 0
{
    match next_page(entries, offset, limit) {
        Some(at) => if at > offset {
            page(entries, offset, limit) + walked(entries, at, limit)
        } else {
            page(entries, offset, limit)
        },
        None => page(entries, offset, limit),
    }
}

proof fn lemma_walked(entries: Seq<Entry>, offset: nat, limit: nat)
    requires
        limit > 0,
        offset <= entries.len(),
    ensures
        walked(entries, offset, limit) == listing::by_key(entries).skip(offset as int),
    decreases entries.len() - offset,
{
    let all = listing::by_key(entries);
    listing::lemma_key_order();
    crate::order::law_sorting_keeps_everything(listing::key_order(), entries);
    assert(all.len() == entries.len());
    let shown = page(entries, offset, limit);
    if offset == all.len() {
        assert(all.skip(offset as int) == Seq::<Entry>::empty());
    } else if all.len() - offset > limit {
        let at = offset + limit;
        assert(next_page(entries, offset, limit) == Some(at));
        lemma_walked(entries, at, limit);
        assert(shown + all.skip(at as int) == all.skip(offset as int));
    }
}

/// **Every memory is on exactly one page**: following the listing from its
/// start, with pages of whatever size, shows every entry once, in key order.
pub proof fn law_the_pages_cover_the_context(entries: Seq<Entry>, limit: nat)
    requires
        limit > 0,
    ensures
        walked(entries, 0, limit) == listing::by_key(entries),
        walked(entries, 0, limit).to_multiset() == entries.to_multiset(),
{
    lemma_walked(entries, 0, limit);
    listing::lemma_key_order();
    crate::order::law_sorting_keeps_everything(listing::key_order(), entries);
    assert(listing::by_key(entries).skip(0) == listing::by_key(entries));
}

/// **No page is empty while there is more to show, and none is too long.**
pub proof fn law_a_page_moves_on(entries: Seq<Entry>, offset: nat, limit: nat)
    requires
        limit > 0,
    ensures
        page(entries, offset, limit).len() <= limit,
        offset < entries.len() ==> page(entries, offset, limit).len() > 0,
        next_page(entries, offset, limit) matches Some(at) ==> offset < at < entries.len(),
{
    listing::lemma_key_order();
    crate::order::law_sorting_keeps_everything(listing::key_order(), entries);
}

// ---------------------------------------------------------------------------
// Where the memories are
// ---------------------------------------------------------------------------

/// What is said of the context with every report on it.
pub const CONTEXT_NOTE: &'static str =
    "Memories are gated on access to this trust context: an agent scoped to another context cannot read, write, or delete them.";

/// Where the memories live and how this machine authenticates.
#[derive(Debug, Clone)]
pub struct ContextReply {
    pub vta_did: String,
    pub context_id: String,
    pub identity: String,
    pub connected: bool,
    pub trust_task_transport: Option<String>,
    pub note: String,
}

/// Where the memories live, given the configuration and, where a connection
/// happens to be open, what it runs over.
///
/// Answers without connecting. This is the tool somebody reaches for because
/// memory is failing, so needing a working connection to explain a broken one
/// would make it useless exactly when it is wanted.
pub fn memory_context(cfg: &Config, connected: bool, transport: Option<String>) -> (res:
    ContextReply)
    ensures
        res.vta_did@ == cfg.identity.agent(),
        res.context_id@ == cfg.context_id@,
        res.identity@ == cfg.identity.label_text(),
        res.connected == connected,
        res.trust_task_transport == if connected {
            transport
        } else {
            None
        },
        res.note@ == CONTEXT_NOTE@,
{
    ContextReply {
        vta_did: cfg.identity.vta_did().to_owned(),
        context_id: cfg.context_id.clone(),
        identity: cfg.identity.label().to_owned(),
        connected,
        trust_task_transport: if connected {
            transport
        } else {
            None
        },
        note: CONTEXT_NOTE.to_owned(),
    }
}

// ---------------------------------------------------------------------------
// Fencing
// ---------------------------------------------------------------------------

/// An answer inside a fence, as the separate blocks it is sent in: the preamble
/// and opening delimiter, the JSON, and the closing delimiter. The middle one
/// still parses on its own.
#[derive(Debug, Clone)]
pub struct FencedAnswer {
    pub opening: String,
    pub json: String,
    pub closing: String,
}

/// Put JSON inside a fence that was minted.
///
/// The fields are sanitised already, at the projection. The serialised JSON is
/// sanitised again, so nothing inside the fence carries a delimiter shape
/// whichever field it came from.
pub fn fence_answer(fence: &Fence, json: &str) -> (res: FencedAnswer)
    ensures
        res.opening@ == fence.source().preamble_text() + "\n"@ + fence::opening(
            fence.nonce_text(),
        ),
        res.json@ == fence::sanitized(json@),
        res.closing@ == fence::closing(fence.nonce_text()),
{
    let mut opening = String::new();
    opening.append(fence.preamble());
    opening.append("\n");
    opening.append(fence.open().as_str());
    assert(opening@ == fence.source().preamble_text() + "\n"@ + fence::opening(
        fence.nonce_text(),
    ));
    FencedAnswer { opening, json: Fence::sanitize(json), closing: fence.close() }
}

/// `a` is `json` inside a fence with this nonce.
pub open spec fn is_fenced(a: FencedAnswer, json: Seq<char>, nonce: Seq<char>) -> bool {
    &&& a.opening@ == Provenance::Context.preamble_text() + "\n"@ + fence::opening(nonce)
    &&& a.json@ == fence::sanitized(json)
    &&& a.closing@ == fence::closing(nonce)
}

/// **Nothing in an answer can be taken for its delimiters**: its JSON carries no
/// delimiter shape, and its blocks, strung together, hold the opening delimiter
/// once and the closing one once.
pub proof fn law_a_fenced_answer_cannot_be_forged(
    a: FencedAnswer,
    json: Seq<char>,
    nonce: Seq<char>,
)
    requires
        fence::is_nonce(nonce),
        is_fenced(a, json, nonce),
    ensures
        !text::contains_text(a.json@, fence::opening_shape()),
        !text::contains_text(a.json@, fence::closing_shape()),
        forall|i: int|
            #[trigger] text::occurs_at(a.opening@ + a.json@ + a.closing@, fence::opening(nonce), i)
                <==> i == a.opening@.len() - fence::opening(nonce).len(),
        forall|i: int|
            #[trigger] text::occurs_at(a.opening@ + a.json@ + a.closing@, fence::closing(nonce), i)
                <==> i == a.opening@.len() + a.json@.len(),
{
    reveal_strlit("\n");
    let preamble = Provenance::Context.preamble_text();
    fence_laws::law_no_delimiter_shape_survives(json);
    fence_laws::law_a_minted_nonce_has_no_angle(nonce);
    fence_laws::law_blocks_have_one_delimiter_of_each_kind(Provenance::Context, nonce, json);
    assert(a.opening@ + a.json@ + a.closing@ == fence::in_blocks(preamble, nonce, json));
}

/// Put JSON inside the fence for what the operating system's generator
/// answered. There is an answer exactly where it drew bytes; without a fence the
/// JSON is not handed out.
pub fn fenced_from_draw(
    drawn: Result<[u8; fence::NONCE_BYTES], getrandom::Error>,
    json: &str,
) -> (res: Result<FencedAnswer, NoRandomness>)
    ensures
        match drawn {
            Ok(bytes) => {
                &&& res is Ok
                &&& is_fenced(res->Ok_0, json@, fence::hex_text(bytes@))
                &&& fence::is_nonce(fence::hex_text(bytes@))
            },
            Err(_) => res == Err::<FencedAnswer, NoRandomness>(NoRandomness),
        },
{
    match Fence::from_draw(Provenance::Context, drawn) {
        Ok(fence) => Ok(fence_answer(&fence, json)),
        Err(e) => Err(e),
    }
}

/// Put JSON inside a fresh fence: what [`fenced_from_draw`] makes of a fresh
/// draw. Which nonce it has is up to chance, and whether there is one is up to
/// the machine.
pub fn fenced_json(json: &str) -> (res: Result<FencedAnswer, NoRandomness>)
    ensures
        res matches Ok(a) ==> exists|nonce: Seq<char>| #[trigger]
            fence::is_nonce(nonce) && is_fenced(a, json@, nonce),
{
    fenced_from_draw(fence::random_bytes(), json)
}

} // verus!
