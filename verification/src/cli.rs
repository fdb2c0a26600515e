//! What the commands print.
//!
//! A session-start hook is a shell command whose standard output is pasted into
//! a session. That gives recall two contracts: for a person, a failure is a
//! real error; for a hook, it must never fail the session and never inject
//! noise.

use vstd::prelude::*;
use vstd::string::*;

use crate::enrol::PendingEnrolment;
use crate::enrol;
use crate::fence::{Fence, Provenance};
use crate::fence;
use crate::json;
use crate::lists;
use crate::record::{Entry, MemoryType};
use crate::record;
use crate::server::RecallPlan;
use crate::server;
use crate::setup::SetupOutcome;
use crate::text;

verus! {

/// Read a type a person may have named.
pub fn parse_kind(raw: Option<&str>) -> (res: Result<Option<MemoryType>, String>)
    ensures
        match raw {
            None => res == Ok::<Option<MemoryType>, String>(None),
            Some(s) => match record::parsed_type(s@) {
                Some(kind) => res == Ok::<Option<MemoryType>, String>(Some(kind)),
                None => res is Err && res->Err_0@ == server::unknown_type(s@),
            },
        },
{
    match raw {
        None => Ok(None),
        Some(s) => match MemoryType::parse(s) {
            Some(kind) => Ok(Some(kind)),
            None => Err(server::unknown_type_message(s)),
        },
    }
}

/// What a recall from the command line is to do, given the configured limit. A
/// person gets as many memories as they ask for.
pub fn recall_plan(
    query: Option<String>,
    kind: Option<&str>,
    limit: Option<usize>,
    configured: usize,
) -> (res: Result<RecallPlan, String>)
    ensures
        match res {
            Ok(plan) => {
                &&& kind is None ==> plan.kind is None
                &&& kind is Some ==> plan.kind is Some && plan.kind == record::parsed_type(
                    kind->Some_0@,
                )
                &&& plan.query@ == match query {
                    Some(q) => q@,
                    None => seq![],
                }
                &&& plan.limit == match limit {
                    Some(n) => n,
                    None => configured,
                }
            },
            Err(e) => {
                &&& kind is Some
                &&& record::parsed_type(kind->Some_0@) is None
                &&& e@ == server::unknown_type(kind->Some_0@)
            },
        },
{
    let kind = match parse_kind(kind) {
        Ok(kind) => kind,
        Err(e) => {
            return Err(e);
        },
    };
    let query = match query {
        Some(q) => q,
        None => String::new(),
    };
    let limit: usize = match limit {
        Some(n) => n,
        None => configured,
    };
    Ok(RecallPlan { query, kind, limit })
}

// ---------------------------------------------------------------------------
// Rendering
// ---------------------------------------------------------------------------

/// `s` with two spaces behind every line break.
pub open spec fn deeper(s: Seq<char>) -> Seq<char>
    decreases s.len(),
{
    if s.len() == 0 {
        seq![]
    } else if s.last() == '\n' {
        deeper(s.drop_last()) + "\n  "@
    } else {
        deeper(s.drop_last()).push(s.last())
    }
}

/// One memory as a list item; with its body, where bodies are asked for and it
/// has one.
pub open spec fn item_text(e: &Entry, full: bool) -> Seq<char> {
    "\n- **"@ + e.record@.name + "** (`"@ + e.key@.text() + "`) — "@ + e.record@.description + if full
        && e.record@.body.len() > 0 {
        "\n\n  "@ + deeper(e.record@.body)
    } else {
        seq![]
    }
}

/// The items of some memories, one after the other.
pub open spec fn items_text(entries: Seq<&Entry>, full: bool) -> Seq<char>
    decreases entries.len(),
{
    if entries.len() == 0 {
        seq![]
    } else {
        items_text(entries.drop_last(), full) + item_text(entries.last(), full)
    }
}

/// The memories of one type, in order.
pub open spec fn of_kind(entries: Seq<&Entry>, kind: MemoryType) -> Seq<&Entry> {
    entries.filter(|e: &Entry| e.key.kind == kind)
}

/// The section of one type, where it has any memories.
pub open spec fn section(entries: Seq<&Entry>, kind: MemoryType, full: bool) -> Seq<char> {
    if of_kind(entries, kind).len() == 0 {
        seq![]
    } else {
        "\n## "@ + kind.name() + "\n"@ + items_text(of_kind(entries, kind), full) + "\n"@
    }
}

/// Memories as markdown: a sentence where there are none, else a heading and a
/// section for each type, the types in their fixed order.
pub open spec fn rendered(context_id: Seq<char>, entries: Seq<&Entry>, full: bool) -> Seq<char> {
    if entries.len() == 0 {
        "No memories stored in trust context `"@ + context_id + "`."@
    } else {
        "# Stored memories ("@ + text::decimal(entries.len()) + " in trust context `"@ + context_id
            + "`)\n"@ + section(entries, MemoryType::User, full) + section(
            entries,
            MemoryType::Feedback,
            full,
        ) + section(entries, MemoryType::Project, full) + section(
            entries,
            MemoryType::Reference,
            full,
        )
    }
}

fn append_deeper(out: &mut String, body: &str)
    ensures
        final(out)@ == old(out)@ + deeper(body@),
{
    let ghost start = out@;
    for c in it: body.chars()
        invariant
            it.seq() == body@,
            out@ == start + deeper(body@.take(it.index() as int)),
    {
        let ghost n: int = it.index() as int;
        let ghost before = out@;
        proof {
            assert(body@.take(n + 1).drop_last() == body@.take(n));
            assert(body@.take(n + 1).last() == c);
        }
        if c == '\n' {
            out.append("\n  ");
        } else {
            out.push(c);
        }
        assert(out@ == start + deeper(body@.take(n + 1)));
    }
    assert(body@.take(body@.len() as int) == body@);
}

fn append_item(out: &mut String, e: &Entry, full: bool)
    ensures
        final(out)@ == old(out)@ + item_text(e, full),
{
    let ghost start = out@;
    out.append("\n- **");
    out.append(e.record.name.as_str());
    out.append("** (`");
    out.append(e.key.to_string().as_str());
    out.append("`) — ");
    out.append(e.record.description.as_str());
    if full && !e.record.body.as_str().is_empty() {
        out.append("\n\n  ");
        append_deeper(out, e.record.body.as_str());
    }
    assert(out@ == start + item_text(e, full));
}

fn append_section(out: &mut String, entries: &Vec<&Entry>, kind: MemoryType, full: bool)
    ensures
        final(out)@ == old(out)@ + section(entries@, kind, full),
{
    let ghost start = out@;
    let ghost wanted = |e: &Entry| e.key.kind == kind;
    let mut items = String::new();
    let mut found = false;
    let mut i: usize = 0;
    proof {
        lists::lemma_filter_nothing(entries@, wanted);
    }
    while i < entries.len()
        invariant
            i <= entries.len(),
            wanted == (|e: &Entry| e.key.kind == kind),
            items@ == items_text(entries@.take(i as int).filter(wanted), full),
            found == (entries@.take(i as int).filter(wanted).len() > 0),
        decreases entries.len() - i,
    {
        proof {
            lists::lemma_filter_step(entries@, i as int, wanted);
        }
        let ghost kept = entries@.take(i as int).filter(wanted);
        if entries[i].key.kind == kind {
            append_item(&mut items, entries[i], full);
            found = true;
            assert(kept.push(entries@[i as int]).drop_last() == kept);
        }
        i += 1;
    }
    assert(entries@.take(entries@.len() as int) == entries@);
    if found {
        out.append("\n## ");
        out.append(kind.as_str());
        out.append("\n");
        out.append(items.as_str());
        out.append("\n");
    }
    assert(out@ == start + section(entries@, kind, full));
}

/// Render memories as markdown for a hook or a terminal.
pub fn render_memories(context_id: &str, entries: Vec<&Entry>, full: bool) -> (res: String)
    ensures
        res@ == rendered(context_id@, entries@, full),
{
    let mut out = String::new();
    if entries.len() == 0 {
        out.append("No memories stored in trust context `");
        out.append(context_id);
        out.append("`.");
        assert(out@ == rendered(context_id@, entries@, full));
        return out;
    }
    out.append("# Stored memories (");
    out.append(text::to_decimal(entries.len()).as_str());
    out.append(" in trust context `");
    out.append(context_id);
    out.append("`)\n");
    append_section(&mut out, &entries, MemoryType::User, full);
    append_section(&mut out, &entries, MemoryType::Feedback, full);
    append_section(&mut out, &entries, MemoryType::Project, full);
    append_section(&mut out, &entries, MemoryType::Reference, full);
    assert(out@ == rendered(context_id@, entries@, full));
    out
}

proof fn lemma_bodies_do_not_matter(a: Seq<&Entry>, b: Seq<&Entry>)
    requires
        a.len() == b.len(),
        forall|i: int| 0 <= i < a.len() ==> same_but_for_body(#[trigger] a[i], b[i]),
    ensures
        items_text(a, false) == items_text(b, false),
    decreases a.len(),
{
    if a.len() > 0 {
        let a1 = a.drop_last();
        let b1 = b.drop_last();
        assert forall|i: int| 0 <= i < a1.len() implies same_but_for_body(#[trigger] a1[i], b1[i]) by {
            assert(same_but_for_body(a[i], b[i]));
        }
        lemma_bodies_do_not_matter(a1, b1);
        assert(same_but_for_body(a[a.len() - 1], b[b.len() - 1]));
    }
}

/// Two memories that differ in nothing a summary shows.
pub open spec fn same_but_for_body(a: &Entry, b: &Entry) -> bool {
    &&& a.key@ == b.key@
    &&& a.record@.name == b.record@.name
    &&& a.record@.description == b.record@.description
}

proof fn lemma_sections_without_bodies(a: Seq<&Entry>, b: Seq<&Entry>, kind: MemoryType)
    requires
        a.len() == b.len(),
        forall|i: int| 0 <= i < a.len() ==> same_but_for_body(#[trigger] a[i], b[i]),
    ensures
        of_kind(a, kind).len() == of_kind(b, kind).len(),
        forall|i: int|
            0 <= i < of_kind(a, kind).len() ==> same_but_for_body(
                #[trigger] of_kind(a, kind)[i],
                of_kind(b, kind)[i],
            ),
    decreases a.len(),
{
    reveal(Seq::filter);
    if a.len() > 0 {
        let a1 = a.drop_last();
        let b1 = b.drop_last();
        assert forall|i: int| 0 <= i < a1.len() implies same_but_for_body(#[trigger] a1[i], b1[i]) by {
            assert(same_but_for_body(a[i], b[i]));
        }
        lemma_sections_without_bodies(a1, b1, kind);
        assert(same_but_for_body(a[a.len() - 1], b[b.len() - 1]));
        assert(a.last().key@.kind == b.last().key@.kind);
    }
}

/// **Bodies are shown only where they are asked for**: without that, what is
/// rendered does not depend on any body.
pub proof fn law_a_brief_rendering_shows_no_body(
    context_id: Seq<char>,
    a: Seq<&Entry>,
    b: Seq<&Entry>,
)
    requires
        a.len() == b.len(),
        forall|i: int| 0 <= i < a.len() ==> same_but_for_body(#[trigger] a[i], b[i]),
    ensures
        rendered(context_id, a, false) == rendered(context_id, b, false),
{
    lemma_sections_without_bodies(a, b, MemoryType::User);
    lemma_sections_without_bodies(a, b, MemoryType::Feedback);
    lemma_sections_without_bodies(a, b, MemoryType::Project);
    lemma_sections_without_bodies(a, b, MemoryType::Reference);
    lemma_bodies_do_not_matter(of_kind(a, MemoryType::User), of_kind(b, MemoryType::User));
    lemma_bodies_do_not_matter(of_kind(a, MemoryType::Feedback), of_kind(b, MemoryType::Feedback));
    lemma_bodies_do_not_matter(of_kind(a, MemoryType::Project), of_kind(b, MemoryType::Project));
    lemma_bodies_do_not_matter(
        of_kind(a, MemoryType::Reference),
        of_kind(b, MemoryType::Reference),
    );
}

// ---------------------------------------------------------------------------
// The hook
// ---------------------------------------------------------------------------

/// How a recall is printed.
#[derive(Debug, Clone, Copy, PartialEq, Eq, Structural)]
pub enum OutputFormat {
    /// For a person, as markdown.
    Text,
    /// For a session-start hook, in the envelope it is read from.
    Json,
}

/// The envelope that a session-start hook's output is read from.
pub open spec fn envelope(context: Seq<char>) -> Seq<char> {
    "{\"hookSpecificOutput\":{\"additionalContext\":"@ + json::json_text(context)
        + ",\"hookEventName\":\"SessionStart\"}}"@
}

/// The envelope that a session-start hook's output is read from.
pub fn hook_envelope(context: &str) -> (res: String)
    ensures
        res@ == envelope(context@),
{
    let quoted = json::quoted(context);
    let mut out = String::new();
    out.append("{\"hookSpecificOutput\":{\"additionalContext\":");
    out.append(quoted.as_str());
    out.append(",\"hookEventName\":\"SessionStart\"}}");
    assert(out@ == envelope(context@));
    out
}

/// How a command ends: what it prints, and whether it fails and with what words.
#[derive(Debug, Clone)]
pub struct Ending {
    pub stdout: Option<String>,
    pub failure: Option<String>,
}

/// How a recall ends, given what it rendered or why it could not, and a fence,
/// if one could be minted.
///
/// A hook's output is stored text, so it goes inside the fence. Where there is
/// none, or nothing to say, a hook stays quiet and succeeds.
pub fn recall_ending(
    format: OutputFormat,
    recalled: Result<String, String>,
    fence: Option<&Fence>,
) -> (res: Ending)
    ensures
        match format {
            OutputFormat::Text => match recalled {
                Ok(body) => res.stdout == Some(body) && res.failure is None,
                Err(e) => res.stdout is None && res.failure == Some(e),
            },
            OutputFormat::Json => {
                &&& res.failure is None
                &&& if recalled is Ok && fence is Some {
                    &&& res.stdout is Some
                    &&& res.stdout->Some_0@ == envelope(
                        fence::wrapped(
                            fence->Some_0.source().preamble_text(),
                            fence->Some_0.nonce_text(),
                            recalled->Ok_0@,
                        ),
                    )
                } else {
                    res.stdout is None
                }
            },
        },
{
    match format {
        OutputFormat::Text => match recalled {
            Ok(body) => Ending { stdout: Some(body), failure: None },
            Err(e) => Ending { stdout: None, failure: Some(e) },
        },
        OutputFormat::Json => match recalled {
            Ok(body) => match fence {
                Some(f) => Ending {
                    stdout: Some(hook_envelope(f.wrap(body.as_str()).as_str())),
                    failure: None,
                },
                None => Ending { stdout: None, failure: None },
            },
            Err(_) => Ending { stdout: None, failure: None },
        },
    }
}

/// How a recall ends, inside a fresh fence where it needs one. Which nonce that
/// has is up to chance, and whether there is one is up to the machine; a hook
/// succeeds either way, and prints nothing that is not in a fence.
pub fn end_recall(format: OutputFormat, recalled: Result<String, String>) -> (res: Ending)
    ensures
        match format {
            OutputFormat::Text => match recalled {
                Ok(body) => res.stdout == Some(body) && res.failure is None,
                Err(e) => res.stdout is None && res.failure == Some(e),
            },
            OutputFormat::Json => {
                &&& res.failure is None
                &&& recalled is Err ==> res.stdout is None
                &&& res.stdout matches Some(out) ==> exists|nonce: Seq<char>| #[trigger]
                    fence::is_nonce(nonce) && out@ == envelope(
                        fence::wrapped(
                            Provenance::Context.preamble_text(),
                            nonce,
                            recalled->Ok_0@,
                        ),
                    )
            },
        },
{
    match format {
        OutputFormat::Text => recall_ending(format, recalled, None),
        OutputFormat::Json => match Fence::new(Provenance::Context) {
            Ok(f) => {
                assert(fence::is_nonce(f.nonce_text()));
                recall_ending(format, recalled, Some(&f))
            },
            Err(_) => recall_ending(format, recalled, None),
        },
    }
}

// ---------------------------------------------------------------------------
// Setup and enrolment
// ---------------------------------------------------------------------------

/// The coding agent that the plugin runs in: what it is called, and the command
/// that starts it.
#[derive(Debug, Clone)]
pub struct Host {
    pub name: String,
    pub command: String,
}

/// How to enable the plugin. It takes both commands: installing finds only what
/// is in a marketplace that was added.
pub open spec fn enabling_text(host: Host) -> Seq<char> {
    "\nEnable it in "@ + host.name@ + ":\n  "@ + host.command@
        + " plugin marketplace add OpenVTC/vta-agent-memory\n  "@ + host.command@
        + " plugin install vta-agent-memory@vta-agent-memory\n"@
}

/// What setup tells a person when it is done.
pub open spec fn setup_text(o: SetupOutcome, config_path: Seq<char>, host: Host) -> Seq<char> {
    "Memory service configured.\n\n  config      "@ + config_path + "\n  context     "@
        + o.context_id@ + "\n  identity    "@ + o.identity_label@ + match o.agent_did {
        Some(did) => "\n  agent DID   "@ + did@,
        None => seq![],
    } + "\n  memories    "@ + text::decimal(o.memories_found as nat)
        + " already stored\n"@ + enabling_text(host) + match o.agent_did {
        Some(did) => "\nTo revoke this machine's access later:\n  pnm acl delete --did "@ + did@
            + "\n"@,
        None => seq![],
    }
}

/// What setup tells a person when it is done.
pub fn setup_summary(o: &SetupOutcome, config_path: &str, host: &Host) -> (res: String)
    ensures
        res@ == setup_text(*o, config_path@, *host),
{
    let mut out = String::new();
    out.append("Memory service configured.\n\n  config      ");
    out.append(config_path);
    out.append("\n  context     ");
    out.append(o.context_id.as_str());
    out.append("\n  identity    ");
    out.append(o.identity_label.as_str());
    if let Some(did) = &o.agent_did {
        out.append("\n  agent DID   ");
        out.append(did.as_str());
    }
    out.append("\n  memories    ");
    out.append(text::to_decimal(o.memories_found).as_str());
    out.append(" already stored\n");
    out.append("\nEnable it in ");
    out.append(host.name.as_str());
    out.append(":\n  ");
    out.append(host.command.as_str());
    out.append(" plugin marketplace add OpenVTC/vta-agent-memory\n  ");
    out.append(host.command.as_str());
    out.append(" plugin install vta-agent-memory@vta-agent-memory\n");
    if let Some(did) = &o.agent_did {
        out.append("\nTo revoke this machine's access later:\n  pnm acl delete --did ");
        out.append(did.as_str());
        out.append("\n");
    }
    assert(out@ == setup_text(*o, config_path@, *host));
    out
}

/// What the first phase of enrolment tells a person.
pub open spec fn enrolment_text(p: PendingEnrolment) -> Seq<char> {
    "This machine minted a temporary identity and needs it authorized.\n\n  temp DID    "@
        + p.ephemeral_did@ + "\n  vta         "@ + p.vta_did@ + "\n  context     "@ + p.context_id@
        + "\n\nRun these wherever you hold VTA admin — it does not have to be this machine:\n\n"@
        + enrol::indented(enrol::grant_lines(p.ephemeral_did@, p.context_id@))
        + "\n\nThen, back here:\n\n  vta-agent-memory connect\n\nThe temporary DID above is rotated away on that first connect, so it stops\nbeing an authenticator once it has done its job.\n"@
}

/// What the first phase of enrolment tells a person.
pub fn enrolment_notice(p: &PendingEnrolment) -> (res: String)
    ensures
        res@ == enrolment_text(*p),
{
    let mut out = String::new();
    out.append(
        "This machine minted a temporary identity and needs it authorized.\n\n  temp DID    ",
    );
    out.append(p.ephemeral_did.as_str());
    out.append("\n  vta         ");
    out.append(p.vta_did.as_str());
    out.append("\n  context     ");
    out.append(p.context_id.as_str());
    out.append(
        "\n\nRun these wherever you hold VTA admin — it does not have to be this machine:\n\n",
    );
    out.append(p.commands_to_show().as_str());
    out.append(
        "\n\nThen, back here:\n\n  vta-agent-memory connect\n\nThe temporary DID above is rotated away on that first connect, so it stops\nbeing an authenticator once it has done its job.\n",
    );
    assert(out@ == enrolment_text(*p));
    out
}

} // verus!
