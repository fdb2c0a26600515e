//! That the values contracts speak of are the values the code holds, and that
//! what a person is told names what it is about.

use vstd::prelude::*;

use crate::config::{ConfigError, ConnectPlan, ConnectPlanView};
use crate::config;
use crate::enrol::EnrolErrorView;
use crate::files::{FilePath, FilePathView, NoPlace};
use crate::files;
use crate::pnm::{PnmLoadError, ResolveError, ResolvedView, ResolvedVta};
use crate::pnm;
use crate::record::{
    KeyError, KeyErrorView, KeyView, MemoryKey, MemoryRecord, MemorySummary, MemoryType, RecordView,
    SummaryView,
};
use crate::record;
use crate::server::{ToolError, ToolErrorView};
use crate::server;
use crate::setup::{SetupError, WayIn};
use crate::setup;
use crate::store::{EchoError, Found, FoundView, Item, ItemView};
use crate::store;
use crate::text;
use crate::text_laws;

verus! {

// ---------------------------------------------------------------------------
// Values
// ---------------------------------------------------------------------------

/// **A list of strings stands for its strings, one by one.**
pub proof fn law_texts_are_the_strings(v: Seq<String>, w: Seq<Vec<char>>)
    ensures
        text::texts(v).len() == v.len(),
        forall|i: int| 0 <= i < v.len() ==> #[trigger] text::texts(v)[i] == v[i]@,
        text::word_views(w).len() == w.len(),
        forall|i: int| 0 <= i < w.len() ==> #[trigger] text::word_views(w)[i] == w[i]@,
{
}

/// **A string that may not be there stands for itself, or for nothing.**
pub proof fn law_a_string_that_may_be_missing(s: Option<String>)
    ensures
        s matches Some(t) ==> text::option_view(s) == Some(t@),
        s is None ==> text::option_view(s) is None,
        files::is_named(s) <==> s is Some && s->Some_0@.len() > 0,
{
}

/// **Keys, records and summaries stand for their own fields.**
pub proof fn law_keys_records_and_summaries_are_their_fields(
    k: MemoryKey,
    r: MemoryRecord,
    s: MemorySummary,
)
    ensures
        k@ == (KeyView { kind: k.kind, slug: k.slug@ }),
        r@ == (RecordView {
            v: r.v,
            name: r.name@,
            kind: r.kind,
            description: r.description@,
            body: r.body@,
            links: r.links@.map_values(|l: String| l@),
            updated_at: r.updated_at@,
        }),
        s@ == (SummaryView {
            key: s.key@,
            name: s.name@,
            kind: s.kind,
            description: s.description@,
            links: s.links@.map_values(|l: String| l@),
            updated_at: s.updated_at@,
            trust: s.trust@,
        }),
{
}

/// **What is listed and what is found stand for their keys and values, one by
/// one.**
pub proof fn law_items_are_their_keys_and_values(
    items: Seq<Item>,
    found: Seq<Found>,
    summaries: Seq<MemorySummary>,
)
    ensures
        store::item_views(items).len() == items.len(),
        forall|i: int|
            0 <= i < items.len() ==> #[trigger] store::item_views(items)[i] == (ItemView {
                key: items[i].key@,
                value: items[i].value@,
            }),
        store::found_views(found).len() == found.len(),
        forall|i: int|
            0 <= i < found.len() ==> #[trigger] store::found_views(found)[i] == (FoundView {
                key: found[i].key@,
                value: found[i].value@,
            }),
        server::summary_views(summaries).len() == summaries.len(),
        forall|i: int|
            0 <= i < summaries.len() ==> #[trigger] server::summary_views(summaries)[i]
                == summaries[i]@,
{
}

/// **Paths, plans and resolved targets stand for their own fields.**
pub proof fn law_paths_and_plans_are_their_fields(p: FilePath, c: ConnectPlan, v: ResolvedVta)
    ensures
        p@ == (FilePathView {
            base: p.base@,
            beside: p.beside,
            names: p.names@.map_values(|n: String| n@),
        }),
        c@ == (ConnectPlanView {
            agent_did: text::option_view(c.agent_did),
            agent_key: text::option_view(c.agent_key),
            vta_did: text::option_view(c.vta_did),
            mediator_did: text::option_view(c.mediator_did),
            url: text::option_view(c.url),
            session_key: text::option_view(c.session_key),
            service_name: text::option_view(c.service_name),
            sessions_dir: match c.sessions_dir {
                Some(d) => Some(d@),
                None => None,
            },
        }),
        v@ == (ResolvedView {
            slug: v.slug@,
            vta_did: v.vta_did@,
            mediator_did: text::option_view(v.mediator_did),
            url: text::option_view(v.url),
        }),
{
}

/// **A result stands for what it holds**, in success and in failure.
pub proof fn law_results_are_what_they_hold(
    key: Result<MemoryKey, KeyError>,
    vta: Result<ResolvedVta, ResolveError>,
    context: Result<String, SetupError>,
    way: Result<WayIn, SetupError>,
    plan: Result<ConnectPlan, NoPlace>,
    place: Result<FilePath, NoPlace>,
    parsed: Option<MemoryRecord>,
)
    ensures
        key matches Ok(k) ==> record::key_outcome(key) == Ok::<KeyView, KeyErrorView>(k@),
        key matches Err(e) ==> record::key_outcome(key) == Err::<KeyView, KeyErrorView>(e@),
        vta matches Ok(v) ==> pnm::resolve_outcome(vta) == Ok::<
            ResolvedView,
            pnm::ResolveErrorView,
        >(v@),
        vta matches Err(e) ==> pnm::resolve_outcome(vta) == Err::<
            ResolvedView,
            pnm::ResolveErrorView,
        >(e@),
        context matches Ok(c) ==> setup::context_outcome(context) == Ok::<
            Seq<char>,
            setup::SetupErrorView,
        >(c@),
        context matches Err(e) ==> setup::context_outcome(context) == Err::<
            Seq<char>,
            setup::SetupErrorView,
        >(e@),
        way matches Ok(w) ==> setup::way_outcome(way) == Ok::<
            setup::WayInView,
            setup::SetupErrorView,
        >(w@),
        way matches Err(e) ==> setup::way_outcome(way) == Err::<
            setup::WayInView,
            setup::SetupErrorView,
        >(e@),
        plan matches Ok(p) ==> config::plan_outcome(plan) == Ok::<ConnectPlanView, NoPlace>(p@),
        plan matches Err(e) ==> config::plan_outcome(plan) == Err::<ConnectPlanView, NoPlace>(e),
        place matches Ok(p) ==> config::place_view(place) == Ok::<FilePathView, NoPlace>(p@),
        place matches Err(e) ==> config::place_view(place) == Err::<FilePathView, NoPlace>(e),
        parsed matches Some(r) ==> record::maybe_record(parsed) == Some(r@),
        parsed is None ==> record::maybe_record(parsed) is None,
{
}

/// **Errors stand for what they say**: the text they carry, in the variant they
/// are.
pub proof fn law_errors_are_what_they_carry(k: KeyError, t: ToolError, w: WayIn)
    ensures
        k matches KeyError::EmptySlug(n) ==> k@ == KeyErrorView::EmptySlug(n@),
        k matches KeyError::Malformed(n) ==> k@ == KeyErrorView::Malformed(n@),
        k matches KeyError::UnknownType(n) ==> k@ == KeyErrorView::UnknownType(n@),
        t matches ToolError::InvalidParams(m) ==> t@ == ToolErrorView::InvalidParams(m@),
        t matches ToolError::Internal(m) ==> t@ == ToolErrorView::Internal(m@),
        w@ == (setup::WayInView {
            mediator_did: w.mediator_did@,
            rest_url: text::option_view(w.rest_url),
        }),
{
}

// ---------------------------------------------------------------------------
// What a caller asks for
// ---------------------------------------------------------------------------

/// **A type that is asked for narrows to that type**: where none is asked for,
/// nothing is narrowed, and one that nobody knows is refused by name.
pub proof fn law_a_type_asked_for_is_that_type(raw: Option<Seq<char>>)
    ensures
        raw is None ==> server::maybe_type(raw) == Ok::<Option<MemoryType>, ToolErrorView>(None),
        raw matches Some(t) ==> (server::maybe_type(raw) == match record::parsed_type(t) {
            Some(kind) => Ok::<Option<MemoryType>, ToolErrorView>(Some(kind)),
            None => Err(
                ToolErrorView::InvalidParams(
                    "unknown memory type `"@ + t
                        + "`; expected user, feedback, project or reference"@,
                ),
            ),
        }),
{
}

// ---------------------------------------------------------------------------
// What a person is told
// ---------------------------------------------------------------------------

/// **A key that cannot be read is named in the refusal.**
pub proof fn law_a_bad_key_is_named(t: Seq<char>)
    ensures
        text::contains_text(KeyErrorView::EmptySlug(t).message(), t),
        text::contains_text(KeyErrorView::Malformed(t).message(), t),
        text::contains_text(KeyErrorView::UnknownType(t).message(), t),
{
    text_laws::lemma_holds_its_middle(
        "`"@,
        t,
        "` contains no characters usable in a memory name (letters, digits, `-`)"@,
    );
    text_laws::lemma_holds_its_middle(
        "memory key `"@,
        t,
        "` is not `<type>/<name>`; types are: user, feedback, project, reference"@,
    );
    text_laws::lemma_holds_its_middle(
        "unknown memory type `"@,
        t,
        "`; expected one of: user, feedback, project, reference"@,
    );
}

proof fn lemma_holds_both(
    a: Seq<char>,
    x: Seq<char>,
    b: Seq<char>,
    y: Seq<char>,
    c: Seq<char>,
)
    ensures
        text::contains_text(a + x + b + y + c, x),
        text::contains_text(a + x + b + y + c, y),
{
    assert(a + x + b + y + c == a + x + (b + y + c));
    text_laws::lemma_holds_its_middle(a, x, b + y + c);
    text_laws::lemma_holds_its_middle(a + x + b, y, c);
}

/// **A store that acted on another key is told on with both keys.**
pub proof fn law_a_wrong_echo_names_both_keys(e: EchoError)
    ensures
        match e {
            EchoError::Stored { got, wanted } => text::contains_text(e.message(), got@)
                && text::contains_text(e.message(), wanted@),
            EchoError::Deleted { got, wanted } => text::contains_text(e.message(), got@)
                && text::contains_text(e.message(), wanted@),
        },
{
    match e {
        EchoError::Stored { got, wanted } => {
            lemma_holds_both(
                "the VTA stored memory `"@,
                got@,
                "` when `"@,
                wanted@,
                "` was requested"@,
            );
        },
        EchoError::Deleted { got, wanted } => {
            lemma_holds_both(
                "the VTA deleted memory `"@,
                got@,
                "` when `"@,
                wanted@,
                "` was requested"@,
            );
        },
    }
}

/// **A file that cannot be used is named, with the cause.**
pub proof fn law_a_bad_file_is_named_with_the_cause(e: PnmLoadError)
    ensures
        match e {
            PnmLoadError::Unreadable { path, cause } => text::contains_text(e.message(), path@)
                && text::contains_text(e.message(), cause@),
            PnmLoadError::Garbled { path, cause } => text::contains_text(e.message(), path@)
                && text::contains_text(e.message(), cause@),
        },
{
    let none = Seq::<char>::empty();
    match e {
        PnmLoadError::Unreadable { path, cause } => {
            lemma_holds_both("reading "@, path@, ": "@, cause@, none);
            assert("reading "@ + path@ + ": "@ + cause@ + none == e.message());
        },
        PnmLoadError::Garbled { path, cause } => {
            lemma_holds_both("parsing "@, path@, ": "@, cause@, none);
            assert("parsing "@ + path@ + ": "@ + cause@ + none == e.message());
        },
    }
}

/// **A missing configuration says where it was looked for, why, and what to
/// run**; a newer one says which version it is.
pub proof fn law_a_missing_configuration_says_what_to_run(e: ConfigError)
    ensures
        match e {
            ConfigError::Missing { path, cause } => {
                &&& text::contains_text(e.message(), path@)
                &&& text::contains_text(e.message(), cause@)
                &&& text::contains_text(e.message(), "vta-agent-memory setup"@)
            },
            ConfigError::Garbled { path, cause } => {
                &&& text::contains_text(e.message(), path@)
                &&& text::contains_text(e.message(), cause@)
            },
            ConfigError::Newer { path, version } => {
                &&& text::contains_text(e.message(), path@)
                &&& text::contains_text(e.message(), text::decimal(version as nat))
                &&& text::contains_text(e.message(), "upgrade the binary"@)
            },
        },
{
    let none = Seq::<char>::empty();
    match e {
        ConfigError::Missing { path, cause } => {
            let tail =
                ").\n\nRun:\n  vta-agent-memory setup --vta <did:… or pnm name>\n\n(or just `vta-agent-memory setup`, to use your default `pnm` VTA)"@;
            lemma_holds_both("no memory configuration at "@, path@, " ("@, cause@, tail);
            reveal_strlit(
                ").\n\nRun:\n  vta-agent-memory setup --vta <did:… or pnm name>\n\n(or just `vta-agent-memory setup`, to use your default `pnm` VTA)",
            );
            reveal_strlit(").\n\nRun:\n  ");
            reveal_strlit("vta-agent-memory setup");
            reveal_strlit(
                " --vta <did:… or pnm name>\n\n(or just `vta-agent-memory setup`, to use your default `pnm` VTA)",
            );
            let a = ").\n\nRun:\n  "@;
            let b =
                " --vta <did:… or pnm name>\n\n(or just `vta-agent-memory setup`, to use your default `pnm` VTA)"@;
            assert(tail == a + "vta-agent-memory setup"@ + b);
            text_laws::lemma_holds_its_middle(a, "vta-agent-memory setup"@, b);
            let head = "no memory configuration at "@ + path@ + " ("@ + cause@;
            text_laws::lemma_holds_what_its_parts_hold(
                head,
                tail,
                none,
                "vta-agent-memory setup"@,
            );
            assert(head + tail + none == e.message());
        },
        ConfigError::Garbled { path, cause } => {
            lemma_holds_both("parsing "@, path@, ": "@, cause@, none);
            assert("parsing "@ + path@ + ": "@ + cause@ + none == e.message());
        },
        ConfigError::Newer { path, version } => {
            let known = ", this build understands "@ + text::decimal(config::CONFIG_VERSION as nat);
            let tail = known + ") — upgrade the binary"@;
            let middle = " was written by a newer vta-agent-memory (config version "@;
            lemma_holds_both(none, path@, middle, text::decimal(version as nat), tail);
            assert(none + path@ + middle + text::decimal(version as nat) + tail == e.message());
            reveal_strlit(") — upgrade the binary");
            reveal_strlit(") — ");
            reveal_strlit("upgrade the binary");
            assert(") — upgrade the binary"@ == ") — "@ + "upgrade the binary"@);
            let head = path@ + middle + text::decimal(version as nat) + known + ") — "@;
            text_laws::lemma_holds_its_middle(head, "upgrade the binary"@, none);
            assert(head + "upgrade the binary"@ + none == e.message());
        },
    }
}

proof fn lemma_ends_with(a: Seq<char>, x: Seq<char>)
    ensures
        text::contains_text(a + x, x),
{
    let none = Seq::<char>::empty();
    text_laws::lemma_holds_its_middle(a, x, none);
    assert(a + x + none == a + x);
}

/// **What setup failed at is told with the cause.**
pub proof fn law_a_failed_setup_tells_the_cause(e: setup::SetupErrorView)
    ensures
        match e {
            setup::SetupErrorView::ConfigExists { path } => text::contains_text(e.message(), path),
            setup::SetupErrorView::Unresolved { cause } => e.message() == cause.message(),
            setup::SetupErrorView::UnknownContext { id, available } => text::contains_text(
                e.message(),
                id,
            ) && text::contains_text(e.message(), available),
            setup::SetupErrorView::SeveralContexts { available } => text::contains_text(
                e.message(),
                available,
            ),
            setup::SetupErrorView::NoAccess { context_id, cause } => text::contains_text(
                e.message(),
                context_id,
            ) && text::contains_text(e.message(), cause),
            setup::SetupErrorView::OperatorUnreachable { vta, cause } => text::contains_text(
                e.message(),
                vta,
            ) && text::contains_text(e.message(), cause),
            setup::SetupErrorView::ContextsUnknown { cause } => text::contains_text(
                e.message(),
                cause,
            ),
            setup::SetupErrorView::NoKey { cause } => text::contains_text(e.message(), cause),
            setup::SetupErrorView::LookUpFailed { vta_did, cause } => text::contains_text(
                e.message(),
                vta_did,
            ) && text::contains_text(e.message(), cause),
            setup::SetupErrorView::Unreachable { label, cause } => text::contains_text(
                e.message(),
                label,
            ) && text::contains_text(e.message(), cause),
            setup::SetupErrorView::NotWritten { path, cause } => text::contains_text(
                e.message(),
                path,
            ) && text::contains_text(e.message(), cause),
            _ => true,
        },
{
    let none = Seq::<char>::empty();
    match e {
        setup::SetupErrorView::ConfigExists { path } => {
            let tail =
                " already exists — pass --force to replace it (this discards the current agent identity; revoke it afterwards with `pnm acl delete`)"@;
            text_laws::lemma_holds_its_middle(none, path, tail);
            assert(none + path + tail == e.message());
        },
        setup::SetupErrorView::UnknownContext { id, available } => {
            lemma_holds_both(
                "no trust context `"@,
                id,
                "` on this VTA.\n\nAvailable: "@,
                available,
                "\n\nCreate one with:\n  pnm contexts create --name "@ + id,
            );
            assert("no trust context `"@ + id + "` on this VTA.\n\nAvailable: "@ + available + (
            "\n\nCreate one with:\n  pnm contexts create --name "@ + id) == e.message());
        },
        setup::SetupErrorView::SeveralContexts { available } => {
            lemma_ends_with(
                "several trust contexts exist — choose which one holds these memories with --context <id>.\n\nAvailable: "@,
                available,
            );
        },
        setup::SetupErrorView::NoAccess { context_id, cause } => {
            let a = "the identity connected but cannot read memories in context `"@;
            let b = "` — check `pnm acl list` shows it with access to that context: "@;
            lemma_holds_both(a, context_id, b, cause, none);
            assert(a + context_id + b + cause + none == e.message());
        },
        setup::SetupErrorView::OperatorUnreachable { vta, cause } => {
            let a = "connecting to VTA `"@;
            let b =
                "` with the stored pnm session — run `pnm auth status` to check it, or `pnm setup` if you have not logged in on this machine: "@;
            lemma_holds_both(a, vta, b, cause, none);
            assert(a + vta + b + cause + none == e.message());
        },
        setup::SetupErrorView::ContextsUnknown { cause } => {
            lemma_ends_with("listing trust contexts: "@, cause);
        },
        setup::SetupErrorView::NoKey { cause } => {
            lemma_ends_with("minting the agent did:key: "@, cause);
        },
        setup::SetupErrorView::LookUpFailed { vta_did, cause } => {
            let a = "resolving the VTA's DID document ("@;
            lemma_holds_both(a, vta_did, "): "@, cause, none);
            assert(a + vta_did + "): "@ + cause + none == e.message());
        },
        setup::SetupErrorView::Unreachable { label, cause } => {
            let a = "connecting as the "@;
            let b = " just configured: "@;
            lemma_holds_both(a, label, b, cause, none);
            assert(a + label + b + cause + none == e.message());
        },
        setup::SetupErrorView::NotWritten { path, cause } => {
            lemma_holds_both("writing "@, path, ": "@, cause, none);
            assert("writing "@ + path + ": "@ + cause + none == e.message());
        },
        _ => {},
    }
}

/// **What enrolment failed at is told with the cause**, and with the commands
/// that grant it where a grant is what is wanting.
pub proof fn law_a_failed_enrolment_tells_the_cause(e: EnrolErrorView)
    ensures
        match e {
            EnrolErrorView::NothingPending { path, cause } => text::contains_text(e.message(), path)
                && text::contains_text(e.message(), cause),
            EnrolErrorView::Garbled { path, cause } => text::contains_text(e.message(), path)
                && text::contains_text(e.message(), cause),
            EnrolErrorView::Newer { path } => text::contains_text(e.message(), path),
            EnrolErrorView::AlreadyPending { did, context_id, commands } => {
                &&& text::contains_text(e.message(), did)
                &&& text::contains_text(e.message(), context_id)
                &&& text::contains_text(e.message(), commands)
            },
            EnrolErrorView::AlreadyEnrolled { path } => text::contains_text(e.message(), path),
            EnrolErrorView::Nowhere(place) => e.message() == place.message(),
            EnrolErrorView::ConnectFailed { did, cause, commands } => {
                &&& text::contains_text(e.message(), did)
                &&& text::contains_text(e.message(), cause)
                &&& text::contains_text(e.message(), commands)
            },
            EnrolErrorView::NoAccess { context_id, cause } => text::contains_text(
                e.message(),
                context_id,
            ) && text::contains_text(e.message(), cause),
            EnrolErrorView::NotWritten { path, cause } => text::contains_text(e.message(), path)
                && text::contains_text(e.message(), cause),
        },
{
    let none = Seq::<char>::empty();
    match e {
        EnrolErrorView::NothingPending { path, cause } => {
            lemma_holds_both(
                "nothing is waiting to be connected at "@,
                path,
                " ("@,
                cause,
                ").\n\nStart with:\n  vta-agent-memory init --vta-did <did:…> --context <id>"@,
            );
        },
        EnrolErrorView::Garbled { path, cause } => {
            lemma_holds_both("parsing "@, path, ": "@, cause, none);
            assert("parsing "@ + path + ": "@ + cause + none == e.message());
        },
        EnrolErrorView::Newer { path } => {
            let tail = " was written by a newer vta-agent-memory — upgrade the binary"@;
            text_laws::lemma_holds_its_middle(none, path, tail);
            assert(none + path + tail == e.message());
        },
        EnrolErrorView::AlreadyPending { did, context_id, commands } => {
            lemma_holds_three(
                "an enrolment is already pending for "@,
                did,
                " in context `"@,
                context_id,
                "`.\n\nGrant it:\n"@,
                commands,
                "\n\nThen:\n  vta-agent-memory connect\n\nOr start over with --force."@,
            );
        },
        EnrolErrorView::AlreadyEnrolled { path } => {
            let tail =
                " already exists — this machine is already enrolled.\n\nPass --force to replace it, and revoke the old agent afterwards with `pnm acl delete`."@;
            text_laws::lemma_holds_its_middle(none, path, tail);
            assert(none + path + tail == e.message());
        },
        EnrolErrorView::Nowhere(_) => {},
        EnrolErrorView::ConnectFailed { did, cause, commands } => {
            lemma_holds_three(
                "connecting as "@,
                did,
                " failed: "@,
                cause,
                "\n\nIf the grant has not been made yet, run this where you hold VTA admin:\n"@,
                commands,
                "\n\nthen try again."@,
            );
        },
        EnrolErrorView::NoAccess { context_id, cause } => {
            let a = "authenticated, but cannot read memories in context `"@;
            let b = "` — check `pnm acl list` shows this agent with access to it: "@;
            lemma_holds_both(a, context_id, b, cause, none);
            assert(a + context_id + b + cause + none == e.message());
        },
        EnrolErrorView::NotWritten { path, cause } => {
            lemma_holds_both("writing "@, path, ": "@, cause, none);
            assert("writing "@ + path + ": "@ + cause + none == e.message());
        },
    }
}

proof fn lemma_holds_three(
    a: Seq<char>,
    x: Seq<char>,
    b: Seq<char>,
    y: Seq<char>,
    c: Seq<char>,
    z: Seq<char>,
    d: Seq<char>,
)
    ensures
        text::contains_text(a + x + b + y + c + z + d, x),
        text::contains_text(a + x + b + y + c + z + d, y),
        text::contains_text(a + x + b + y + c + z + d, z),
{
    lemma_holds_both(a, x, b, y, c + z + d);
    assert(a + x + b + y + (c + z + d) == a + x + b + y + c + z + d);
    text_laws::lemma_holds_its_middle(a + x + b + y + c, z, d);
}

} // verus!
