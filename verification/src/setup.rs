//! Setup: turn an existing `pnm` login into a working memory service.
//!
//! What setup asks of the outside is an operator's connection, a key, a grant,
//! a lookup and a probe. What it decides is here: which context, which grant,
//! which way in, and that nothing is kept which was not proved to work.
//!
//! A dedicated identity is the default. Reusing the operator's session is one
//! flag away and stores no key, but the memory service would then have every
//! context and every capability that login has, and revoking it would mean
//! revoking the operator's own login.

use vstd::prelude::*;
use vstd::string::*;

use crate::config::{
    Config, ConnectPlan, ConnectPlanView, Identity, CONFIG_VERSION, DEFAULT_RECALL_LIMIT,
};
use crate::config;
use crate::files::{FilePath, FilePathView, NoPlace};
use crate::pnm::{PnmConfig, ResolveError, ResolveErrorView, ResolvedVta};
use crate::pnm;
use crate::text;

verus! {

/// The role granted to a dedicated memory agent: the least-privileged one that
/// still reaches a context.
///
/// It must not be `admin`: for that role an empty context list means
/// *unrestricted*, so an entry that ever lost its scoping would silently reach
/// every context. It must not be `monitor` either, which is authorized nowhere.
pub const AGENT_ROLE: &'static str = "application";

/// The label that a grant carries.
pub const GRANT_LABEL: &'static str = "vta-agent-memory";

/// What setup decided, for printing.
#[derive(Debug, Clone)]
pub struct SetupOutcome {
    pub config_path: FilePath,
    pub vta_did: String,
    pub context_id: String,
    pub identity_label: String,
    pub agent_did: Option<String>,
    pub memories_found: usize,
}

/// Inputs, straight off the command line.
#[derive(Debug, Clone)]
pub struct SetupArgs {
    /// The operator login to bootstrap from: a DID or a `pnm` slug.
    pub vta: String,
    /// Service name the session is stored under.
    pub service_name: Option<String>,
    /// Trust context for memories. Found out when absent.
    pub context: Option<String>,
    /// Reuse the operator session instead of minting a dedicated agent.
    pub use_session: bool,
    /// Where to write the configuration.
    pub config_path: FilePath,
    /// Overwrite an existing configuration.
    pub force: bool,
}

/// Why setup stopped.
#[derive(Debug, Clone)]
pub enum SetupError {
    /// There is a configuration already.
    ConfigExists { path: String },
    /// The operator login that was named is not one of `pnm`'s.
    Unresolved { cause: ResolveError },
    /// The context asked for does not exist.
    UnknownContext { id: String, available: String },
    /// There is no context at all.
    NoContexts,
    /// There are several contexts, and none was chosen.
    SeveralContexts { available: String },
    /// No DIDComm mediator is advertised, only TSP.
    TspOnly { rest_url: Option<String>, vta: String },
    /// Only REST is advertised.
    RestOnly { url: String, vta: String },
    /// What is advertised is not known here.
    UnknownTransport { vta: String },
    /// The identity connected, and cannot read the context.
    NoAccess { context_id: String, cause: String },
    /// The operator's own connection failed.
    OperatorUnreachable { vta: String, cause: String },
    /// The contexts could not be listed.
    ContextsUnknown { cause: String },
    /// No key could be minted.
    NoKey { cause: String },
    /// The grant was refused.
    GrantRefused { did: String, context_id: String, cause: String },
    /// The DID document could not be had.
    LookUpFailed { vta_did: String, cause: String },
    /// The new identity could not connect.
    Unreachable { label: String, cause: String },
    /// The configuration could not be written.
    NotWritten { path: String, cause: String },
}

/// A setup error as a value.
#[verifier::ext_equal]
pub enum SetupErrorView {
    ConfigExists { path: Seq<char> },
    Unresolved { cause: ResolveErrorView },
    UnknownContext { id: Seq<char>, available: Seq<char> },
    NoContexts,
    SeveralContexts { available: Seq<char> },
    TspOnly { rest_url: Option<Seq<char>>, vta: Seq<char> },
    RestOnly { url: Seq<char>, vta: Seq<char> },
    UnknownTransport { vta: Seq<char> },
    NoAccess { context_id: Seq<char>, cause: Seq<char> },
    OperatorUnreachable { vta: Seq<char>, cause: Seq<char> },
    ContextsUnknown { cause: Seq<char> },
    NoKey { cause: Seq<char> },
    GrantRefused { did: Seq<char>, context_id: Seq<char>, cause: Seq<char> },
    LookUpFailed { vta_did: Seq<char>, cause: Seq<char> },
    Unreachable { label: Seq<char>, cause: Seq<char> },
    NotWritten { path: Seq<char>, cause: Seq<char> },
}

impl View for SetupError {
    type V = SetupErrorView;

    open spec fn view(&self) -> SetupErrorView {
        match self {
            SetupError::ConfigExists { path } => SetupErrorView::ConfigExists { path: path@ },
            SetupError::Unresolved { cause } => SetupErrorView::Unresolved { cause: cause@ },
            SetupError::UnknownContext { id, available } => SetupErrorView::UnknownContext {
                id: id@,
                available: available@,
            },
            SetupError::NoContexts => SetupErrorView::NoContexts,
            SetupError::SeveralContexts { available } => SetupErrorView::SeveralContexts {
                available: available@,
            },
            SetupError::TspOnly { rest_url, vta } => SetupErrorView::TspOnly {
                rest_url: text::option_view(*rest_url),
                vta: vta@,
            },
            SetupError::RestOnly { url, vta } => SetupErrorView::RestOnly { url: url@, vta: vta@ },
            SetupError::UnknownTransport { vta } => SetupErrorView::UnknownTransport {
                vta: vta@,
            },
            SetupError::NoAccess { context_id, cause } => SetupErrorView::NoAccess {
                context_id: context_id@,
                cause: cause@,
            },
            SetupError::OperatorUnreachable { vta, cause } => SetupErrorView::OperatorUnreachable {
                vta: vta@,
                cause: cause@,
            },
            SetupError::ContextsUnknown { cause } => SetupErrorView::ContextsUnknown {
                cause: cause@,
            },
            SetupError::NoKey { cause } => SetupErrorView::NoKey {
                cause: cause@,
            },
            SetupError::GrantRefused { did, context_id, cause } => SetupErrorView::GrantRefused {
                did: did@,
                context_id: context_id@,
                cause: cause@,
            },
            SetupError::LookUpFailed { vta_did, cause } => SetupErrorView::LookUpFailed {
                vta_did: vta_did@,
                cause: cause@,
            },
            SetupError::Unreachable { label, cause } => SetupErrorView::Unreachable {
                label: label@,
                cause: cause@,
            },
            SetupError::NotWritten { path, cause } => SetupErrorView::NotWritten {
                path: path@,
                cause: cause@,
            },
        }
    }
}

/// The advice that goes with an agent no dedicated identity can reach.
pub open spec fn use_the_session(vta: Seq<char>) -> Seq<char> {
    ".\n\nUse the operator session instead:\n  vta-agent-memory setup --vta "@ + vta
        + " --use-session"@
}

impl SetupErrorView {
    /// What a person is told.
    pub open spec fn message(self) -> Seq<char> {
        match self {
            SetupErrorView::ConfigExists { path } => path
                + " already exists — pass --force to replace it (this discards the current agent identity; revoke it afterwards with `pnm acl delete`)"@,
            SetupErrorView::Unresolved { cause } => cause.message(),
            SetupErrorView::UnknownContext { id, available } => "no trust context `"@ + id
                + "` on this VTA.\n\nAvailable: "@ + available
                + "\n\nCreate one with:\n  pnm contexts create --name "@ + id,
            SetupErrorView::NoContexts =>
                "this VTA has no trust contexts yet. Create one for your memories:\n  pnm contexts create --name memory"@,
            SetupErrorView::SeveralContexts { available } =>
                "several trust contexts exist — choose which one holds these memories with --context <id>.\n\nAvailable: "@
                + available,
            SetupErrorView::TspOnly { rest_url, vta } =>
                "this VTA advertises TSP but no DIDComm mediator, so a dedicated agent identity has no way to connect"@
                + match rest_url {
                Some(u) => " (REST is available at "@ + u
                    + ", but a did:key agent authenticates over DIDComm)"@,
                None => seq![],
            } + use_the_session(vta),
            SetupErrorView::RestOnly { url, vta } => "this VTA advertises only REST ("@ + url
                + "), so a dedicated agent identity cannot authenticate over DIDComm"@
                + use_the_session(vta),
            SetupErrorView::UnknownTransport { vta } =>
                "this VTA advertises a transport this build does not know how to give a dedicated agent identity"@
                + use_the_session(vta),
            SetupErrorView::NoAccess { context_id, cause } =>
                "the identity connected but cannot read memories in context `"@ + context_id
                + "` — check `pnm acl list` shows it with access to that context: "@ + cause,
            SetupErrorView::OperatorUnreachable { vta, cause } => "connecting to VTA `"@ + vta
                + "` with the stored pnm session — run `pnm auth status` to check it, or `pnm setup` if you have not logged in on this machine: "@
                + cause,
            SetupErrorView::ContextsUnknown { cause } => "listing trust contexts: "@ + cause,
            SetupErrorView::NoKey { cause } => "minting the agent did:key: "@ + cause,
            SetupErrorView::GrantRefused { did, context_id, cause } =>
                "granting the memory agent `"@ + did + "` access to context `"@ + context_id
                + "` (needs an operator login with admin over that context): "@ + cause,
            SetupErrorView::LookUpFailed { vta_did, cause } =>
                "resolving the VTA's DID document ("@ + vta_did + "): "@ + cause,
            SetupErrorView::Unreachable { label, cause } => "connecting as the "@ + label
                + " just configured: "@ + cause,
            SetupErrorView::NotWritten { path, cause } => "writing "@ + path + ": "@ + cause,
        }
    }
}

fn append_use_the_session(out: &mut String, vta: &str)
    ensures
        final(out)@ == old(out)@ + use_the_session(vta@),
{
    let ghost before = out@;
    out.append(".\n\nUse the operator session instead:\n  vta-agent-memory setup --vta ");
    out.append(vta);
    out.append(" --use-session");
    assert(out@ == before + use_the_session(vta@));
}

impl SetupError {
    /// What a person is told.
    pub fn to_string(&self) -> (res: String)
        ensures
            res@ == self@.message(),
    {
        let mut out = String::new();
        match self {
            SetupError::ConfigExists { path } => {
                out.append(path.as_str());
                out.append(
                    " already exists — pass --force to replace it (this discards the current agent identity; revoke it afterwards with `pnm acl delete`)",
                );
            },
            SetupError::Unresolved { cause } => {
                out.append(cause.to_string().as_str());
            },
            SetupError::UnknownContext { id, available } => {
                out.append("no trust context `");
                out.append(id.as_str());
                out.append("` on this VTA.\n\nAvailable: ");
                out.append(available.as_str());
                out.append("\n\nCreate one with:\n  pnm contexts create --name ");
                out.append(id.as_str());
            },
            SetupError::NoContexts => {
                out.append(
                    "this VTA has no trust contexts yet. Create one for your memories:\n  pnm contexts create --name memory",
                );
            },
            SetupError::SeveralContexts { available } => {
                out.append(
                    "several trust contexts exist — choose which one holds these memories with --context <id>.\n\nAvailable: ",
                );
                out.append(available.as_str());
            },
            SetupError::TspOnly { rest_url, vta } => {
                out.append(
                    "this VTA advertises TSP but no DIDComm mediator, so a dedicated agent identity has no way to connect",
                );
                if let Some(u) = rest_url {
                    out.append(" (REST is available at ");
                    out.append(u.as_str());
                    out.append(", but a did:key agent authenticates over DIDComm)");
                }
                append_use_the_session(&mut out, vta.as_str());
            },
            SetupError::RestOnly { url, vta } => {
                out.append("this VTA advertises only REST (");
                out.append(url.as_str());
                out.append("), so a dedicated agent identity cannot authenticate over DIDComm");
                append_use_the_session(&mut out, vta.as_str());
            },
            SetupError::UnknownTransport { vta } => {
                out.append(
                    "this VTA advertises a transport this build does not know how to give a dedicated agent identity",
                );
                append_use_the_session(&mut out, vta.as_str());
            },
            SetupError::NoAccess { context_id, cause } => {
                out.append("the identity connected but cannot read memories in context `");
                out.append(context_id.as_str());
                out.append(
                    "` — check `pnm acl list` shows it with access to that context: ",
                );
                out.append(cause.as_str());
            },
            SetupError::OperatorUnreachable { vta, cause } => {
                out.append("connecting to VTA `");
                out.append(vta.as_str());
                out.append(
                    "` with the stored pnm session — run `pnm auth status` to check it, or `pnm setup` if you have not logged in on this machine: ",
                );
                out.append(cause.as_str());
            },
            SetupError::ContextsUnknown { cause } => {
                out.append("listing trust contexts: ");
                out.append(cause.as_str());
            },
            SetupError::NoKey { cause } => {
                out.append("minting the agent did:key: ");
                out.append(cause.as_str());
            },
            SetupError::GrantRefused { did, context_id, cause } => {
                out.append("granting the memory agent `");
                out.append(did.as_str());
                out.append("` access to context `");
                out.append(context_id.as_str());
                out.append("` (needs an operator login with admin over that context): ");
                out.append(cause.as_str());
            },
            SetupError::LookUpFailed { vta_did, cause } => {
                out.append("resolving the VTA's DID document (");
                out.append(vta_did.as_str());
                out.append("): ");
                out.append(cause.as_str());
            },
            SetupError::Unreachable { label, cause } => {
                out.append("connecting as the ");
                out.append(label.as_str());
                out.append(" just configured: ");
                out.append(cause.as_str());
            },
            SetupError::NotWritten { path, cause } => {
                out.append("writing ");
                out.append(path.as_str());
                out.append(": ");
                out.append(cause.as_str());
            },
        }
        assert(out@ == self@.message());
        out
    }
}

/// An existing configuration is replaced only where that was asked for.
pub fn may_write(path: &str, present: bool, force: bool) -> (res: Result<(), SetupError>)
    ensures
        match res {
            Ok(_) => !present || force,
            Err(e) => present && !force && e@ == (SetupErrorView::ConfigExists { path: path@ }),
        },
{
    if present && !force {
        return Err(SetupError::ConfigExists { path: path.to_owned() });
    }
    Ok(())
}

// ---------------------------------------------------------------------------
// The context
// ---------------------------------------------------------------------------

/// The contexts as a list to read.
pub open spec fn listed(ids: Seq<Seq<char>>) -> Seq<char> {
    if ids.len() == 0 {
        "(none)"@
    } else {
        text::joined(ids, ", "@)
    }
}

/// The contexts as a list to read.
pub fn render_list(ids: &[String]) -> (res: String)
    ensures
        res@ == listed(text::texts(ids@)),
{
    if ids.len() == 0 {
        return "(none)".to_owned();
    }
    let mut parts: Vec<String> = Vec::new();
    let mut i: usize = 0;
    while i < ids.len()
        invariant
            i <= ids.len(),
            parts@ == ids@.take(i as int),
        decreases ids.len() - i,
    {
        parts.push(ids[i].clone());
        i += 1;
    }
    assert(ids@.take(ids@.len() as int) == ids@);
    text::join(&parts, ", ")
}

/// The context that memories go to: the one asked for, if it exists, and the
/// only one there is, if none was asked for.
pub open spec fn chosen_context(
    ids: Seq<Seq<char>>,
    requested: Option<Seq<char>>,
) -> Result<Seq<char>, SetupErrorView> {
    match requested {
        Some(id) => if ids.contains(id) {
            Ok(id)
        } else {
            Err(SetupErrorView::UnknownContext { id, available: listed(ids) })
        },
        None => if ids.len() == 1 {
            Ok(ids[0])
        } else if ids.len() == 0 {
            Err(SetupErrorView::NoContexts)
        } else {
            Err(SetupErrorView::SeveralContexts { available: listed(ids) })
        },
    }
}

/// A chosen context, or the reason there is none, as a value.
pub open spec fn context_outcome(res: Result<String, SetupError>) -> Result<
    Seq<char>,
    SetupErrorView,
> {
    match res {
        Ok(id) => Ok(id@),
        Err(e) => Err(e@),
    }
}

/// Pick the trust context, or explain how to.
///
/// A context asked for is checked against what exists, so a typo fails here
/// rather than as a refusal on the first save.
pub fn resolve_context(ids: &Vec<String>, requested: Option<&str>) -> (res: Result<
    String,
    SetupError,
>)
    ensures
        context_outcome(res) == chosen_context(
            text::texts(ids@),
            match requested {
                Some(id) => Some(id@),
                None => None,
            },
        ),
{
    let ghost all = text::texts(ids@);
    match requested {
        Some(id) => {
            let mut i: usize = 0;
            while i < ids.len()
                invariant
                    i <= ids.len(),
                    all == text::texts(ids@),
                    requested == Some(id),
                    forall|k: int| 0 <= k < i ==> #[trigger] all[k] != id@,
                decreases ids.len() - i,
            {
                if text::same_text(ids[i].as_str(), id) {
                    assert(all[i as int] == id@);
                    assert(all.contains(id@));
                    return Ok(id.to_owned());
                }
                assert(all[i as int] == ids@[i as int]@);
                i += 1;
            }
            Err(
                SetupError::UnknownContext {
                    id: id.to_owned(),
                    available: render_list(ids.as_slice()),
                },
            )
        },
        None => if ids.len() == 1 {
            Ok(ids[0].clone())
        } else if ids.len() == 0 {
            Err(SetupError::NoContexts)
        } else {
            Err(SetupError::SeveralContexts { available: render_list(ids.as_slice()) })
        },
    }
}

/// **The context is one that exists**, and never a guess: where several exist
/// and none is asked for, none is chosen.
pub proof fn law_the_context_is_never_guessed(
    ids: Seq<Seq<char>>,
    requested: Option<Seq<char>>,
    id: Seq<char>,
)
    requires
        chosen_context(ids, requested) == Ok::<Seq<char>, SetupErrorView>(id),
    ensures
        ids.contains(id),
        requested == Some(id) || requested is None && ids == seq![id],
{
    if requested is None {
        assert(ids[0] == id);
        assert(ids == seq![id]);
    }
}

// ---------------------------------------------------------------------------
// The grant and the way in
// ---------------------------------------------------------------------------

/// What the operator grants a dedicated agent.
#[derive(Debug, Clone)]
pub struct Grant {
    pub did: String,
    pub role: String,
    pub label: String,
    /// The contexts it reaches.
    pub allowed_contexts: Vec<String>,
    /// When it ends, in seconds since the epoch.
    pub expires_at: Option<u64>,
    /// Whether it may approve what others ask for, in any context.
    pub approve_all_contexts: bool,
    /// The contexts in which it may approve what others ask for.
    pub approve_contexts: Vec<String>,
    /// The keys it is limited to.
    pub allowed_keys: Option<Vec<String>>,
}

/// `g` gives this identity the agent's role in exactly one context, and nothing
/// to approve there or anywhere else. It does not end by itself, and it is not
/// limited to certain keys: deleting it is what ends it.
pub open spec fn is_least_grant(g: Grant, did: Seq<char>, context_id: Seq<char>) -> bool {
    &&& g.did@ == did
    &&& g.role@ == AGENT_ROLE@
    &&& g.label@ == GRANT_LABEL@
    &&& text::texts(g.allowed_contexts@) == seq![context_id]
    &&& g.expires_at is None
    &&& !g.approve_all_contexts
    &&& g.approve_contexts@.len() == 0
    &&& g.allowed_keys is None
}

/// Least privilege: this identity, the agent's role, and exactly one context.
pub fn grant_for(did: &str, context_id: &str) -> (res: Grant)
    ensures
        is_least_grant(res, did@, context_id@),
{
    let mut contexts: Vec<String> = Vec::new();
    contexts.push(context_id.to_owned());
    assert(text::texts(contexts@) == seq![context_id@]);
    Grant {
        did: did.to_owned(),
        role: AGENT_ROLE.to_owned(),
        label: GRANT_LABEL.to_owned(),
        allowed_contexts: contexts,
        expires_at: None,
        approve_all_contexts: false,
        approve_contexts: Vec::new(),
        allowed_keys: None,
    }
}

/// **The role is never one whose empty scope means everything.**
pub proof fn law_the_role_is_never_admin()
    ensures
        AGENT_ROLE@ == "application"@,
        AGENT_ROLE@ != "admin"@,
        AGENT_ROLE@ != "monitor"@,
{
    reveal_strlit("application");
    reveal_strlit("admin");
    reveal_strlit("monitor");
    assert(AGENT_ROLE@.len() == 11);
}

/// What a DID document advertises.
#[derive(Debug, Clone)]
pub enum Endpoint {
    Didcomm { mediator_did: String, rest_url: Option<String> },
    Tsp { didcomm_mediator_did: Option<String>, rest_url: Option<String> },
    Rest { url: String },
    /// A transport added since this was written.
    Unknown,
}

/// How a dedicated identity reaches the agent.
#[derive(Debug, Clone)]
pub struct WayIn {
    pub mediator_did: String,
    pub rest_url: Option<String>,
}

/// A way in as a value.
#[verifier::ext_equal]
pub struct WayInView {
    pub mediator_did: Seq<char>,
    pub rest_url: Option<Seq<char>>,
}

impl View for WayIn {
    type V = WayInView;

    open spec fn view(&self) -> WayInView {
        WayInView {
            mediator_did: self.mediator_did@,
            rest_url: text::option_view(self.rest_url),
        }
    }
}

/// What `pnm` was told, which is preferred to what is advertised: discovery
/// cannot find the deployments that need it.
pub open spec fn told(vta: ResolvedVta) -> Option<WayInView> {
    match vta.mediator_did {
        Some(m) => Some(WayInView { mediator_did: m@, rest_url: text::option_view(vta.url) }),
        None => None,
    }
}

/// The URL `pnm` was told, else the one advertised.
pub open spec fn preferred_url(vta: ResolvedVta, advertised: Option<String>) -> Option<Seq<char>> {
    match vta.url {
        Some(u) => Some(u@),
        None => text::option_view(advertised),
    }
}

/// The way in through what is advertised. A dedicated agent authenticates over
/// DIDComm, so it needs a mediator; there is no TSP-only way in for it.
pub open spec fn advertised_way(
    vta: ResolvedVta,
    named: Seq<char>,
    endpoint: Endpoint,
) -> Result<WayInView, SetupErrorView> {
    match endpoint {
        Endpoint::Didcomm { mediator_did, rest_url } => Ok(
            WayInView { mediator_did: mediator_did@, rest_url: preferred_url(vta, rest_url) },
        ),
        Endpoint::Tsp { didcomm_mediator_did, rest_url } => match didcomm_mediator_did {
            Some(m) => Ok(WayInView { mediator_did: m@, rest_url: preferred_url(vta, rest_url) }),
            None => Err(
                SetupErrorView::TspOnly { rest_url: text::option_view(rest_url), vta: named },
            ),
        },
        Endpoint::Rest { url } => Err(SetupErrorView::RestOnly { url: url@, vta: named }),
        Endpoint::Unknown => Err(SetupErrorView::UnknownTransport { vta: named }),
    }
}

/// A way in, or the reason there is none, as a value.
pub open spec fn way_outcome(res: Result<WayIn, SetupError>) -> Result<WayInView, SetupErrorView> {
    match res {
        Ok(w) => Ok(w@),
        Err(e) => Err(e@),
    }
}

/// The way in that `pnm` was configured with, if it was. Where there is one,
/// nothing needs to be looked up.
pub fn configured_way_in(vta: &ResolvedVta) -> (res: Option<WayIn>)
    ensures
        match res {
            Some(w) => told(*vta) == Some(w@),
            None => told(*vta) is None,
        },
{
    match &vta.mediator_did {
        Some(m) => Some(
            WayIn { mediator_did: m.clone(), rest_url: text::copy_option(&vta.url) },
        ),
        None => None,
    }
}

/// The way in through what a DID document advertises. Where there is none, the
/// advice repeats the login as it was named.
pub fn advertised_way_in(vta: &ResolvedVta, named: &str, endpoint: Endpoint) -> (res: Result<
    WayIn,
    SetupError,
>)
    ensures
        way_outcome(res) == advertised_way(*vta, named@, endpoint),
{
    match endpoint {
        Endpoint::Didcomm { mediator_did, rest_url } => Ok(
            WayIn { mediator_did, rest_url: prefer_url(vta, rest_url) },
        ),
        Endpoint::Tsp { didcomm_mediator_did, rest_url } => match didcomm_mediator_did {
            Some(mediator_did) => Ok(
                WayIn { mediator_did, rest_url: prefer_url(vta, rest_url) },
            ),
            None => Err(SetupError::TspOnly { rest_url, vta: named.to_owned() }),
        },
        Endpoint::Rest { url } => Err(SetupError::RestOnly { url, vta: named.to_owned() }),
        Endpoint::Unknown => Err(SetupError::UnknownTransport { vta: named.to_owned() }),
    }
}

fn prefer_url(vta: &ResolvedVta, advertised: Option<String>) -> (res: Option<String>)
    ensures
        text::option_view(res) == preferred_url(*vta, advertised),
{
    match &vta.url {
        Some(u) => Some(u.clone()),
        None => advertised,
    }
}

// ---------------------------------------------------------------------------
// What is kept
// ---------------------------------------------------------------------------

/// The identity that reuses the operator's own session.
pub fn session_identity(vta: &ResolvedVta, service_name: Option<String>) -> (res: Identity)
    ensures
        is_operators(res, *vta, service_name),
{
    Identity::PnmSession {
        session_key: vta.session_key(),
        vta_did: vta.vta_did.clone(),
        service_name,
    }
}

/// The identity of a dedicated agent whose key was just minted.
pub fn agent_identity(
    did: String,
    private_key_multibase: String,
    vta: &ResolvedVta,
    way: WayIn,
) -> (res: Identity)
    ensures
        is_dedicated(res, did, private_key_multibase, *vta, way@),
{
    Identity::Agent {
        did,
        private_key_multibase,
        vta_did: vta.vta_did.clone(),
        mediator_did: way.mediator_did,
        rest_url: way.rest_url,
    }
}

/// The configuration of a fresh setup.
pub fn new_config(context_id: String, identity: Identity) -> (res: Config)
    ensures
        res == (Config {
            version: CONFIG_VERSION,
            context_id,
            identity,
            recall_limit: DEFAULT_RECALL_LIMIT,
        }),
{
    Config { version: CONFIG_VERSION, context_id, identity, recall_limit: DEFAULT_RECALL_LIMIT }
}

/// The DID of the agent that a configuration made its own key for.
pub open spec fn own_did(identity: Identity) -> Option<Seq<char>> {
    match identity {
        Identity::Agent { did, .. } => Some(did@),
        Identity::PnmSession { .. } => None,
        Identity::Session { .. } => None,
    }
}

/// What setup came to, given how many memories the new identity could list, or
/// why it could not. Nothing is kept of a configuration that was not proved to
/// work: what comes back with the outcome is the configuration to write, and
/// without an outcome there is none.
pub fn conclude(
    cfg: Config,
    config_path: FilePath,
    listed: Result<usize, String>,
) -> (res: Result<(Config, SetupOutcome), SetupError>)
    ensures
        match listed {
            Ok(n) => {
                &&& res is Ok
                &&& res->Ok_0.0 == cfg
                &&& is_outcome(res->Ok_0.1, cfg, config_path, n)
            },
            Err(cause) => res is Err && res->Err_0@ == (SetupErrorView::NoAccess {
                context_id: cfg.context_id@,
                cause: cause@,
            }),
        },
{
    match listed {
        Ok(n) => {
            let agent_did = match &cfg.identity {
                Identity::Agent { did, .. } => Some(did.clone()),
                Identity::PnmSession { .. } => None,
                Identity::Session { .. } => None,
            };
            let outcome = SetupOutcome {
                config_path,
                vta_did: cfg.identity.vta_did().to_owned(),
                context_id: cfg.context_id.clone(),
                identity_label: cfg.identity.label().to_owned(),
                agent_did,
                memories_found: n,
            };
            Ok((cfg, outcome))
        },
        Err(cause) => Err(SetupError::NoAccess { context_id: cfg.context_id, cause }),
    }
}

// ---------------------------------------------------------------------------
// From start to end
// ---------------------------------------------------------------------------

/// What setup is in the middle of.
#[derive(Debug)]
pub enum Stage {
    /// Connecting as the operator, the only privileged connection there is.
    Operator,
    /// Finding out which contexts exist.
    Contexts,
    /// Minting a key for the dedicated agent.
    Minting { context_id: String },
    /// Having the agent granted access to the context.
    Granting { context_id: String, did: String, key: String },
    /// Finding out how the agent is reached.
    LookingUp { context_id: String, did: String, key: String },
    /// Connecting as the chosen identity and listing memories.
    Probing { cfg: Config },
    /// Writing the configuration that was proved to work.
    Writing { cfg: Config, outcome: SetupOutcome },
    /// Closing the operator's connection, which holds a live socket that nothing
    /// else closes.
    Closing { result: Result<SetupOutcome, SetupError> },
    /// Nothing more to do.
    Over { result: Result<SetupOutcome, SetupError> },
}

/// What to do next.
#[derive(Debug, Clone, Copy, PartialEq, Eq, Structural)]
pub enum Todo {
    ConnectOperator,
    ListContexts,
    MintKey,
    CreateGrant,
    LookUp,
    Probe,
    Write,
    CloseOperator,
    Report,
}

/// What became of it.
#[derive(Debug, Clone)]
pub enum Event {
    /// It was done.
    Done,
    /// The contexts that exist.
    Contexts(Vec<String>),
    /// A key was minted.
    Minted { did: String, key: String },
    /// What the DID document advertises.
    Advertised(Endpoint),
    /// How many memories were listed.
    Listed(usize),
    /// The connection was made, and listing was refused.
    Refused(String),
    /// It failed.
    Failed(String),
}

/// Setup on its way.
#[derive(Debug)]
pub struct Setup {
    pub args: SetupArgs,
    pub vta: ResolvedVta,
    /// The configuration's path, as a person is shown it.
    pub shown_path: String,
    pub stage: Stage,
}

/// The events that can follow a stage.
pub open spec fn expects(stage: Stage, event: Event) -> bool {
    match stage {
        Stage::Operator => event is Done || event is Failed,
        Stage::Contexts => event is Contexts || event is Failed,
        Stage::Minting { .. } => event is Minted || event is Failed,
        Stage::Granting { .. } => event is Done || event is Failed,
        Stage::LookingUp { .. } => event is Advertised || event is Failed,
        Stage::Probing { .. } => event is Listed || event is Refused || event is Failed,
        Stage::Writing { .. } => event is Done || event is Failed,
        Stage::Closing { .. } => event is Done,
        Stage::Over { .. } => false,
    }
}

/// Setup failed after the operator connected: the connection is to be closed,
/// and then `e` is to be reported.
pub open spec fn closes_with(stage: Stage, e: SetupErrorView) -> bool {
    stage matches Stage::Closing { result } && result is Err && result->Err_0@ == e
}

/// A fresh configuration for this context and this identity.
pub open spec fn is_fresh(cfg: Config, context_id: Seq<char>) -> bool {
    &&& cfg.version == CONFIG_VERSION
    &&& cfg.context_id@ == context_id
    &&& cfg.recall_limit == DEFAULT_RECALL_LIMIT
}

/// `identity` reuses the operator's session.
pub open spec fn is_operators(
    identity: Identity,
    vta: ResolvedVta,
    service_name: Option<String>,
) -> bool {
    identity matches Identity::PnmSession { session_key, vta_did, service_name: s } && session_key@
        == crate::pnm::pnm_session_key(vta.slug@) && vta_did@ == vta.vta_did@ && s == service_name
}

/// `identity` is the dedicated agent with this key, reached this way.
pub open spec fn is_dedicated(
    identity: Identity,
    did: String,
    key: String,
    vta: ResolvedVta,
    way: WayInView,
) -> bool {
    identity matches Identity::Agent {
        did: d,
        private_key_multibase: k,
        vta_did,
        mediator_did,
        rest_url,
    } && d == did && k == key && vta_did@ == vta.vta_did@ && mediator_did@ == way.mediator_did
        && text::option_view(rest_url) == way.rest_url
}

/// `o` reports `cfg`, with which `n` memories were listed.
pub open spec fn is_outcome(o: SetupOutcome, cfg: Config, path: FilePath, n: usize) -> bool {
    &&& o.config_path@ == path@
    &&& o.vta_did@ == cfg.identity.agent()
    &&& o.context_id@ == cfg.context_id@
    &&& o.identity_label@ == cfg.identity.label_text()
    &&& text::option_view(o.agent_did) == own_did(cfg.identity)
    &&& o.memories_found == n
}

/// After `event`, the stage of `s` gives way to `next`.
pub open spec fn leads_to(s: Setup, event: Event, next: Stage) -> bool {
    match s.stage {
        Stage::Operator => match event {
            Event::Done => next is Contexts,
            Event::Failed(cause) => {
                &&& next matches Stage::Over { result }
                &&& result is Err
                &&& result->Err_0@ == (SetupErrorView::OperatorUnreachable {
                    vta: s.args.vta@,
                    cause: cause@,
                })
            },
            _ => false,
        },
        Stage::Contexts => match event {
            Event::Contexts(ids) => match chosen_context(
                text::texts(ids@),
                text::option_view(s.args.context),
            ) {
                Err(e) => closes_with(next, e),
                Ok(id) => if s.args.use_session {
                    &&& next matches Stage::Probing { cfg }
                    &&& is_fresh(cfg, id)
                    &&& is_operators(cfg.identity, s.vta, s.args.service_name)
                } else {
                    next matches Stage::Minting { context_id } && context_id@ == id
                },
            },
            Event::Failed(cause) => closes_with(
                next,
                SetupErrorView::ContextsUnknown { cause: cause@ },
            ),
            _ => false,
        },
        Stage::Minting { context_id } => match event {
            Event::Minted { did, key } => next == (Stage::Granting { context_id, did, key }),
            Event::Failed(cause) => closes_with(next, SetupErrorView::NoKey { cause: cause@ }),
            _ => false,
        },
        Stage::Granting { context_id, did, key } => match event {
            Event::Done => match told(s.vta) {
                Some(way) => {
                    &&& next matches Stage::Probing { cfg }
                    &&& is_fresh(cfg, context_id@)
                    &&& is_dedicated(cfg.identity, did, key, s.vta, way)
                },
                None => next == (Stage::LookingUp { context_id, did, key }),
            },
            Event::Failed(cause) => closes_with(
                next,
                SetupErrorView::GrantRefused {
                    did: did@,
                    context_id: context_id@,
                    cause: cause@,
                },
            ),
            _ => false,
        },
        Stage::LookingUp { context_id, did, key } => match event {
            Event::Advertised(endpoint) => match advertised_way(s.vta, s.args.vta@, endpoint) {
                Ok(way) => {
                    &&& next matches Stage::Probing { cfg }
                    &&& is_fresh(cfg, context_id@)
                    &&& is_dedicated(cfg.identity, did, key, s.vta, way)
                },
                Err(e) => closes_with(next, e),
            },
            Event::Failed(cause) => closes_with(
                next,
                SetupErrorView::LookUpFailed { vta_did: s.vta.vta_did@, cause: cause@ },
            ),
            _ => false,
        },
        Stage::Probing { cfg } => match event {
            Event::Listed(n) => {
                &&& next matches Stage::Writing { cfg: c, outcome }
                &&& c == cfg
                &&& is_outcome(outcome, cfg, s.args.config_path, n)
            },
            Event::Refused(cause) => closes_with(
                next,
                SetupErrorView::NoAccess { context_id: cfg.context_id@, cause: cause@ },
            ),
            Event::Failed(cause) => closes_with(
                next,
                SetupErrorView::Unreachable { label: cfg.identity.label_text(), cause: cause@ },
            ),
            _ => false,
        },
        Stage::Writing { cfg, outcome } => match event {
            Event::Done => next matches Stage::Closing { result } && result == Ok::<
                SetupOutcome,
                SetupError,
            >(outcome),
            Event::Failed(cause) => closes_with(
                next,
                SetupErrorView::NotWritten { path: s.shown_path@, cause: cause@ },
            ),
            _ => false,
        },
        Stage::Closing { result } => next == (Stage::Over { result }),
        Stage::Over { .. } => false,
    }
}

fn closing(e: SetupError) -> (res: Stage)
    ensures
        closes_with(res, e@),
{
    Stage::Closing { result: Err(e) }
}

/// Start setup, unless there is a configuration that may not be replaced, or
/// `pnm` has no such login to bootstrap from.
pub fn run(args: SetupArgs, pnm: &PnmConfig, shown_path: &str, present: bool) -> (res: Result<
    Setup,
    SetupError,
>)
    ensures
        if present && !args.force {
            res is Err && res->Err_0@ == (SetupErrorView::ConfigExists { path: shown_path@ })
        } else {
            match pnm::resolved(*pnm, Some(args.vta@)) {
                Err(cause) => res is Err && res->Err_0@ == (SetupErrorView::Unresolved { cause }),
                Ok(vta) => {
                    &&& res is Ok
                    &&& res->Ok_0.args == args
                    &&& res->Ok_0.vta@ == vta
                    &&& res->Ok_0.shown_path@ == shown_path@
                    &&& res->Ok_0.stage is Operator
                },
            }
        },
{
    match may_write(shown_path, present, args.force) {
        Ok(_) => match pnm.resolve(Some(args.vta.as_str())) {
            Ok(vta) => Ok(
                Setup { args, vta, shown_path: shown_path.to_owned(), stage: Stage::Operator },
            ),
            Err(cause) => Err(SetupError::Unresolved { cause }),
        },
        Err(e) => Err(e),
    }
}

/// How the operator's own connection is made: with the session that `pnm` stored
/// for the slug, from the directory that `pnm` keeps its sessions in.
pub open spec fn operators_plan(
    slug: Seq<char>,
    service_name: Option<Seq<char>>,
    pnm_dir: FilePathView,
) -> ConnectPlanView {
    config::session_plan(pnm::pnm_session_key(slug), service_name, pnm_dir)
}

impl Setup {
    /// What to do next.
    pub fn todo(&self) -> (res: Todo)
        ensures
            res == match self.stage {
                Stage::Operator => Todo::ConnectOperator,
                Stage::Contexts => Todo::ListContexts,
                Stage::Minting { .. } => Todo::MintKey,
                Stage::Granting { .. } => Todo::CreateGrant,
                Stage::LookingUp { .. } => Todo::LookUp,
                Stage::Probing { .. } => Todo::Probe,
                Stage::Writing { .. } => Todo::Write,
                Stage::Closing { .. } => Todo::CloseOperator,
                Stage::Over { .. } => Todo::Report,
            },
    {
        match &self.stage {
            Stage::Operator => Todo::ConnectOperator,
            Stage::Contexts => Todo::ListContexts,
            Stage::Minting { .. } => Todo::MintKey,
            Stage::Granting { .. } => Todo::CreateGrant,
            Stage::LookingUp { .. } => Todo::LookUp,
            Stage::Probing { .. } => Todo::Probe,
            Stage::Writing { .. } => Todo::Write,
            Stage::Closing { .. } => Todo::CloseOperator,
            Stage::Over { .. } => Todo::Report,
        }
    }

    /// How to connect as the operator, given where `pnm` keeps its sessions.
    pub fn operator_plan(&self, pnm_dir: FilePath) -> (res: ConnectPlan)
        ensures
            res@ == operators_plan(
                self.vta.slug@,
                text::option_view(self.args.service_name),
                pnm_dir@,
            ),
            res@.session_key == Some("vta:"@ + self.vta.slug@),
            res@.service_name == text::option_view(self.args.service_name),
            res@.sessions_dir == Some(pnm_dir@),
    {
        ConnectPlan::session(
            self.vta.session_key(),
            text::copy_option(&self.args.service_name),
            pnm_dir,
        )
    }

    /// The grant to create, while that is what is to be done.
    pub fn grant(&self) -> (res: Option<Grant>)
        ensures
            match self.stage {
                Stage::Granting { context_id, did, .. } => res is Some && is_least_grant(
                    res->Some_0,
                    did@,
                    context_id@,
                ),
                _ => res is None,
            },
    {
        match &self.stage {
            Stage::Granting { context_id, did, .. } => Some(
                grant_for(did.as_str(), context_id.as_str()),
            ),
            _ => None,
        }
    }

    /// The configuration to probe or to write, while that is what is to be done.
    pub fn config(&self) -> (res: Option<&Config>)
        ensures
            match self.stage {
                Stage::Probing { cfg } => res == Some(&cfg),
                Stage::Writing { cfg, .. } => res == Some(&cfg),
                _ => res is None,
            },
    {
        match &self.stage {
            Stage::Probing { cfg } => Some(cfg),
            Stage::Writing { cfg, .. } => Some(cfg),
            _ => None,
        }
    }

    /// What setup came to, once it is over.
    pub fn result(self) -> (res: Option<Result<SetupOutcome, SetupError>>)
        ensures
            match self.stage {
                Stage::Over { result } => res == Some(result),
                _ => res is None,
            },
    {
        match self.stage {
            Stage::Over { result } => Some(result),
            _ => None,
        }
    }

    /// Setup after something happened.
    pub fn after(self, event: Event) -> (res: Setup)
        requires
            expects(self.stage, event),
        ensures
            res.args == self.args,
            res.vta == self.vta,
            res.shown_path == self.shown_path,
            leads_to(self, event, res.stage),
    {
        let Setup { args, vta, shown_path, stage } = self;
        let next = match stage {
            Stage::Operator => match event {
                Event::Failed(cause) => Stage::Over {
                    result: Err(SetupError::OperatorUnreachable { vta: args.vta.clone(), cause }),
                },
                _ => Stage::Contexts,
            },
            Stage::Contexts => match event {
                Event::Contexts(ids) => {
                    let requested = match &args.context {
                        Some(id) => Some(id.as_str()),
                        None => None,
                    };
                    match resolve_context(&ids, requested) {
                        Ok(id) => if args.use_session {
                            Stage::Probing {
                                cfg: new_config(
                                    id,
                                    session_identity(
                                        &vta,
                                        text::copy_option(&args.service_name),
                                    ),
                                ),
                            }
                        } else {
                            Stage::Minting { context_id: id }
                        },
                        Err(e) => closing(e),
                    }
                },
                Event::Failed(cause) => closing(SetupError::ContextsUnknown { cause }),
                _ => vstd::pervasive::unreached(),
            },
            Stage::Minting { context_id } => match event {
                Event::Minted { did, key } => Stage::Granting { context_id, did, key },
                Event::Failed(cause) => closing(SetupError::NoKey { cause }),
                _ => vstd::pervasive::unreached(),
            },
            Stage::Granting { context_id, did, key } => match event {
                Event::Failed(cause) => closing(
                    SetupError::GrantRefused { did, context_id, cause },
                ),
                _ => match configured_way_in(&vta) {
                    Some(way) => Stage::Probing {
                        cfg: new_config(context_id, agent_identity(did, key, &vta, way)),
                    },
                    None => Stage::LookingUp { context_id, did, key },
                },
            },
            Stage::LookingUp { context_id, did, key } => match event {
                Event::Advertised(endpoint) => match advertised_way_in(
                    &vta,
                    args.vta.as_str(),
                    endpoint,
                ) {
                    Ok(way) => Stage::Probing {
                        cfg: new_config(context_id, agent_identity(did, key, &vta, way)),
                    },
                    Err(e) => closing(e),
                },
                Event::Failed(cause) => closing(
                    SetupError::LookUpFailed { vta_did: vta.vta_did.clone(), cause },
                ),
                _ => vstd::pervasive::unreached(),
            },
            Stage::Probing { cfg } => match event {
                Event::Listed(n) => match conclude(cfg, args.config_path.copy(), Ok(n)) {
                    Ok((cfg, outcome)) => Stage::Writing { cfg, outcome },
                    Err(_) => vstd::pervasive::unreached(),
                },
                Event::Refused(cause) => match conclude(
                    cfg,
                    args.config_path.copy(),
                    Err(cause),
                ) {
                    Ok(_) => vstd::pervasive::unreached(),
                    Err(e) => closing(e),
                },
                Event::Failed(cause) => closing(
                    SetupError::Unreachable { label: cfg.identity.label().to_owned(), cause },
                ),
                _ => vstd::pervasive::unreached(),
            },
            Stage::Writing { cfg: _, outcome } => match event {
                Event::Failed(cause) => closing(
                    SetupError::NotWritten { path: shown_path.clone(), cause },
                ),
                _ => Stage::Closing { result: Ok(outcome) },
            },
            Stage::Closing { result } => Stage::Over { result },
            Stage::Over { result: _ } => vstd::pervasive::unreached(),
        };
        Setup { args, vta, shown_path, stage: next }
    }
}

/// **The operator connects with the session of the login that was named**: for a
/// slug, the one `pnm` stored under `vta:` and that slug.
pub proof fn law_the_operator_connects_with_pnms_session(
    pnm: PnmConfig,
    slug: Seq<char>,
    service_name: Option<Seq<char>>,
    pnm_dir: FilePathView,
)
    requires
        !pnm::is_did(slug),
    ensures
        pnm::resolved(pnm, Some(slug)) matches Ok(vta) ==> operators_plan(
            vta.slug,
            service_name,
            pnm_dir,
        ).session_key == Some("vta:"@ + slug),
{
    pnm::law_the_session_key_carries_the_slug(pnm, slug);
}

/// **Reusing the operator's session is connecting as the operator**: what is
/// kept of it opens the session that setup itself opened.
pub proof fn law_a_reused_session_is_the_operators(
    identity: Identity,
    vta: ResolvedVta,
    service_name: Option<String>,
    pnm_dir: FilePathView,
)
    requires
        is_operators(identity, vta, service_name),
    ensures
        config::plan_for(identity, Ok(pnm_dir)) == Ok::<ConnectPlanView, NoPlace>(
            operators_plan(vta.slug@, text::option_view(service_name), pnm_dir),
        ),
{
}

/// **Nothing is written that was not proved to work**: what is to be written is
/// the configuration that memories were just listed with.
pub proof fn law_only_what_was_proved_is_written(s: Setup, event: Event, next: Stage)
    requires
        expects(s.stage, event),
        leads_to(s, event, next),
        next is Writing,
    ensures
        s.stage is Probing,
        event is Listed,
        next->Writing_cfg == s.stage->Probing_cfg,
{
}

/// **The operator's connection is always closed**: setup is over only when it
/// was closed, or when it could not be opened.
pub proof fn law_the_operators_connection_is_closed(s: Setup, event: Event, next: Stage)
    requires
        expects(s.stage, event),
        leads_to(s, event, next),
        next is Over,
    ensures
        s.stage is Closing || s.stage is Operator && event is Failed,
{
}

/// **A dedicated identity is granted its access before anything is made of it**:
/// it is probed only after the grant was created.
pub proof fn law_a_dedicated_identity_is_granted_first(s: Setup, event: Event, next: Stage)
    requires
        expects(s.stage, event),
        leads_to(s, event, next),
        next is Probing,
        !s.args.use_session,
    ensures
        s.stage is Granting && event is Done || s.stage is LookingUp,
{
}

/// **Reusing the operator's session mints and grants nothing.**
pub proof fn law_reusing_a_session_mints_nothing(s: Setup, event: Event, next: Stage)
    requires
        expects(s.stage, event),
        leads_to(s, event, next),
        s.args.use_session,
        s.stage is Operator || s.stage is Contexts,
    ensures
        !(next is Minting),
        next is Probing ==> next->Probing_cfg.identity.is_operator(),
{
}

/// How many stages are ahead at most.
pub open spec fn ahead(stage: Stage) -> nat {
    match stage {
        Stage::Operator => 8,
        Stage::Contexts => 7,
        Stage::Minting { .. } => 6,
        Stage::Granting { .. } => 5,
        Stage::LookingUp { .. } => 4,
        Stage::Probing { .. } => 3,
        Stage::Writing { .. } => 2,
        Stage::Closing { .. } => 1,
        Stage::Over { .. } => 0,
    }
}

/// **Setup comes to an end**, whatever happens on the way.
pub proof fn law_setup_comes_to_an_end(s: Setup, event: Event, next: Stage)
    requires
        expects(s.stage, event),
        leads_to(s, event, next),
    ensures
        ahead(next) < ahead(s.stage),
{
}

} // verus!
