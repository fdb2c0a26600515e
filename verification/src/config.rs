//! The configuration: what setup writes and every other command reads.
//!
//! Written once, so the server, the hook and the commands all reach the same
//! agent and the same trust context without any of them carrying flags.

use vstd::prelude::*;
use vstd::string::*;

use crate::files::{FilePath, FilePathView, FileRead, NoPlace};
use crate::files;
use crate::text;

verus! {

/// Version of the configuration file's shape.
pub const CONFIG_VERSION: u8 = 1;

/// How many memories a bare recall returns. Kept small: a hook that pastes
/// fifty memories into a session has made the session worse, not better.
pub const DEFAULT_RECALL_LIMIT: usize = 8;

/// How many memories a bare recall returns where the configuration is silent.
pub fn default_recall_limit() -> (res: usize)
    ensures
        res == DEFAULT_RECALL_LIMIT,
{
    DEFAULT_RECALL_LIMIT
}

/// How this machine authenticates to the agent.
#[derive(Debug, Clone)]
pub enum Identity {
    /// A dedicated agent `did:key`, scoped by its own grant to one context.
    /// Revoking it is one command, and it cannot reach anything the operator's
    /// own login can.
    Agent {
        /// The agent's `did:key`.
        did: String,
        /// Its signing key, multibase. Never leaves this process.
        private_key_multibase: String,
        /// What this agent authenticates to.
        vta_did: String,
        /// The mediator it routes through.
        mediator_did: String,
        /// REST fallback URL, when one is advertised.
        rest_url: Option<String>,
    },
    /// An existing `pnm` login from the keyring. Stores no key material, but
    /// authenticates as the operator, and so has the operator's whole reach.
    PnmSession {
        /// The keyring key, `vta:<slug>`, not the bare slug.
        session_key: String,
        /// Not used to connect: the session carries that. Recorded so
        /// diagnostics can say which agent these memories are in.
        vta_did: String,
        /// The service name sessions were stored under.
        service_name: Option<String>,
    },
    /// A session in a store of its own, which holds the key; this names only
    /// which session to open.
    Session {
        /// The service namespace the session is stored under.
        service_name: String,
        /// The key of the session.
        session_key: String,
        /// Where the session store is.
        sessions_dir: FilePath,
        /// What the session authenticates to.
        vta_did: String,
        /// Whether the session is the operator's own login.
        operator_login: bool,
    },
}

impl Identity {
    /// Where the memories live, as characters.
    pub open spec fn agent(self) -> Seq<char> {
        match self {
            Identity::Agent { vta_did, .. } => vta_did@,
            Identity::PnmSession { vta_did, .. } => vta_did@,
            Identity::Session { vta_did, .. } => vta_did@,
        }
    }

    /// Whether this authenticates as the operator rather than as an identity of
    /// its own.
    pub open spec fn is_operator(self) -> bool {
        match self {
            Identity::Agent { .. } => false,
            Identity::PnmSession { .. } => true,
            Identity::Session { operator_login, .. } => operator_login,
        }
    }

    /// Short label for diagnostics, as characters.
    pub open spec fn label_text(self) -> Seq<char> {
        if self.is_operator() {
            "pnm session (operator identity)"@
        } else {
            "dedicated agent did:key"@
        }
    }

    /// Where these memories live, whichever identity is configured.
    ///
    /// Every variant records it, so diagnostics can use the identifier that
    /// means something everywhere rather than a local nickname.
    pub fn vta_did(&self) -> (res: &str)
        ensures
            res@ == self.agent(),
    {
        match self {
            Identity::Agent { vta_did, .. } => vta_did.as_str(),
            Identity::PnmSession { vta_did, .. } => vta_did.as_str(),
            Identity::Session { vta_did, .. } => vta_did.as_str(),
        }
    }

    /// Short label for diagnostics.
    pub fn label(&self) -> (res: &'static str)
        ensures
            res@ == self.label_text(),
    {
        let operator = match self {
            Identity::Agent { .. } => false,
            Identity::PnmSession { .. } => true,
            Identity::Session { operator_login, .. } => *operator_login,
        };
        if operator {
            "pnm session (operator identity)"
        } else {
            "dedicated agent did:key"
        }
    }
}

/// The whole configuration.
#[derive(Debug, Clone)]
pub struct Config {
    /// Version of the file's shape.
    pub version: u8,
    /// The trust context memories live in. This is the isolation boundary:
    /// every operation is gated on access to it.
    pub context_id: String,
    /// How to authenticate.
    pub identity: Identity,
    /// How many memories a bare recall returns.
    pub recall_limit: usize,
}

/// Why there is no configuration to use.
#[derive(Debug, Clone)]
pub enum ConfigError {
    /// The file could not be read.
    Missing { path: String, cause: String },
    /// The file does not hold a configuration.
    Garbled { path: String, cause: String },
    /// The file was written by a newer version.
    Newer { path: String, version: u8 },
}

impl ConfigError {
    /// What a person is told: the fix rather than the file.
    pub open spec fn message(self) -> Seq<char> {
        match self {
            ConfigError::Missing { path, cause } => "no memory configuration at "@ + path@ + " ("@
                + cause@
                + ").\n\nRun:\n  vta-agent-memory setup --vta <did:… or pnm name>\n\n(or just `vta-agent-memory setup`, to use your default `pnm` VTA)"@,
            ConfigError::Garbled { path, cause } => "parsing "@ + path@ + ": "@ + cause@,
            ConfigError::Newer { path, version } => path@
                + " was written by a newer vta-agent-memory (config version "@ + text::decimal(
                version as nat,
            ) + ", this build understands "@ + text::decimal(CONFIG_VERSION as nat)
                + ") — upgrade the binary"@,
        }
    }

    /// What a person is told: the fix rather than the file.
    pub fn to_string(&self) -> (res: String)
        ensures
            res@ == self.message(),
    {
        let mut out = String::new();
        match self {
            ConfigError::Missing { path, cause } => {
                out.append("no memory configuration at ");
                out.append(path.as_str());
                out.append(" (");
                out.append(cause.as_str());
                out.append(
                    ").\n\nRun:\n  vta-agent-memory setup --vta <did:… or pnm name>\n\n(or just `vta-agent-memory setup`, to use your default `pnm` VTA)",
                );
            },
            ConfigError::Garbled { path, cause } => {
                out.append("parsing ");
                out.append(path.as_str());
                out.append(": ");
                out.append(cause.as_str());
            },
            ConfigError::Newer { path, version } => {
                out.append(path.as_str());
                out.append(" was written by a newer vta-agent-memory (config version ");
                out.append(text::to_decimal(*version as usize).as_str());
                out.append(", this build understands ");
                out.append(text::to_decimal(CONFIG_VERSION as usize).as_str());
                out.append(") — upgrade the binary");
            },
        }
        assert(out@ == self.message());
        out
    }
}

/// How to connect: the settings of the connection ladder, each of them set or
/// left alone.
#[derive(Debug, Clone)]
pub struct ConnectPlan {
    pub agent_did: Option<String>,
    pub agent_key: Option<String>,
    pub vta_did: Option<String>,
    pub mediator_did: Option<String>,
    pub url: Option<String>,
    pub session_key: Option<String>,
    pub service_name: Option<String>,
    pub sessions_dir: Option<FilePath>,
}

/// A plan as a value.
#[verifier::ext_equal]
pub struct ConnectPlanView {
    pub agent_did: Option<Seq<char>>,
    pub agent_key: Option<Seq<char>>,
    pub vta_did: Option<Seq<char>>,
    pub mediator_did: Option<Seq<char>>,
    pub url: Option<Seq<char>>,
    pub session_key: Option<Seq<char>>,
    pub service_name: Option<Seq<char>>,
    pub sessions_dir: Option<FilePathView>,
}

/// The view of a place, or the reason there is none.
pub open spec fn place_view(p: Result<FilePath, NoPlace>) -> Result<FilePathView, NoPlace> {
    match p {
        Ok(p) => Ok(p@),
        Err(e) => Err(e),
    }
}

/// A plan, or the reason there is none, as a value.
pub open spec fn plan_outcome(res: Result<ConnectPlan, NoPlace>) -> Result<
    ConnectPlanView,
    NoPlace,
> {
    match res {
        Ok(plan) => Ok(plan@),
        Err(e) => Err(e),
    }
}

/// The view of a path that may not be there.
pub open spec fn path_view(p: Option<FilePath>) -> Option<FilePathView> {
    match p {
        Some(p) => Some(p@),
        None => None,
    }
}

impl View for ConnectPlan {
    type V = ConnectPlanView;

    open spec fn view(&self) -> ConnectPlanView {
        ConnectPlanView {
            agent_did: text::option_view(self.agent_did),
            agent_key: text::option_view(self.agent_key),
            vta_did: text::option_view(self.vta_did),
            mediator_did: text::option_view(self.mediator_did),
            url: text::option_view(self.url),
            session_key: text::option_view(self.session_key),
            service_name: text::option_view(self.service_name),
            sessions_dir: path_view(self.sessions_dir),
        }
    }
}

/// The plan for opening the session kept in `sessions_dir` under `session_key`.
pub open spec fn session_plan(
    session_key: Seq<char>,
    service_name: Option<Seq<char>>,
    sessions_dir: FilePathView,
) -> ConnectPlanView {
    ConnectPlanView {
        agent_did: None,
        agent_key: None,
        vta_did: None,
        mediator_did: None,
        url: None,
        session_key: Some(session_key),
        service_name,
        sessions_dir: Some(sessions_dir),
    }
}

/// The plan that a stored identity stands for. An agent key goes with the
/// mediator it is reached through; a session goes with the directory it is
/// kept in, which is never left to a default: where `pnm` has no directory,
/// there is no plan that opens a session of its.
pub open spec fn plan_for(identity: Identity, pnm_dir: Result<FilePathView, NoPlace>) -> Result<
    ConnectPlanView,
    NoPlace,
> {
    match identity {
        Identity::Agent { did, private_key_multibase, vta_did, mediator_did, rest_url } => Ok(
            ConnectPlanView {
                agent_did: Some(did@),
                agent_key: Some(private_key_multibase@),
                vta_did: Some(vta_did@),
                mediator_did: Some(mediator_did@),
                url: text::option_view(rest_url),
                session_key: None,
                service_name: None,
                sessions_dir: None,
            },
        ),
        Identity::PnmSession { session_key, service_name, .. } => match pnm_dir {
            Ok(dir) => Ok(session_plan(session_key@, text::option_view(service_name), dir)),
            Err(e) => Err(e),
        },
        Identity::Session { service_name, session_key, sessions_dir, .. } => Ok(
            session_plan(session_key@, Some(service_name@), sessions_dir@),
        ),
    }
}

impl ConnectPlan {
    /// The plan for opening the session kept in `sessions_dir` under
    /// `session_key`.
    pub fn session(
        session_key: String,
        service_name: Option<String>,
        sessions_dir: FilePath,
    ) -> (res: ConnectPlan)
        ensures
            res@ == session_plan(session_key@, text::option_view(service_name), sessions_dir@),
    {
        ConnectPlan {
            agent_did: None,
            agent_key: None,
            vta_did: None,
            mediator_did: None,
            url: None,
            session_key: Some(session_key),
            service_name,
            sessions_dir: Some(sessions_dir),
        }
    }
}

impl Config {
    /// `$VTA_AGENT_MEMORY_CONFIG` where it is set and not empty, else
    /// `vta-agent-memory/config.json` in the user's configuration.
    pub fn default_path(var: Option<String>, config_dir: Option<String>) -> (res: Result<
        FilePath,
        NoPlace,
    >)
        ensures
            match res {
                Ok(p) => if files::is_named(var) {
                    p@ == FilePathView::start(var->Some_0@)
                } else {
                    config_dir is Some && p@ == (FilePathView {
                        base: config_dir->Some_0@,
                        beside: false,
                        names: seq!["vta-agent-memory"@, "config.json"@],
                    })
                },
                Err(e) => !files::is_named(var) && config_dir is None && e == NoPlace::Config,
            },
    {
        match files::named_place(var) {
            Some(p) => Ok(p),
            None => match config_dir {
                Some(d) => {
                    let p = FilePath::at(d).join("vta-agent-memory").join("config.json");
                    assert(p@.names == seq!["vta-agent-memory"@, "config.json"@]);
                    Ok(p)
                },
                None => Err(NoPlace::Config),
            },
        }
    }

    /// The configuration, given what reading its file came to. A file of a
    /// newer version is refused rather than half read.
    pub fn load(path: &str, read: FileRead<Config>) -> (res: Result<Config, ConfigError>)
        ensures
            match read {
                FileRead::Missing(cause) | FileRead::Unreadable(cause) => {
                    &&& res matches Err(ConfigError::Missing { path: p, cause: c })
                    &&& p@ == path@
                    &&& c == cause
                },
                FileRead::Garbled(cause) => {
                    &&& res matches Err(ConfigError::Garbled { path: p, cause: c })
                    &&& p@ == path@
                    &&& c == cause
                },
                FileRead::Parsed(cfg) => if cfg.version > CONFIG_VERSION {
                    &&& res matches Err(ConfigError::Newer { path: p, version: v })
                    &&& p@ == path@
                    &&& v == cfg.version
                } else {
                    res == Ok::<Config, ConfigError>(cfg)
                },
            },
    {
        match read {
            FileRead::Missing(cause) => Err(
                ConfigError::Missing { path: path.to_owned(), cause },
            ),
            FileRead::Unreadable(cause) => Err(
                ConfigError::Missing { path: path.to_owned(), cause },
            ),
            FileRead::Garbled(cause) => Err(
                ConfigError::Garbled { path: path.to_owned(), cause },
            ),
            FileRead::Parsed(cfg) => {
                if cfg.version > CONFIG_VERSION {
                    return Err(
                        ConfigError::Newer { path: path.to_owned(), version: cfg.version },
                    );
                }
                Ok(cfg)
            },
        }
    }

    /// Turn the stored identity into a plan for connecting, given where `pnm`
    /// keeps its sessions. Only opening one of those needs that place.
    pub fn to_agent_connect(&self, pnm_dir: Result<FilePath, NoPlace>) -> (res: Result<
        ConnectPlan,
        NoPlace,
    >)
        ensures
            plan_outcome(res) == plan_for(self.identity, place_view(pnm_dir)),
    {
        match &self.identity {
            Identity::Agent { did, private_key_multibase, vta_did, mediator_did, rest_url } => Ok(
                ConnectPlan {
                    agent_did: Some(did.clone()),
                    agent_key: Some(private_key_multibase.clone()),
                    vta_did: Some(vta_did.clone()),
                    mediator_did: Some(mediator_did.clone()),
                    url: text::copy_option(rest_url),
                    session_key: None,
                    service_name: None,
                    sessions_dir: None,
                },
            ),
            Identity::PnmSession { session_key, service_name, .. } => match pnm_dir {
                Ok(dir) => Ok(
                    ConnectPlan::session(session_key.clone(), text::copy_option(service_name), dir),
                ),
                Err(e) => Err(e),
            },
            Identity::Session { service_name, session_key, sessions_dir, .. } => Ok(
                ConnectPlan::session(
                    session_key.clone(),
                    Some(service_name.clone()),
                    sessions_dir.copy(),
                ),
            ),
        }
    }
}

/// **A session is never looked for in a default place**: every plan that opens a
/// session says which directory it is in, and a plan opens a session exactly
/// where it carries no agent key. Only a session of `pnm`'s can want for a place.
pub proof fn law_a_session_goes_with_its_directory(
    identity: Identity,
    pnm_dir: Result<FilePathView, NoPlace>,
)
    ensures
        plan_for(identity, pnm_dir) matches Ok(plan) ==> {
            &&& plan.session_key is Some <==> plan.sessions_dir is Some
            &&& plan.session_key is Some <==> plan.agent_key is None
            &&& plan.agent_key is Some <==> plan.agent_did is Some && plan.mediator_did is Some
        },
        plan_for(identity, pnm_dir) is Err <==> identity is PnmSession && pnm_dir is Err,
{
}

} // verus!
