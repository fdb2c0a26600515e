//! Enrolment: mint a throwaway identity, get it granted, then rotate it away.
//!
//! 1. **`init`** mints a throwaway `did:key`, parks it in the session store as
//!    pending rotation, and prints the grant it needs. No credential is
//!    required, so this runs on a machine that has never spoken to the agent.
//! 2. Out of band, somebody holding admin runs the grant, on any machine.
//! 3. **`connect`** swaps the throwaway key for a fresh one on the first
//!    successful authentication, and keeps the result once it was proved to
//!    reach the context.
//!
//! The DID of the first step gets pasted into a ticket or a chat message.
//! Rotation is what stops it from staying a live authenticator afterwards. It
//! also means that no private key is ever written to the configuration: the key
//! lives in the session store, and the configuration says only which session to
//! open.

use vstd::prelude::*;
use vstd::string::*;

use crate::config::{Config, Identity, CONFIG_VERSION};
use crate::config;
use crate::files::{FilePath, FilePathView, FileRead, NoPlace};
use crate::pnm;
use crate::setup::{SetupOutcome, AGENT_ROLE};
use crate::text;

verus! {

/// Version of the pending file's shape.
pub const PENDING_VERSION: u8 = 1;

/// Service namespace this tool stores its own sessions under. Distinct from
/// `pnm`'s, so a memory agent and an operator login never collide.
pub const SERVICE_NAME: &'static str = "vta-agent-memory";

/// The name of the pending file.
pub const PENDING_FILE: &'static str = "pending-enrolment.json";

/// Where this tool keeps its own session store: beside its configuration.
pub fn sessions_dir(config_dir: Option<String>) -> (res: Result<FilePath, NoPlace>)
    ensures
        match config_dir {
            Some(d) => res is Ok && res->Ok_0@ == (FilePathView {
                beside: false,
                base: d@,
                names: seq![SERVICE_NAME@],
            }),
            None => res == Err::<FilePath, NoPlace>(NoPlace::Sessions),
        },
{
    match config_dir {
        Some(d) => {
            let p = FilePath::at(d).join(SERVICE_NAME);
            assert(p@.names == seq![SERVICE_NAME@]);
            Ok(p)
        },
        None => Err(NoPlace::Sessions),
    }
}

/// The session key of a memory agent in a context, as characters.
pub open spec fn agent_session_key(context_id: Seq<char>) -> Seq<char> {
    "agent:"@ + context_id
}

/// Session key for a memory agent in `context_id`. Keyed by context so one
/// machine can hold memories in several, each separately revocable.
pub fn session_key_for(context_id: &str) -> (res: String)
    ensures
        res@ == agent_session_key(context_id@),
{
    let mut out = String::new();
    out.append("agent:");
    out.append(context_id);
    assert(out@ == agent_session_key(context_id@));
    out
}

/// **Sessions are scoped per context**: different contexts, different sessions.
pub proof fn law_sessions_are_scoped_per_context(a: Seq<char>, b: Seq<char>)
    ensures
        agent_session_key(a) == agent_session_key(b) <==> a == b,
{
    let n = "agent:"@.len() as int;
    assert(agent_session_key(a).skip(n) == a);
    assert(agent_session_key(b).skip(n) == b);
}

/// **Our sessions never collide with `pnm`'s**: no session key of a memory agent
/// is one that `pnm` would store an operator's login under.
pub proof fn law_our_sessions_are_not_pnms(context_id: Seq<char>, slug: Seq<char>)
    ensures
        agent_session_key(context_id) != pnm::pnm_session_key(slug),
        !"vta:"@.is_prefix_of(agent_session_key(context_id)),
{
    reveal_strlit("agent:");
    reveal_strlit("vta:");
    let ours = agent_session_key(context_id);
    assert(ours[0] == 'a');
    assert(pnm::pnm_session_key(slug)[0] == 'v');
    if "vta:"@.is_prefix_of(ours) {
        assert(ours.subrange(0, 4)[0] == 'v');
    }
}

// ---------------------------------------------------------------------------
// The pending enrolment
// ---------------------------------------------------------------------------

/// What `init` records for `connect` to pick up. It holds no key: the throwaway
/// is already in the session store.
#[derive(Debug, Clone)]
pub struct PendingEnrolment {
    pub version: u8,
    /// The throwaway `did:key` awaiting a grant, and the one that stops working
    /// after `connect`.
    pub ephemeral_did: String,
    /// What to authenticate to.
    pub vta_did: String,
    /// The trust context the grant must name.
    pub context_id: String,
    /// Which session to open, so `connect` opens exactly what `init` wrote.
    pub session_key: String,
    /// Where the session store is.
    pub sessions_dir: FilePath,
    /// Mediator hint, where none is advertised.
    pub mediator_did: Option<String>,
    /// REST URL override.
    pub url: Option<String>,
}

/// The command that creates the context.
pub open spec fn context_command(context_id: Seq<char>) -> Seq<char> {
    "pnm contexts create --id "@ + context_id + " --name "@ + context_id
        + "    # skip if it exists"@
}

/// The command that grants the identity access to the context and nothing else.
pub open spec fn acl_command(did: Seq<char>, context_id: Seq<char>) -> Seq<char> {
    "pnm acl create --did "@ + did + " --role "@ + AGENT_ROLE@ + " --contexts "@ + context_id
        + " --label vta-agent-memory"@
}

/// The commands an operator runs to authorize an identity in a context.
pub open spec fn grant_lines(did: Seq<char>, context_id: Seq<char>) -> Seq<Seq<char>> {
    seq![context_command(context_id), acl_command(did, context_id)]
}

/// The commands as a message shows them, indented, a line for each.
pub open spec fn indented(commands: Seq<Seq<char>>) -> Seq<char> {
    text::joined(commands.map_values(|c: Seq<char>| "  "@ + c), "\n"@)
}

/// Why enrolment stopped.
#[derive(Debug, Clone)]
pub enum EnrolError {
    /// There is no pending enrolment to connect.
    NothingPending { path: String, cause: String },
    /// The pending file does not hold an enrolment.
    Garbled { path: String, cause: String },
    /// The pending file was written by a newer version.
    Newer { path: String },
    /// An enrolment is pending already.
    AlreadyPending { did: String, context_id: String, commands: String },
    /// There is a configuration already.
    AlreadyEnrolled { path: String },
    /// There is no place to keep a session.
    Nowhere(NoPlace),
    /// The identity could not connect.
    ConnectFailed { did: String, cause: String, commands: String },
    /// The identity connected, and cannot read the context.
    NoAccess { context_id: String, cause: String },
    /// A file could not be written.
    NotWritten { path: String, cause: String },
}

/// An enrolment error as a value.
#[verifier::ext_equal]
pub enum EnrolErrorView {
    NothingPending { path: Seq<char>, cause: Seq<char> },
    Garbled { path: Seq<char>, cause: Seq<char> },
    Newer { path: Seq<char> },
    AlreadyPending { did: Seq<char>, context_id: Seq<char>, commands: Seq<char> },
    AlreadyEnrolled { path: Seq<char> },
    Nowhere(NoPlace),
    ConnectFailed { did: Seq<char>, cause: Seq<char>, commands: Seq<char> },
    NoAccess { context_id: Seq<char>, cause: Seq<char> },
    NotWritten { path: Seq<char>, cause: Seq<char> },
}

impl View for EnrolError {
    type V = EnrolErrorView;

    open spec fn view(&self) -> EnrolErrorView {
        match self {
            EnrolError::NothingPending { path, cause } => EnrolErrorView::NothingPending {
                path: path@,
                cause: cause@,
            },
            EnrolError::Garbled { path, cause } => EnrolErrorView::Garbled {
                path: path@,
                cause: cause@,
            },
            EnrolError::Newer { path } => EnrolErrorView::Newer { path: path@ },
            EnrolError::AlreadyPending { did, context_id, commands } =>
                EnrolErrorView::AlreadyPending {
                did: did@,
                context_id: context_id@,
                commands: commands@,
            },
            EnrolError::AlreadyEnrolled { path } => EnrolErrorView::AlreadyEnrolled {
                path: path@,
            },
            EnrolError::Nowhere(e) => EnrolErrorView::Nowhere(*e),
            EnrolError::ConnectFailed { did, cause, commands } => EnrolErrorView::ConnectFailed {
                did: did@,
                cause: cause@,
                commands: commands@,
            },
            EnrolError::NoAccess { context_id, cause } => EnrolErrorView::NoAccess {
                context_id: context_id@,
                cause: cause@,
            },
            EnrolError::NotWritten { path, cause } => EnrolErrorView::NotWritten {
                path: path@,
                cause: cause@,
            },
        }
    }
}

impl EnrolErrorView {
    /// What a person is told.
    pub open spec fn message(self) -> Seq<char> {
        match self {
            EnrolErrorView::NothingPending { path, cause } =>
                "nothing is waiting to be connected at "@ + path + " ("@ + cause
                + ").\n\nStart with:\n  vta-agent-memory init --vta-did <did:…> --context <id>"@,
            EnrolErrorView::Garbled { path, cause } => "parsing "@ + path + ": "@ + cause,
            EnrolErrorView::Newer { path } => path
                + " was written by a newer vta-agent-memory — upgrade the binary"@,
            EnrolErrorView::AlreadyPending { did, context_id, commands } =>
                "an enrolment is already pending for "@ + did + " in context `"@ + context_id
                + "`.\n\nGrant it:\n"@ + commands
                + "\n\nThen:\n  vta-agent-memory connect\n\nOr start over with --force."@,
            EnrolErrorView::AlreadyEnrolled { path } => path
                + " already exists — this machine is already enrolled.\n\nPass --force to replace it, and revoke the old agent afterwards with `pnm acl delete`."@,
            EnrolErrorView::Nowhere(e) => e.message(),
            EnrolErrorView::ConnectFailed { did, cause, commands } => "connecting as "@ + did
                + " failed: "@ + cause
                + "\n\nIf the grant has not been made yet, run this where you hold VTA admin:\n"@
                + commands + "\n\nthen try again."@,
            EnrolErrorView::NoAccess { context_id, cause } =>
                "authenticated, but cannot read memories in context `"@ + context_id
                + "` — check `pnm acl list` shows this agent with access to it: "@ + cause,
            EnrolErrorView::NotWritten { path, cause } => "writing "@ + path + ": "@ + cause,
        }
    }
}

impl EnrolError {
    /// What a person is told.
    pub fn to_string(&self) -> (res: String)
        ensures
            res@ == self@.message(),
    {
        let mut out = String::new();
        match self {
            EnrolError::NothingPending { path, cause } => {
                out.append("nothing is waiting to be connected at ");
                out.append(path.as_str());
                out.append(" (");
                out.append(cause.as_str());
                out.append(
                    ").\n\nStart with:\n  vta-agent-memory init --vta-did <did:…> --context <id>",
                );
            },
            EnrolError::Garbled { path, cause } => {
                out.append("parsing ");
                out.append(path.as_str());
                out.append(": ");
                out.append(cause.as_str());
            },
            EnrolError::Newer { path } => {
                out.append(path.as_str());
                out.append(" was written by a newer vta-agent-memory — upgrade the binary");
            },
            EnrolError::AlreadyPending { did, context_id, commands } => {
                out.append("an enrolment is already pending for ");
                out.append(did.as_str());
                out.append(" in context `");
                out.append(context_id.as_str());
                out.append("`.\n\nGrant it:\n");
                out.append(commands.as_str());
                out.append(
                    "\n\nThen:\n  vta-agent-memory connect\n\nOr start over with --force.",
                );
            },
            EnrolError::AlreadyEnrolled { path } => {
                out.append(path.as_str());
                out.append(
                    " already exists — this machine is already enrolled.\n\nPass --force to replace it, and revoke the old agent afterwards with `pnm acl delete`.",
                );
            },
            EnrolError::Nowhere(e) => {
                out.append(e.to_string().as_str());
            },
            EnrolError::ConnectFailed { did, cause, commands } => {
                out.append("connecting as ");
                out.append(did.as_str());
                out.append(" failed: ");
                out.append(cause.as_str());
                out.append(
                    "\n\nIf the grant has not been made yet, run this where you hold VTA admin:\n",
                );
                out.append(commands.as_str());
                out.append("\n\nthen try again.");
            },
            EnrolError::NoAccess { context_id, cause } => {
                out.append("authenticated, but cannot read memories in context `");
                out.append(context_id.as_str());
                out.append(
                    "` — check `pnm acl list` shows this agent with access to it: ",
                );
                out.append(cause.as_str());
            },
            EnrolError::NotWritten { path, cause } => {
                out.append("writing ");
                out.append(path.as_str());
                out.append(": ");
                out.append(cause.as_str());
            },
        }
        assert(out@ == self@.message());
        out
    }
}

impl PendingEnrolment {
    /// The commands an operator runs to authorize this enrolment, so they can be
    /// pasted, or dropped into a ticket, unedited.
    ///
    /// Two of them, because the context may not exist yet.
    pub fn grant_commands(&self) -> (res: Vec<String>)
        ensures
            text::texts(res@) == grant_lines(self.ephemeral_did@, self.context_id@),
    {
        let mut create = String::new();
        create.append("pnm contexts create --id ");
        create.append(self.context_id.as_str());
        create.append(" --name ");
        create.append(self.context_id.as_str());
        create.append("    # skip if it exists");
        assert(create@ == context_command(self.context_id@));
        let mut grant = String::new();
        grant.append("pnm acl create --did ");
        grant.append(self.ephemeral_did.as_str());
        grant.append(" --role ");
        grant.append(AGENT_ROLE);
        grant.append(" --contexts ");
        grant.append(self.context_id.as_str());
        grant.append(" --label vta-agent-memory");
        assert(grant@ == acl_command(self.ephemeral_did@, self.context_id@));
        let mut out: Vec<String> = Vec::new();
        out.push(create);
        out.push(grant);
        assert(text::texts(out@) == grant_lines(self.ephemeral_did@, self.context_id@));
        out
    }

    /// The commands as a message shows them.
    pub fn commands_to_show(&self) -> (res: String)
        ensures
            res@ == indented(grant_lines(self.ephemeral_did@, self.context_id@)),
    {
        let commands = self.grant_commands();
        let mut lines: Vec<String> = Vec::new();
        let mut i: usize = 0;
        while i < commands.len()
            invariant
                i <= commands.len(),
                lines@.len() == i,
                forall|k: int| 0 <= k < i ==> (#[trigger] lines@[k])@ == "  "@ + commands@[k]@,
            decreases commands.len() - i,
        {
            let mut line = String::new();
            line.append("  ");
            line.append(commands[i].as_str());
            assert(line@ == "  "@ + commands@[i as int]@);
            lines.push(line);
            i += 1;
        }
        assert(text::texts(lines@) == text::texts(commands@).map_values(
            |c: Seq<char>| "  "@ + c,
        ));
        text::join(&lines, "\n")
    }

    /// Where the pending file lives: beside the configuration it will become.
    pub fn path_beside(config_path: FilePath) -> (res: FilePath)
        ensures
            res@ == config_path@.with_file_name(PENDING_FILE@),
    {
        config_path.with_file_name(PENDING_FILE)
    }

    /// The pending enrolment, given what reading its file came to.
    pub fn load(path: &str, read: FileRead<PendingEnrolment>) -> (res: Result<
        PendingEnrolment,
        EnrolError,
    >)
        ensures
            match read {
                FileRead::Missing(cause) | FileRead::Unreadable(cause) => res is Err
                    && res->Err_0@ == (EnrolErrorView::NothingPending {
                    path: path@,
                    cause: cause@,
                }),
                FileRead::Garbled(cause) => res is Err && res->Err_0@ == (EnrolErrorView::Garbled {
                    path: path@,
                    cause: cause@,
                }),
                FileRead::Parsed(p) => if p.version > PENDING_VERSION {
                    res is Err && res->Err_0@ == (EnrolErrorView::Newer { path: path@ })
                } else {
                    res == Ok::<PendingEnrolment, EnrolError>(p)
                },
            },
    {
        match read {
            FileRead::Missing(cause) => Err(
                EnrolError::NothingPending { path: path.to_owned(), cause },
            ),
            FileRead::Unreadable(cause) => Err(
                EnrolError::NothingPending { path: path.to_owned(), cause },
            ),
            FileRead::Garbled(cause) => Err(EnrolError::Garbled { path: path.to_owned(), cause }),
            FileRead::Parsed(p) => {
                if p.version > PENDING_VERSION {
                    return Err(EnrolError::Newer { path: path.to_owned() });
                }
                Ok(p)
            },
        }
    }

    /// What a failed connection means for this enrolment.
    pub fn connect_failed(&self, cause: String) -> (res: EnrolError)
        ensures
            res@ == (EnrolErrorView::ConnectFailed {
                did: self.ephemeral_did@,
                cause: cause@,
                commands: indented(grant_lines(self.ephemeral_did@, self.context_id@)),
            }),
    {
        EnrolError::ConnectFailed {
            did: self.ephemeral_did.clone(),
            cause,
            commands: self.commands_to_show(),
        }
    }
}

// ---------------------------------------------------------------------------
// The first phase
// ---------------------------------------------------------------------------

/// First-phase inputs.
#[derive(Debug, Clone)]
pub struct InitArgs {
    pub vta_did: String,
    pub context_id: String,
    pub mediator_did: Option<String>,
    pub url: Option<String>,
    pub config_path: FilePath,
    pub force: bool,
}

/// Why no throwaway identity may be minted, where none may.
pub open spec fn init_refusal(
    force: bool,
    pending: Option<&PendingEnrolment>,
    config_path: Seq<char>,
    configured: bool,
) -> Option<EnrolErrorView> {
    if force {
        None
    } else {
        match pending {
            Some(p) => Some(
                EnrolErrorView::AlreadyPending {
                    did: p.ephemeral_did@,
                    context_id: p.context_id@,
                    commands: indented(grant_lines(p.ephemeral_did@, p.context_id@)),
                },
            ),
            None => if configured {
                Some(EnrolErrorView::AlreadyEnrolled { path: config_path })
            } else {
                None
            },
        }
    }
}

/// Whether a throwaway identity may be minted, given the enrolment that is
/// pending already, if one is, and whether there is a configuration.
///
/// Overwriting a pending enrolment would strand an already-granted DID with
/// nothing left on disk that names it, so either is replaced only where that
/// was asked for.
pub fn may_init(
    force: bool,
    pending: Option<&PendingEnrolment>,
    config_path: &str,
    configured: bool,
) -> (res: Result<(), EnrolError>)
    ensures
        match init_refusal(force, pending, config_path@, configured) {
            Some(e) => res is Err && res->Err_0@ == e,
            None => res is Ok,
        },
{
    if force {
        return Ok(());
    }
    if let Some(p) = pending {
        return Err(
            EnrolError::AlreadyPending {
                did: p.ephemeral_did.clone(),
                context_id: p.context_id.clone(),
                commands: p.commands_to_show(),
            },
        );
    }
    if configured {
        return Err(EnrolError::AlreadyEnrolled { path: config_path.to_owned() });
    }
    Ok(())
}

/// A first phase that may mint: what it was asked, and where the session of the
/// identity it mints is to be kept. There is one only where [`begin`] found
/// nothing in the way.
#[derive(Debug, Clone)]
pub struct Minting {
    args: InitArgs,
    sessions_dir: FilePath,
}

impl Minting {
    /// What it was asked.
    pub closed spec fn asked(&self) -> InitArgs {
        self.args
    }

    /// Where the session is to be kept.
    pub closed spec fn place(&self) -> FilePath {
        self.sessions_dir
    }

    /// The agent that the identity is minted for.
    pub fn vta_did(&self) -> (res: &str)
        ensures
            res@ == self.asked().vta_did@,
    {
        self.args.vta_did.as_str()
    }

    /// What the session is to be kept under.
    pub fn session_key(&self) -> (res: String)
        ensures
            res@ == agent_session_key(self.asked().context_id@),
    {
        session_key_for(self.args.context_id.as_str())
    }

    /// Where the session is to be kept.
    pub fn sessions_dir(&self) -> (res: &FilePath)
        ensures
            *res == self.place(),
    {
        &self.sessions_dir
    }
}

/// Start the first phase, given the enrolment that is pending already, if one
/// is, whether there is a configuration, and where sessions are kept. What may
/// be minted comes back only where [`may_init`] allows it.
pub fn begin(
    args: InitArgs,
    pending: Option<&PendingEnrolment>,
    config_path: &str,
    configured: bool,
    sessions_dir: Result<FilePath, NoPlace>,
) -> (res: Result<Minting, EnrolError>)
    ensures
        match init_refusal(args.force, pending, config_path@, configured) {
            Some(e) => res is Err && res->Err_0@ == e,
            None => match sessions_dir {
                Ok(dir) => res is Ok && res->Ok_0.asked() == args && res->Ok_0.place() == dir,
                Err(e) => res is Err && res->Err_0@ == EnrolErrorView::Nowhere(e),
            },
        },
{
    match may_init(args.force, pending, config_path, configured) {
        Ok(_) => match sessions_dir {
            Ok(sessions_dir) => Ok(Minting { args, sessions_dir }),
            Err(e) => Err(EnrolError::Nowhere(e)),
        },
        Err(e) => Err(e),
    }
}

/// **An enrolment is replaced only on request**: unless it was asked for, nothing
/// is minted while another enrolment is pending or the machine is configured,
/// and a pending one is shown with the commands that grant it.
pub proof fn law_an_enrolment_is_replaced_only_on_request(
    pending: Option<&PendingEnrolment>,
    config_path: Seq<char>,
    configured: bool,
)
    ensures
        init_refusal(false, pending, config_path, configured) is None <==> pending is None
            && !configured,
        init_refusal(true, pending, config_path, configured) is None,
        pending matches Some(p) ==> init_refusal(false, pending, config_path, configured) == Some(
            EnrolErrorView::AlreadyPending {
                did: p.ephemeral_did@,
                context_id: p.context_id@,
                commands: indented(grant_lines(p.ephemeral_did@, p.context_id@)),
            },
        ),
{
}

/// The enrolment to record, given the throwaway identity that was minted and
/// what it is to authenticate to.
pub fn init(minting: Minting, ephemeral_did: String, vta_did: String) -> (res: PendingEnrolment)
    ensures
        res.version == PENDING_VERSION,
        res.ephemeral_did == ephemeral_did,
        res.vta_did == vta_did,
        res.context_id == minting.asked().context_id,
        res.session_key@ == agent_session_key(minting.asked().context_id@),
        res.sessions_dir == minting.place(),
        res.mediator_did == minting.asked().mediator_did,
        res.url == minting.asked().url,
{
    let session_key = minting.session_key();
    let Minting { args, sessions_dir } = minting;
    PendingEnrolment {
        version: PENDING_VERSION,
        ephemeral_did,
        vta_did,
        context_id: args.context_id,
        session_key,
        sessions_dir,
        mediator_did: args.mediator_did,
        url: args.url,
    }
}

// ---------------------------------------------------------------------------
// The second phase
// ---------------------------------------------------------------------------

/// Second-phase inputs.
#[derive(Debug, Clone)]
pub struct ConnectArgs {
    pub config_path: FilePath,
    pub recall_limit: usize,
}

/// `cfg` opens the session that `pending` was recorded with, as an identity of
/// its own, and in the context it was granted for.
pub open spec fn is_config_of(cfg: Config, pending: PendingEnrolment, recall_limit: usize) -> bool {
    &&& cfg.version == CONFIG_VERSION
    &&& cfg.context_id@ == pending.context_id@
    &&& cfg.recall_limit == recall_limit
    &&& cfg.identity matches Identity::Session {
        service_name,
        session_key,
        sessions_dir,
        vta_did,
        operator_login,
    }
    &&& service_name@ == SERVICE_NAME@
    &&& session_key@ == pending.session_key@
    &&& sessions_dir@ == pending.sessions_dir@
    &&& vta_did@ == pending.vta_did@
    &&& !operator_login
}

/// The configuration that an enrolment becomes.
pub fn config_of(pending: &PendingEnrolment, recall_limit: usize) -> (res: Config)
    ensures
        is_config_of(res, *pending, recall_limit),
{
    Config {
        version: CONFIG_VERSION,
        context_id: pending.context_id.clone(),
        identity: Identity::Session {
            service_name: SERVICE_NAME.to_owned(),
            session_key: pending.session_key.clone(),
            sessions_dir: pending.sessions_dir.copy(),
            vta_did: pending.vta_did.clone(),
            operator_login: false,
        },
        recall_limit,
    }
}

/// What the second phase is in the middle of.
#[derive(Debug)]
pub enum Stage {
    /// Authenticating with the granted identity, and rotating off it.
    Connecting,
    /// Proving that the result reaches the context. The probe is a listing and
    /// not a cheaper question, because listing is the operation gated on exactly
    /// what the grant was supposed to arrange.
    Listing,
    /// Closing the connection, which would otherwise duel the next one.
    Closing { listed: Result<usize, String> },
    /// Writing the configuration.
    Writing { found: usize },
    /// Removing the pending file, whose enrolment is no longer pending.
    Removing { found: usize },
    /// Finding out the DID now in use: the one that travelled is gone.
    Naming { found: usize },
    /// Nothing more to do.
    Over { result: Result<SetupOutcome, EnrolError> },
}

/// What to do next.
#[derive(Debug, Clone, Copy, PartialEq, Eq, Structural)]
pub enum Todo {
    Connect,
    List,
    Close,
    Write,
    RemovePending,
    FindDid,
    Report,
}

/// What became of it.
#[derive(Debug, Clone)]
pub enum Event {
    /// It was done.
    Done,
    /// How many memories were listed.
    Listed(usize),
    /// The DID now in use, where it is known.
    Named(Option<String>),
    /// It failed.
    Failed(String),
}

/// The second phase on its way.
#[derive(Debug)]
pub struct Connection {
    pub args: ConnectArgs,
    pub pending: PendingEnrolment,
    /// The configuration's path, as a person is shown it.
    pub shown_path: String,
    pub stage: Stage,
}

/// The events that can follow a stage.
pub open spec fn expects(stage: Stage, event: Event) -> bool {
    match stage {
        Stage::Connecting => event is Done || event is Failed,
        Stage::Listing => event is Listed || event is Failed,
        Stage::Closing { .. } => event is Done,
        Stage::Writing { .. } => event is Done || event is Failed,
        Stage::Removing { .. } => event is Done || event is Failed,
        Stage::Naming { .. } => event is Named,
        Stage::Over { .. } => false,
    }
}

/// The second phase is over, and failed with `e`.
pub open spec fn ends_with(stage: Stage, e: EnrolErrorView) -> bool {
    stage matches Stage::Over { result } && result is Err && result->Err_0@ == e
}

/// `o` reports the enrolment that was kept.
pub open spec fn is_outcome(
    o: SetupOutcome,
    c: Connection,
    found: usize,
    did: Option<String>,
) -> bool {
    &&& o.config_path@ == c.args.config_path@
    &&& o.vta_did@ == c.pending.vta_did@
    &&& o.context_id@ == c.pending.context_id@
    &&& o.identity_label@ == "dedicated agent did:key"@
    &&& o.agent_did == did
    &&& o.memories_found == found
}

/// After `event`, the stage of `c` gives way to `next`.
pub open spec fn leads_to(c: Connection, event: Event, next: Stage) -> bool {
    match c.stage {
        Stage::Connecting => match event {
            Event::Done => next is Listing,
            Event::Failed(cause) => ends_with(
                next,
                EnrolErrorView::ConnectFailed {
                    did: c.pending.ephemeral_did@,
                    cause: cause@,
                    commands: indented(
                        grant_lines(c.pending.ephemeral_did@, c.pending.context_id@),
                    ),
                },
            ),
            _ => false,
        },
        Stage::Listing => match event {
            Event::Listed(n) => next == (Stage::Closing { listed: Ok(n) }),
            Event::Failed(cause) => next == (Stage::Closing { listed: Err(cause) }),
            _ => false,
        },
        Stage::Closing { listed } => match listed {
            Ok(n) => next == (Stage::Writing { found: n }),
            Err(cause) => ends_with(
                next,
                EnrolErrorView::NoAccess { context_id: c.pending.context_id@, cause: cause@ },
            ),
        },
        Stage::Writing { found } => match event {
            Event::Done => next == (Stage::Removing { found }),
            Event::Failed(cause) => ends_with(
                next,
                EnrolErrorView::NotWritten { path: c.shown_path@, cause: cause@ },
            ),
            _ => false,
        },
        Stage::Removing { found } => next == (Stage::Naming { found }),
        Stage::Naming { found } => match event {
            Event::Named(did) => {
                &&& next matches Stage::Over { result }
                &&& result is Ok
                &&& is_outcome(result->Ok_0, c, found, did)
            },
            _ => false,
        },
        Stage::Over { .. } => false,
    }
}

/// Start the second phase: authenticate with the granted identity, rotate off
/// it, prove the result reaches the context, and keep it.
pub fn connect(args: ConnectArgs, pending: PendingEnrolment, shown_path: &str) -> (res: Connection)
    ensures
        res.args == args,
        res.pending == pending,
        res.shown_path@ == shown_path@,
        res.stage is Connecting,
{
    Connection { args, pending, shown_path: shown_path.to_owned(), stage: Stage::Connecting }
}

impl Connection {
    /// What to do next.
    pub fn todo(&self) -> (res: Todo)
        ensures
            res == match self.stage {
                Stage::Connecting => Todo::Connect,
                Stage::Listing => Todo::List,
                Stage::Closing { .. } => Todo::Close,
                Stage::Writing { .. } => Todo::Write,
                Stage::Removing { .. } => Todo::RemovePending,
                Stage::Naming { .. } => Todo::FindDid,
                Stage::Over { .. } => Todo::Report,
            },
    {
        match &self.stage {
            Stage::Connecting => Todo::Connect,
            Stage::Listing => Todo::List,
            Stage::Closing { .. } => Todo::Close,
            Stage::Writing { .. } => Todo::Write,
            Stage::Removing { .. } => Todo::RemovePending,
            Stage::Naming { .. } => Todo::FindDid,
            Stage::Over { .. } => Todo::Report,
        }
    }

    /// The configuration to write, while that is what is to be done.
    pub fn config(&self) -> (res: Option<Config>)
        ensures
            self.stage is Writing ==> res is Some && is_config_of(
                res->Some_0,
                self.pending,
                self.args.recall_limit,
            ),
            !(self.stage is Writing) ==> res is None,
    {
        match &self.stage {
            Stage::Writing { .. } => Some(config_of(&self.pending, self.args.recall_limit)),
            _ => None,
        }
    }

    /// What the second phase came to, once it is over.
    pub fn result(self) -> (res: Option<Result<SetupOutcome, EnrolError>>)
        ensures
            match self.stage {
                Stage::Over { result } => res == Some(result),
                _ => res is None,
            },
    {
        match self.stage {
            Stage::Over { result } => Some(result),
            _ => None,
        }
    }

    /// The second phase after something happened.
    pub fn after(self, event: Event) -> (res: Connection)
        requires
            expects(self.stage, event),
        ensures
            res.args == self.args,
            res.pending == self.pending,
            res.shown_path == self.shown_path,
            leads_to(self, event, res.stage),
    {
        let Connection { args, pending, shown_path, stage } = self;
        let next = match stage {
            Stage::Connecting => match event {
                Event::Failed(cause) => Stage::Over { result: Err(pending.connect_failed(cause)) },
                _ => Stage::Listing,
            },
            Stage::Listing => match event {
                Event::Listed(n) => Stage::Closing { listed: Ok(n) },
                Event::Failed(cause) => Stage::Closing { listed: Err(cause) },
                _ => vstd::pervasive::unreached(),
            },
            Stage::Closing { listed } => match listed {
                Ok(n) => Stage::Writing { found: n },
                Err(cause) => Stage::Over {
                    result: Err(
                        EnrolError::NoAccess { context_id: pending.context_id.clone(), cause },
                    ),
                },
            },
            Stage::Writing { found } => match event {
                Event::Failed(cause) => Stage::Over {
                    result: Err(EnrolError::NotWritten { path: shown_path.clone(), cause }),
                },
                _ => Stage::Removing { found },
            },
            Stage::Removing { found } => Stage::Naming { found },
            Stage::Naming { found } => match event {
                Event::Named(did) => Stage::Over {
                    result: Ok(
                        SetupOutcome {
                            config_path: args.config_path.copy(),
                            vta_did: pending.vta_did.clone(),
                            context_id: pending.context_id.clone(),
                            identity_label: config_of(
                                &pending,
                                args.recall_limit,
                            ).identity.label().to_owned(),
                            agent_did: did,
                            memories_found: found,
                        },
                    ),
                },
                _ => vstd::pervasive::unreached(),
            },
            Stage::Over { result: _ } => vstd::pervasive::unreached(),
        };
        Connection { args, pending, shown_path, stage: next }
    }
}

/// **Nothing is kept that was not proved to reach the context**: the
/// configuration is written only after memories were listed with it.
pub proof fn law_only_what_was_proved_is_kept(c: Connection, event: Event, next: Stage)
    requires
        expects(c.stage, event),
        leads_to(c, event, next),
        next is Writing,
    ensures
        c.stage matches Stage::Closing { listed } && listed == Ok::<usize, String>(
            next->Writing_found,
        ),
{
}

/// **Enrolment stores no key**: the configuration it becomes connects by opening
/// a session, and carries no key of its own.
pub proof fn law_an_enrolled_machine_stores_no_key(
    cfg: Config,
    pending: PendingEnrolment,
    recall_limit: usize,
    pnm_dir: Result<FilePathView, NoPlace>,
)
    requires
        is_config_of(cfg, pending, recall_limit),
    ensures
        ({
            let plan = config::plan_for(cfg.identity, pnm_dir)->Ok_0;
            &&& config::plan_for(cfg.identity, pnm_dir) is Ok
            &&& plan.agent_key is None
            &&& plan.session_key == Some(pending.session_key@)
            &&& plan.sessions_dir == Some(pending.sessions_dir@)
        }),
        !cfg.identity.is_operator(),
{
}

/// **The pending file outlives the enrolment by nothing**: it is removed only
/// after the configuration was written.
pub proof fn law_the_pending_file_goes_last(c: Connection, event: Event, next: Stage)
    requires
        expects(c.stage, event),
        leads_to(c, event, next),
        next is Removing,
    ensures
        c.stage is Writing,
        event is Done,
{
}

/// **A connection that was made is closed**: after listing comes closing,
/// whatever listing came to.
pub proof fn law_the_connection_is_closed(c: Connection, event: Event, next: Stage)
    requires
        expects(c.stage, event),
        leads_to(c, event, next),
    ensures
        c.stage is Connecting && event is Done ==> next is Listing,
        c.stage is Listing ==> next is Closing,
{
}

/// How many stages are ahead at most.
pub open spec fn ahead(stage: Stage) -> nat {
    match stage {
        Stage::Connecting => 6,
        Stage::Listing => 5,
        Stage::Closing { .. } => 4,
        Stage::Writing { .. } => 3,
        Stage::Removing { .. } => 2,
        Stage::Naming { .. } => 1,
        Stage::Over { .. } => 0,
    }
}

/// **Connecting comes to an end**, whatever happens on the way.
pub proof fn law_connecting_comes_to_an_end(c: Connection, event: Event, next: Stage)
    requires
        expects(c.stage, event),
        leads_to(c, event, next),
    ensures
        ahead(next) < ahead(c.stage),
{
}

} // verus!
