//! Finding the operator's agent the way `pnm` itself finds it.
//!
//! Setup bootstraps from an existing `pnm` login, which means it has to agree
//! with `pnm` about three things this module owns:
//!
//! 1. **What identifies an agent.** The canonical identifier is its DID. A slug
//!    is a nickname chosen on one machine and means nothing anywhere else. So
//!    [`PnmConfig::resolve`] takes either, distinguished by the `did:` prefix,
//!    and falls back to `pnm`'s own default when given neither.
//! 2. **Where the session actually lives.** `pnm` stores sessions under the
//!    keyring key `vta:<slug>`, not `<slug>`. [`ResolvedVta::session_key`] is
//!    the one place that prefix is applied.
//! 3. **Endpoints `pnm` was told about.** A target can carry an explicit
//!    mediator and URL, for agents that cannot advertise a service endpoint.

use vstd::prelude::*;
use vstd::string::*;

use crate::files::{FilePath, FilePathView, FileRead, NoPlace};
use crate::files;
use crate::text;

verus! {

/// One target as `pnm` records it.
#[derive(Debug, Clone)]
pub struct VtaTarget {
    /// Human-facing name.
    pub name: Option<String>,
    /// The agent's DID. Absent while a `pnm setup` is still pending.
    pub vta_did: Option<String>,
    /// Explicit REST URL, for DIDs that cannot advertise a service endpoint.
    pub url: Option<String>,
    /// Explicit mediator DID, for `did:key` or airgapped agents.
    pub mediator_did: Option<String>,
}

/// The subset of `pnm`'s configuration that this tool reads.
///
/// The targets are kept in ascending order of slug, each slug once; see
/// [`PnmConfig::wf`].
#[derive(Debug, Clone)]
pub struct PnmConfig {
    /// Slug used when no target is named.
    pub default_vta: Option<String>,
    /// Configured targets, with their slugs.
    pub vtas: Vec<(String, VtaTarget)>,
}

/// A target resolved to everything setup needs to reach it.
#[derive(Debug, Clone)]
pub struct ResolvedVta {
    /// The `pnm` slug.
    pub slug: String,
    /// The agent's DID, the identifier worth writing down.
    pub vta_did: String,
    /// Mediator DID `pnm` was configured with, if any.
    pub mediator_did: Option<String>,
    /// REST URL `pnm` was configured with, if any.
    pub url: Option<String>,
}

/// The keyring key that `pnm` stores the session of `slug` under.
pub open spec fn pnm_session_key(slug: Seq<char>) -> Seq<char> {
    "vta:"@ + slug
}

impl ResolvedVta {
    /// The keyring key the session is stored under, `vta:<slug>`.
    ///
    /// Passing the bare slug is the mistake this exists to prevent: it finds
    /// nothing, and reports an authentication failure to someone who is
    /// authenticated.
    pub fn session_key(&self) -> (res: String)
        ensures
            res@ == pnm_session_key(self.slug@),
    {
        let mut out = String::new();
        out.append("vta:");
        out.append(self.slug.as_str());
        assert(out@ == pnm_session_key(self.slug@));
        out
    }
}

// ---------------------------------------------------------------------------
// Looking targets up
// ---------------------------------------------------------------------------

/// The first target filed under `slug`.
pub open spec fn under_slug(
    vtas: Seq<(String, VtaTarget)>,
    slug: Seq<char>,
) -> Option<(String, VtaTarget)>
    decreases vtas.len(),
{
    if vtas.len() == 0 {
        None
    } else if vtas[0].0@ == slug {
        Some(vtas[0])
    } else {
        under_slug(vtas.skip(1), slug)
    }
}

/// The first target with the DID `did`.
pub open spec fn with_did(
    vtas: Seq<(String, VtaTarget)>,
    did: Seq<char>,
) -> Option<(String, VtaTarget)>
    decreases vtas.len(),
{
    if vtas.len() == 0 {
        None
    } else if text::option_view(vtas[0].1.vta_did) == Some(did) {
        Some(vtas[0])
    } else {
        with_did(vtas.skip(1), did)
    }
}

/// A target as an error message shows it: `  name (slug) — did`, or without the
/// name where it is the slug.
pub open spec fn target_line(slug: Seq<char>, target: VtaTarget) -> Seq<char> {
    let did = match target.vta_did {
        Some(did) => did@,
        None => "(pending setup)"@,
    };
    match target.name {
        Some(name) => if name@ != slug {
            "  "@ + name@ + " ("@ + slug + ") — "@ + did
        } else {
            "  "@ + slug + " — "@ + did
        },
        None => "  "@ + slug + " — "@ + did,
    }
}

/// The configured targets, a line for each.
pub open spec fn target_lines(vtas: Seq<(String, VtaTarget)>) -> Seq<char> {
    if vtas.len() == 0 {
        "  (none)"@
    } else {
        text::joined(vtas.map_values(|t: (String, VtaTarget)| target_line(t.0@, t.1)), "\n"@)
    }
}

/// Why no target could be resolved. What is listed of the configured targets is
/// what a person who guessed at a nickname needs to see.
#[derive(Debug, Clone)]
pub enum ResolveError {
    /// `pnm` has no target at all.
    NoneConfigured,
    /// No target has this DID.
    UnknownDid { did: String, configured: String },
    /// No target goes by this slug.
    UnknownSlug { slug: String, configured: String },
    /// None was named, and `pnm` has no default.
    NoDefault { configured: String },
    /// `pnm`'s default is not among its targets.
    DefaultMissing { slug: String, configured: String },
    /// The target's setup was started and never finished.
    Pending { slug: String, configured: String },
}

/// A resolve error as a value.
#[verifier::ext_equal]
pub enum ResolveErrorView {
    NoneConfigured,
    UnknownDid { did: Seq<char>, configured: Seq<char> },
    UnknownSlug { slug: Seq<char>, configured: Seq<char> },
    NoDefault { configured: Seq<char> },
    DefaultMissing { slug: Seq<char>, configured: Seq<char> },
    Pending { slug: Seq<char>, configured: Seq<char> },
}

impl View for ResolveError {
    type V = ResolveErrorView;

    open spec fn view(&self) -> ResolveErrorView {
        match self {
            ResolveError::NoneConfigured => ResolveErrorView::NoneConfigured,
            ResolveError::UnknownDid { did, configured } => ResolveErrorView::UnknownDid {
                did: did@,
                configured: configured@,
            },
            ResolveError::UnknownSlug { slug, configured } => ResolveErrorView::UnknownSlug {
                slug: slug@,
                configured: configured@,
            },
            ResolveError::NoDefault { configured } => ResolveErrorView::NoDefault {
                configured: configured@,
            },
            ResolveError::DefaultMissing { slug, configured } => ResolveErrorView::DefaultMissing {
                slug: slug@,
                configured: configured@,
            },
            ResolveError::Pending { slug, configured } => ResolveErrorView::Pending {
                slug: slug@,
                configured: configured@,
            },
        }
    }
}

impl ResolveErrorView {
    /// What a person is told.
    pub open spec fn message(self) -> Seq<char> {
        match self {
            ResolveErrorView::NoneConfigured =>
                "no VTA is configured on this machine.\n\nLog in first:\n  pnm setup --name <name>"@,
            ResolveErrorView::UnknownDid { did, configured } => "no `pnm` login for VTA `"@ + did
                + "` on this machine.\n\nConfigured:\n"@ + configured
                + "\n\nLog in to it with:\n  pnm setup --name <name>"@,
            ResolveErrorView::UnknownSlug { slug, configured } => "no `pnm` VTA named `"@ + slug
                + "`.\n\nConfigured:\n"@ + configured,
            ResolveErrorView::NoDefault { configured } =>
                "no VTA named and `pnm` has no default.\n\nPass one:\n  --vta <did:… or name>\n\nConfigured:\n"@
                + configured,
            ResolveErrorView::DefaultMissing { slug, configured } => "`pnm`'s default VTA `"@ + slug
                + "` is not configured"@ + "\n\nConfigured:\n"@ + configured,
            ResolveErrorView::Pending { slug, configured } => "the `pnm` VTA `"@ + slug
                + "` is pending setup — its admin DID was minted but the VTA DID has not been supplied.\n\nFinish it first:\n  pnm setup continue "@
                + slug + "\n\nConfigured:\n"@ + configured,
        }
    }
}

impl ResolveError {
    /// What a person is told.
    pub fn to_string(&self) -> (res: String)
        ensures
            res@ == self@.message(),
    {
        let mut out = String::new();
        match self {
            ResolveError::NoneConfigured => {
                out.append(
                    "no VTA is configured on this machine.\n\nLog in first:\n  pnm setup --name <name>",
                );
            },
            ResolveError::UnknownDid { did, configured } => {
                out.append("no `pnm` login for VTA `");
                out.append(did.as_str());
                out.append("` on this machine.\n\nConfigured:\n");
                out.append(configured.as_str());
                out.append("\n\nLog in to it with:\n  pnm setup --name <name>");
            },
            ResolveError::UnknownSlug { slug, configured } => {
                out.append("no `pnm` VTA named `");
                out.append(slug.as_str());
                out.append("`.\n\nConfigured:\n");
                out.append(configured.as_str());
            },
            ResolveError::NoDefault { configured } => {
                out.append(
                    "no VTA named and `pnm` has no default.\n\nPass one:\n  --vta <did:… or name>\n\nConfigured:\n",
                );
                out.append(configured.as_str());
            },
            ResolveError::DefaultMissing { slug, configured } => {
                out.append("`pnm`'s default VTA `");
                out.append(slug.as_str());
                out.append("` is not configured");
                out.append("\n\nConfigured:\n");
                out.append(configured.as_str());
            },
            ResolveError::Pending { slug, configured } => {
                out.append("the `pnm` VTA `");
                out.append(slug.as_str());
                out.append(
                    "` is pending setup — its admin DID was minted but the VTA DID has not been supplied.\n\nFinish it first:\n  pnm setup continue ",
                );
                out.append(slug.as_str());
                out.append("\n\nConfigured:\n");
                out.append(configured.as_str());
            },
        }
        assert(out@ == self@.message());
        out
    }
}

/// A resolved target as a value.
#[verifier::ext_equal]
pub struct ResolvedView {
    pub slug: Seq<char>,
    pub vta_did: Seq<char>,
    pub mediator_did: Option<Seq<char>>,
    pub url: Option<Seq<char>>,
}

impl View for ResolvedVta {
    type V = ResolvedView;

    open spec fn view(&self) -> ResolvedView {
        ResolvedView {
            slug: self.slug@,
            vta_did: self.vta_did@,
            mediator_did: text::option_view(self.mediator_did),
            url: text::option_view(self.url),
        }
    }
}

/// What a target that was found among the configured ones resolves to: itself,
/// if it has a DID.
pub open spec fn completed(found: (String, VtaTarget), configured: Seq<char>) -> Result<
    ResolvedView,
    ResolveErrorView,
> {
    match found.1.vta_did {
        Some(did) => Ok(
            ResolvedView {
                slug: found.0@,
                vta_did: did@,
                mediator_did: text::option_view(found.1.mediator_did),
                url: text::option_view(found.1.url),
            },
        ),
        None => Err(ResolveErrorView::Pending { slug: found.0@, configured }),
    }
}

/// A DID is told from a slug by how it starts.
pub open spec fn is_did(s: Seq<char>) -> bool {
    "did:"@.is_prefix_of(s)
}

/// What `wanted` resolves to: by DID, by slug, or by `pnm`'s default.
pub open spec fn resolved(cfg: PnmConfig, wanted: Option<Seq<char>>) -> Result<
    ResolvedView,
    ResolveErrorView,
> {
    let vtas = cfg.vtas@;
    let configured = target_lines(vtas);
    if vtas.len() == 0 {
        Err(ResolveErrorView::NoneConfigured)
    } else {
        match wanted {
            Some(w) => if is_did(w) {
                match with_did(vtas, w) {
                    Some(found) => completed(found, configured),
                    None => Err(ResolveErrorView::UnknownDid { did: w, configured }),
                }
            } else {
                match under_slug(vtas, w) {
                    Some(found) => completed(found, configured),
                    None => Err(ResolveErrorView::UnknownSlug { slug: w, configured }),
                }
            },
            None => match cfg.default_vta {
                None => Err(ResolveErrorView::NoDefault { configured }),
                Some(slug) => match under_slug(vtas, slug@) {
                    Some(found) => completed(found, configured),
                    None => Err(ResolveErrorView::DefaultMissing { slug: slug@, configured }),
                },
            },
        }
    }
}

/// A resolved target, or the reason there is none, as a value.
pub open spec fn resolve_outcome(res: Result<ResolvedVta, ResolveError>) -> Result<
    ResolvedView,
    ResolveErrorView,
> {
    match res {
        Ok(r) => Ok(r@),
        Err(e) => Err(e@),
    }
}

/// `pnm`'s configuration could not be had.
#[derive(Debug, Clone)]
pub enum PnmLoadError {
    Unreadable { path: String, cause: String },
    Garbled { path: String, cause: String },
}

impl PnmLoadError {
    /// What a person is told.
    pub open spec fn message(self) -> Seq<char> {
        match self {
            PnmLoadError::Unreadable { path, cause } => "reading "@ + path@ + ": "@ + cause@,
            PnmLoadError::Garbled { path, cause } => "parsing "@ + path@ + ": "@ + cause@,
        }
    }

    /// What a person is told.
    pub fn to_string(&self) -> (res: String)
        ensures
            res@ == self.message(),
    {
        let mut out = String::new();
        match self {
            PnmLoadError::Unreadable { path, cause } => {
                out.append("reading ");
                out.append(path.as_str());
                out.append(": ");
                out.append(cause.as_str());
            },
            PnmLoadError::Garbled { path, cause } => {
                out.append("parsing ");
                out.append(path.as_str());
                out.append(": ");
                out.append(cause.as_str());
            },
        }
        assert(out@ == self.message());
        out
    }
}

impl PnmConfig {
    /// The targets stand in ascending order of slug, each slug once.
    pub open spec fn wf(&self) -> bool {
        slugs_ascend(self.vtas@)
    }

    /// The targets by slug.
    pub open spec fn targets(&self) -> Map<Seq<char>, VtaTarget> {
        Map::new(
            |slug: Seq<char>| under_slug(self.vtas@, slug) is Some,
            |slug: Seq<char>| under_slug(self.vtas@, slug)->Some_0.1,
        )
    }

    /// `$PNM_CONFIG_DIR` where it is set and not empty, else the `pnm` directory
    /// of the user's configuration.
    pub fn default_dir(var: Option<String>, config_dir: Option<String>) -> (res: Result<
        FilePath,
        NoPlace,
    >)
        ensures
            match res {
                Ok(p) => if files::is_named(var) {
                    p@ == FilePathView::start(var->Some_0@)
                } else {
                    config_dir is Some && p@ == (FilePathView {
                        base: config_dir->Some_0@,
                        beside: false,
                        names: seq!["pnm"@],
                    })
                },
                Err(e) => !files::is_named(var) && config_dir is None && e == NoPlace::Pnm,
            },
    {
        match files::named_place(var) {
            Some(p) => Ok(p),
            None => match config_dir {
                Some(d) => {
                    let p = FilePath::at(d).join("pnm");
                    assert(p@.names == seq!["pnm"@]);
                    Ok(p)
                },
                None => Err(NoPlace::Pnm),
            },
        }
    }

    /// `pnm`'s configuration, given what reading its file came to. A missing
    /// file is not an error: it is an operator who has not run `pnm setup` yet,
    /// and [`PnmConfig::resolve`] says so far better.
    pub fn load(path: &str, read: FileRead<PnmConfig>) -> (res: Result<PnmConfig, PnmLoadError>)
        ensures
            match read {
                FileRead::Missing(_) => {
                    &&& res is Ok
                    &&& res->Ok_0.default_vta is None
                    &&& res->Ok_0.vtas@.len() == 0
                },
                FileRead::Unreadable(cause) => {
                    &&& res matches Err(PnmLoadError::Unreadable { path: p, cause: c })
                    &&& p@ == path@
                    &&& c == cause
                },
                FileRead::Garbled(cause) => {
                    &&& res matches Err(PnmLoadError::Garbled { path: p, cause: c })
                    &&& p@ == path@
                    &&& c == cause
                },
                FileRead::Parsed(cfg) => res == Ok::<PnmConfig, PnmLoadError>(cfg),
            },
    {
        match read {
            FileRead::Missing(_) => Ok(PnmConfig::empty()),
            FileRead::Unreadable(cause) => Err(
                PnmLoadError::Unreadable { path: path.to_owned(), cause },
            ),
            FileRead::Garbled(cause) => Err(
                PnmLoadError::Garbled { path: path.to_owned(), cause },
            ),
            FileRead::Parsed(cfg) => Ok(cfg),
        }
    }

    /// A configuration without a target.
    pub fn empty() -> (res: PnmConfig)
        ensures
            res.wf(),
            res.default_vta is None,
            res.vtas@.len() == 0,
    {
        PnmConfig { default_vta: None, vtas: Vec::new() }
    }

    /// File a target under a slug, in place of any that was filed there.
    pub fn insert(&mut self, slug: String, target: VtaTarget)
        requires
            old(self).wf(),
        ensures
            final(self).wf(),
            final(self).default_vta == old(self).default_vta,
            final(self).targets() == old(self).targets().insert(slug@, target),
    {
        let ghost before = self.vtas@;
        let ghost key = slug@;
        let mut at: usize = 0;
        while at < self.vtas.len() && matches!(
            text::sort_texts(self.vtas[at].0.as_str(), slug.as_str()),
            text::Sorting::Before
        )
            invariant
                at <= self.vtas.len(),
                self.vtas@ == before,
                forall|k: int| 0 <= k < at ==> text::text_before((#[trigger] before[k]).0@, slug@),
            decreases self.vtas.len() - at,
        {
            at += 1;
        }
        let ghost mut rest = before.skip(at as int);
        if at < self.vtas.len() && text::same_text(self.vtas[at].0.as_str(), slug.as_str()) {
            let _ = self.vtas.remove(at);
            proof {
                rest = before.skip(at + 1);
            }
        } else {
            proof {
                if at < before.len() {
                    text::lemma_text_before_total(before[at as int].0@, key);
                }
            }
        }
        self.vtas.insert(at, (slug, target));
        proof {
            let after = self.vtas@;
            assert(after == before.take(at as int) + (seq![(slug, target)] + rest));
            lemma_filed_in_place(before, after, at as int, rest, (slug, target));
            assert(self.targets() =~= old(self).targets().insert(key, target));
        }
    }

    /// Resolve a DID, a slug, or nothing (meaning `pnm`'s default).
    ///
    /// Errors name the targets that are configured, with their DIDs, because the
    /// commonest failure here is a person guessing at a nickname they chose
    /// months ago on a different machine.
    pub fn resolve(&self, wanted: Option<&str>) -> (res: Result<ResolvedVta, ResolveError>)
        ensures
            resolve_outcome(res) == resolved(
                *self,
                match wanted {
                    Some(w) => Some(w@),
                    None => None,
                },
            ),
    {
        if self.vtas.len() == 0 {
            return Err(ResolveError::NoneConfigured);
        }
        let at = match wanted {
            Some(w) => if text::starts_with(w, "did:") {
                match self.find_did(w) {
                    Some(at) => at,
                    None => {
                        return Err(
                            ResolveError::UnknownDid {
                                did: w.to_owned(),
                                configured: self.render_targets(),
                            },
                        );
                    },
                }
            } else {
                match self.find_slug(w) {
                    Some(at) => at,
                    None => {
                        return Err(
                            ResolveError::UnknownSlug {
                                slug: w.to_owned(),
                                configured: self.render_targets(),
                            },
                        );
                    },
                }
            },
            None => match &self.default_vta {
                None => {
                    return Err(ResolveError::NoDefault { configured: self.render_targets() });
                },
                Some(slug) => match self.find_slug(slug.as_str()) {
                    Some(at) => at,
                    None => {
                        return Err(
                            ResolveError::DefaultMissing {
                                slug: slug.clone(),
                                configured: self.render_targets(),
                            },
                        );
                    },
                },
            },
        };
        let slug = self.vtas[at].0.clone();
        match &self.vtas[at].1.vta_did {
            Some(did) => Ok(
                ResolvedVta {
                    slug,
                    vta_did: did.clone(),
                    mediator_did: text::copy_option(&self.vtas[at].1.mediator_did),
                    url: text::copy_option(&self.vtas[at].1.url),
                },
            ),
            None => Err(ResolveError::Pending { slug, configured: self.render_targets() }),
        }
    }

    /// Where the first target with this DID stands.
    fn find_did(&self, did: &str) -> (res: Option<usize>)
        ensures
            match res {
                Some(at) => at < self.vtas@.len() && with_did(self.vtas@, did@) == Some(
                    self.vtas@[at as int],
                ),
                None => with_did(self.vtas@, did@) is None,
            },
    {
        let mut i: usize = 0;
        assert(self.vtas@.skip(0) == self.vtas@);
        while i < self.vtas.len()
            invariant
                i <= self.vtas.len(),
                with_did(self.vtas@, did@) == with_did(self.vtas@.skip(i as int), did@),
            decreases self.vtas.len() - i,
        {
            assert(self.vtas@.skip(i as int)[0] == self.vtas@[i as int]);
            assert(self.vtas@.skip(i as int).skip(1) == self.vtas@.skip(i + 1));
            if let Some(d) = &self.vtas[i].1.vta_did {
                if text::same_text(d.as_str(), did) {
                    return Some(i);
                }
            }
            i += 1;
        }
        None
    }

    /// Where the first target under this slug stands.
    fn find_slug(&self, slug: &str) -> (res: Option<usize>)
        ensures
            match res {
                Some(at) => at < self.vtas@.len() && under_slug(self.vtas@, slug@) == Some(
                    self.vtas@[at as int],
                ),
                None => under_slug(self.vtas@, slug@) is None,
            },
    {
        let mut i: usize = 0;
        assert(self.vtas@.skip(0) == self.vtas@);
        while i < self.vtas.len()
            invariant
                i <= self.vtas.len(),
                under_slug(self.vtas@, slug@) == under_slug(self.vtas@.skip(i as int), slug@),
            decreases self.vtas.len() - i,
        {
            assert(self.vtas@.skip(i as int)[0] == self.vtas@[i as int]);
            assert(self.vtas@.skip(i as int).skip(1) == self.vtas@.skip(i + 1));
            if text::same_text(self.vtas[i].0.as_str(), slug) {
                return Some(i);
            }
            i += 1;
        }
        None
    }

    /// The configured targets, for error messages.
    pub fn render_targets(&self) -> (res: String)
        ensures
            res@ == target_lines(self.vtas@),
    {
        if self.vtas.len() == 0 {
            return "  (none)".to_owned();
        }
        let mut lines: Vec<String> = Vec::new();
        let mut i: usize = 0;
        while i < self.vtas.len()
            invariant
                i <= self.vtas.len(),
                lines@.len() == i,
                forall|k: int|
                    0 <= k < i ==> (#[trigger] lines@[k])@ == target_line(
                        self.vtas@[k].0@,
                        self.vtas@[k].1,
                    ),
            decreases self.vtas.len() - i,
        {
            lines.push(render_target(self.vtas[i].0.as_str(), &self.vtas[i].1));
            i += 1;
        }
        assert(text::texts(lines@) == self.vtas@.map_values(
            |t: (String, VtaTarget)| target_line(t.0@, t.1),
        ));
        text::join(&lines, "\n")
    }
}

/// Slugs in ascending order, each once.
pub open spec fn slugs_ascend(vtas: Seq<(String, VtaTarget)>) -> bool {
    forall|i: int, j: int|
        0 <= i < j < vtas.len() ==> text::text_before(
            (#[trigger] vtas[i]).0@,
            (#[trigger] vtas[j]).0@,
        )
}

proof fn lemma_under_slug(vtas: Seq<(String, VtaTarget)>, slug: Seq<char>)
    ensures
        under_slug(vtas, slug) matches Some(t) ==> vtas.contains(t) && t.0@ == slug,
        under_slug(vtas, slug) is None ==> forall|i: int|
            0 <= i < vtas.len() ==> (#[trigger] vtas[i]).0@ != slug,
    decreases vtas.len(),
{
    if vtas.len() > 0 {
        let rest = vtas.skip(1);
        lemma_under_slug(rest, slug);
        if vtas[0].0@ == slug {
            assert(vtas.contains(vtas[0]));
        } else {
            match under_slug(rest, slug) {
                Some(t) => {
                    let i = choose|i: int| 0 <= i < rest.len() && rest[i] == t;
                    assert(vtas[i + 1] == t);
                },
                None => {
                    assert forall|i: int| 0 <= i < vtas.len() implies (#[trigger] vtas[i]).0@
                        != slug by {
                        if i > 0 {
                            assert(rest[i - 1] == vtas[i]);
                        }
                    }
                },
            }
        }
    }
}

proof fn lemma_with_did(vtas: Seq<(String, VtaTarget)>, did: Seq<char>)
    ensures
        with_did(vtas, did) matches Some(t) ==> vtas.contains(t) && text::option_view(t.1.vta_did)
            == Some(did),
        with_did(vtas, did) is None ==> forall|i: int|
            0 <= i < vtas.len() ==> text::option_view((#[trigger] vtas[i]).1.vta_did) != Some(did),
    decreases vtas.len(),
{
    if vtas.len() > 0 {
        let rest = vtas.skip(1);
        lemma_with_did(rest, did);
        if text::option_view(vtas[0].1.vta_did) == Some(did) {
            assert(vtas.contains(vtas[0]));
        } else {
            match with_did(rest, did) {
                Some(t) => {
                    let i = choose|i: int| 0 <= i < rest.len() && rest[i] == t;
                    assert(vtas[i + 1] == t);
                },
                None => {
                    assert forall|i: int| 0 <= i < vtas.len() implies text::option_view(
                        (#[trigger] vtas[i]).1.vta_did,
                    ) != Some(did) by {
                        if i > 0 {
                            assert(rest[i - 1] == vtas[i]);
                        }
                    }
                },
            }
        }
    }
}

/// In a list of ascending slugs, what stands under a slug is what is found
/// there.
proof fn lemma_the_one_under_slug(vtas: Seq<(String, VtaTarget)>, i: int)
    requires
        slugs_ascend(vtas),
        0 <= i < vtas.len(),
    ensures
        under_slug(vtas, vtas[i].0@) == Some(vtas[i]),
{
    let slug = vtas[i].0@;
    lemma_under_slug(vtas, slug);
    let t = under_slug(vtas, slug)->Some_0;
    let j = choose|j: int| 0 <= j < vtas.len() && vtas[j] == t;
    text::lemma_text_before_irreflexive(slug);
    if i < j {
        assert(text::text_before(vtas[i].0@, vtas[j].0@));
    } else if j < i {
        assert(text::text_before(vtas[j].0@, vtas[i].0@));
    }
}

/// Put in between what sorts before its slug and what sorts after, a target is
/// filed under that slug, and every other slug keeps what it had.
proof fn lemma_filed_in_place(
    before: Seq<(String, VtaTarget)>,
    after: Seq<(String, VtaTarget)>,
    at: int,
    rest: Seq<(String, VtaTarget)>,
    new: (String, VtaTarget),
)
    requires
        slugs_ascend(before),
        0 <= at <= before.len(),
        forall|k: int| 0 <= k < at ==> text::text_before((#[trigger] before[k]).0@, new.0@),
        rest == before.skip(at) && (at < before.len() ==> text::text_before(
            new.0@,
            before[at].0@,
        )) || at < before.len() && before[at].0@ == new.0@ && rest == before.skip(at + 1),
        after == before.take(at) + (seq![new] + rest),
    ensures
        slugs_ascend(after),
        forall|slug: Seq<char>| #[trigger]
            under_slug(after, slug) == if slug == new.0@ {
                Some(new)
            } else {
                under_slug(before, slug)
            },
{
    let gap: int = before.len() - rest.len();
    assert forall|k: int| 0 <= k < rest.len() implies text::text_before(
        new.0@,
        (#[trigger] rest[k]).0@,
    ) by {
        assert(rest[k] == before[gap + k]);
        if gap + k > at {
            assert(text::text_before(before[at].0@, before[gap + k].0@));
            if rest.len() == before.len() - at {
                text::lemma_text_before_transitive(new.0@, before[at].0@, before[gap + k].0@);
            }
        }
    }
    assert forall|i: int, j: int| 0 <= i < j < after.len() implies text::text_before(
        (#[trigger] after[i]).0@,
        (#[trigger] after[j]).0@,
    ) by {
        if i < at {
            assert(after[i] == before[i]);
            if j < at {
                assert(after[j] == before[j]);
            } else if j > at {
                assert(after[j] == rest[j - at - 1]);
                assert(after[j] == before[gap + j - at - 1]);
            }
        } else if i == at {
            assert(after[j] == rest[j - at - 1]);
        } else {
            assert(after[i] == before[gap + i - at - 1]);
            assert(after[j] == before[gap + j - at - 1]);
        }
    }
    assert(after[at] == new);
    lemma_the_one_under_slug(after, at);
    assert forall|slug: Seq<char>| #[trigger] under_slug(after, slug) == if slug == new.0@ {
        Some(new)
    } else {
        under_slug(before, slug)
    } by {
        if slug != new.0@ {
            lemma_under_slug(before, slug);
            lemma_under_slug(after, slug);
            match under_slug(before, slug) {
                Some(t) => {
                    let i = choose|i: int| 0 <= i < before.len() && before[i] == t;
                    if i < at {
                        assert(after[i] == t);
                        lemma_the_one_under_slug(after, i);
                    } else {
                        assert(i >= gap);
                        assert(rest[i - gap] == t);
                        assert(after[at + 1 + i - gap] == t);
                        lemma_the_one_under_slug(after, at + 1 + i - gap);
                    }
                },
                None => {
                    assert forall|i: int| 0 <= i < after.len() implies (#[trigger] after[i]).0@
                        != slug by {
                        if i < at {
                            assert(after[i] == before[i]);
                        } else if i > at {
                            assert(after[i] == before[gap + i - at - 1]);
                        }
                    }
                    if under_slug(after, slug) is Some {
                        let t = under_slug(after, slug)->Some_0;
                        let i = choose|i: int| 0 <= i < after.len() && after[i] == t;
                        assert(after[i].0@ != slug);
                    }
                },
            }
        }
    }
}

// ---------------------------------------------------------------------------
// What holds of every resolution
// ---------------------------------------------------------------------------

/// **A DID resolves to the agent with that DID**, and a DID that is configured
/// and can be told from a slug always resolves.
pub proof fn law_a_did_resolves_to_its_agent(cfg: PnmConfig, did: Seq<char>)
    requires
        is_did(did),
    ensures
        resolved(cfg, Some(did)) matches Ok(r) ==> r.vta_did == did,
        resolved(cfg, Some(did)) is Ok <==> exists|i: int|
            0 <= i < cfg.vtas@.len() && text::option_view((#[trigger] cfg.vtas@[i]).1.vta_did)
                == Some(did),
{
    lemma_with_did(cfg.vtas@, did);
    if with_did(cfg.vtas@, did) is Some {
        let t = with_did(cfg.vtas@, did)->Some_0;
        let i = choose|i: int| 0 <= i < cfg.vtas@.len() && cfg.vtas@[i] == t;
        assert(text::option_view(cfg.vtas@[i].1.vta_did) == Some(did));
    }
}

/// **A slug resolves to what `pnm` has under that slug**: its DID, and the
/// endpoints it was configured with.
pub proof fn law_a_slug_resolves_to_its_target(cfg: PnmConfig, slug: Seq<char>)
    requires
        !is_did(slug),
        cfg.targets().contains_key(slug),
        cfg.targets()[slug].vta_did is Some,
    ensures
        resolved(cfg, Some(slug)) == Ok::<ResolvedView, ResolveErrorView>(
            ResolvedView {
                slug,
                vta_did: cfg.targets()[slug].vta_did->Some_0@,
                mediator_did: text::option_view(cfg.targets()[slug].mediator_did),
                url: text::option_view(cfg.targets()[slug].url),
            },
        ),
{
    lemma_under_slug(cfg.vtas@, slug);
}

/// **Naming nothing is naming the default.**
pub proof fn law_nothing_named_is_the_default(cfg: PnmConfig)
    requires
        cfg.default_vta is Some,
        !is_did(cfg.default_vta->Some_0@),
        cfg.targets().contains_key(cfg.default_vta->Some_0@),
    ensures
        resolved(cfg, None) == resolved(cfg, Some(cfg.default_vta->Some_0@)),
{
}

/// **Only what is configured resolves.**
pub proof fn law_only_what_is_configured_resolves(cfg: PnmConfig, wanted: Option<Seq<char>>)
    requires
        resolved(cfg, wanted) is Ok,
    ensures
        exists|i: int|
            0 <= i < cfg.vtas@.len() && completed(
                #[trigger] cfg.vtas@[i],
                target_lines(cfg.vtas@),
            ) == resolved(cfg, wanted),
{
    let vtas = cfg.vtas@;
    let t = match wanted {
        Some(w) => if is_did(w) {
            lemma_with_did(vtas, w);
            with_did(vtas, w)->Some_0
        } else {
            lemma_under_slug(vtas, w);
            under_slug(vtas, w)->Some_0
        },
        None => {
            lemma_under_slug(vtas, cfg.default_vta->Some_0@);
            under_slug(vtas, cfg.default_vta->Some_0@)->Some_0
        },
    };
    let i = choose|i: int| 0 <= i < vtas.len() && vtas[i] == t;
    assert(completed(vtas[i], target_lines(vtas)) == resolved(cfg, wanted));
}

/// **The session is looked for where `pnm` keeps it**: whoever names a slug gets
/// the session stored under `vta:` and that slug.
pub proof fn law_the_session_key_carries_the_slug(cfg: PnmConfig, slug: Seq<char>)
    requires
        !is_did(slug),
    ensures
        resolved(cfg, Some(slug)) matches Ok(r) ==> pnm_session_key(r.slug) == "vta:"@ + slug,
{
    lemma_under_slug(cfg.vtas@, slug);
}

proof fn lemma_a_part_is_contained(before: Seq<char>, part: Seq<char>, after: Seq<char>)
    ensures
        text::contains_text(before + part + after, part),
{
    let whole = before + part + after;
    assert(whole.subrange(before.len() as int, (before.len() + part.len()) as int) == part);
    assert(text::occurs_at(whole, part, before.len() as int));
}

/// **An error names what is configured**: where there is any target, whatever
/// went wrong, the message holds the list of them with their DIDs.
pub proof fn law_an_error_names_what_is_configured(cfg: PnmConfig, wanted: Option<Seq<char>>)
    requires
        cfg.vtas@.len() > 0,
        resolved(cfg, wanted) is Err,
    ensures
        text::contains_text(resolved(cfg, wanted)->Err_0.message(), target_lines(cfg.vtas@)),
{
    let m = resolved(cfg, wanted)->Err_0.message();
    let lines = target_lines(cfg.vtas@);
    match resolved(cfg, wanted)->Err_0 {
        ResolveErrorView::UnknownDid { did, .. } => {
            let before = "no `pnm` login for VTA `"@ + did
                + "` on this machine.\n\nConfigured:\n"@;
            let after = "\n\nLog in to it with:\n  pnm setup --name <name>"@;
            assert(m == before + lines + after);
            lemma_a_part_is_contained(before, lines, after);
        },
        _ => {
            let before = m.take(m.len() - lines.len());
            assert(m == before + lines + Seq::<char>::empty());
            lemma_a_part_is_contained(before, lines, Seq::empty());
        },
    }
}

/// One target as an error message shows it.
fn render_target(slug: &str, target: &VtaTarget) -> (res: String)
    ensures
        res@ == target_line(slug@, *target),
{
    let mut out = String::new();
    out.append("  ");
    let mut named = false;
    if let Some(name) = &target.name {
        if !text::same_text(name.as_str(), slug) {
            out.append(name.as_str());
            out.append(" (");
            out.append(slug);
            out.append(") — ");
            named = true;
        }
    }
    if !named {
        out.append(slug);
        out.append(" — ");
    }
    match &target.vta_did {
        Some(did) => out.append(did.as_str()),
        None => out.append("(pending setup)"),
    }
    assert(out@ == target_line(slug@, *target));
    out
}

} // verus!
