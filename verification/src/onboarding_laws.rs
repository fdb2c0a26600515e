//! What getting connected is for: which login is found, how it is connected to,
//! how setup and enrolment go on, and what a person is told of them.

use vstd::prelude::*;

use crate::answer_laws;
use crate::cli::Host;
use crate::cli;
use crate::config::{Config, ConnectPlanView, Identity};
use crate::config;
use crate::enrol::{Connection, EnrolErrorView, PendingEnrolment};
use crate::enrol;
use crate::files::{FilePathView, NoPlace};
use crate::lazy::{Need, Progress, Step};
use crate::lazy;
use crate::pnm::{PnmConfig, ResolveErrorView, ResolvedView, ResolvedVta, VtaTarget};
use crate::pnm;
use crate::setup::{Endpoint, Event, Setup, SetupErrorView, SetupOutcome, Stage, WayInView};
use crate::setup;
use crate::text;
use crate::text_laws;

verus! {

// ---------------------------------------------------------------------------
// Finding the operator's agent
// ---------------------------------------------------------------------------

proof fn lemma_first_under_slug(vtas: Seq<(String, VtaTarget)>, slug: Seq<char>, i: int)
    requires
        0 <= i <= vtas.len(),
        forall|k: int| 0 <= k < i ==> (#[trigger] vtas[k]).0@ != slug,
        i < vtas.len() ==> vtas[i].0@ == slug,
    ensures
        pnm::under_slug(vtas, slug) == if i < vtas.len() {
            Some(vtas[i])
        } else {
            None
        },
    decreases vtas.len(),
{
    if i > 0 {
        assert(vtas[0].0@ != slug);
        let rest = vtas.skip(1);
        assert forall|k: int| 0 <= k < i - 1 implies (#[trigger] rest[k]).0@ != slug by {
            assert(rest[k] == vtas[k + 1]);
        }
        lemma_first_under_slug(rest, slug, i - 1);
    }
}

proof fn lemma_first_with_did(vtas: Seq<(String, VtaTarget)>, did: Seq<char>, i: int)
    requires
        0 <= i <= vtas.len(),
        forall|k: int|
            0 <= k < i ==> text::option_view((#[trigger] vtas[k]).1.vta_did) != Some(did),
        i < vtas.len() ==> text::option_view(vtas[i].1.vta_did) == Some(did),
    ensures
        pnm::with_did(vtas, did) == if i < vtas.len() {
            Some(vtas[i])
        } else {
            None
        },
    decreases vtas.len(),
{
    if i > 0 {
        assert(text::option_view(vtas[0].1.vta_did) != Some(did));
        let rest = vtas.skip(1);
        assert forall|k: int| 0 <= k < i - 1 implies text::option_view(
            (#[trigger] rest[k]).1.vta_did,
        ) != Some(did) by {
            assert(rest[k] == vtas[k + 1]);
        }
        lemma_first_with_did(rest, did, i - 1);
    }
}

/// **A slug names the first target filed under it**: that one is resolved to,
/// with the endpoints it was configured with, or is said to be pending, and
/// where there is none, that is said.
pub proof fn law_a_slug_names_the_target_under_it(cfg: PnmConfig, slug: Seq<char>, i: int)
    requires
        cfg.vtas@.len() > 0,
        !"did:"@.is_prefix_of(slug),
        0 <= i <= cfg.vtas@.len(),
        forall|k: int| 0 <= k < i ==> (#[trigger] cfg.vtas@[k]).0@ != slug,
        i < cfg.vtas@.len() ==> cfg.vtas@[i].0@ == slug,
    ensures
        ({
            let configured = pnm::target_lines(cfg.vtas@);
            pnm::resolved(cfg, Some(slug)) == if i == cfg.vtas@.len() {
                Err::<ResolvedView, ResolveErrorView>(
                    ResolveErrorView::UnknownSlug { slug, configured },
                )
            } else {
                match cfg.vtas@[i].1.vta_did {
                    Some(did) => Ok(
                        ResolvedView {
                            slug,
                            vta_did: did@,
                            mediator_did: text::option_view(cfg.vtas@[i].1.mediator_did),
                            url: text::option_view(cfg.vtas@[i].1.url),
                        },
                    ),
                    None => Err(ResolveErrorView::Pending { slug, configured }),
                }
            }
        }),
{
    lemma_first_under_slug(cfg.vtas@, slug, i);
}

/// **A DID names the first target that has it**, and where none has, that is
/// said.
pub proof fn law_a_did_names_the_target_that_has_it(cfg: PnmConfig, did: Seq<char>, i: int)
    requires
        cfg.vtas@.len() > 0,
        "did:"@.is_prefix_of(did),
        0 <= i <= cfg.vtas@.len(),
        forall|k: int|
            0 <= k < i ==> text::option_view((#[trigger] cfg.vtas@[k]).1.vta_did) != Some(did),
        i < cfg.vtas@.len() ==> text::option_view(cfg.vtas@[i].1.vta_did) == Some(did),
    ensures
        pnm::resolved(cfg, Some(did)) == if i == cfg.vtas@.len() {
            Err::<ResolvedView, ResolveErrorView>(
                ResolveErrorView::UnknownDid { did, configured: pnm::target_lines(cfg.vtas@) },
            )
        } else {
            Ok(
                ResolvedView {
                    slug: cfg.vtas@[i].0@,
                    vta_did: did,
                    mediator_did: text::option_view(cfg.vtas@[i].1.mediator_did),
                    url: text::option_view(cfg.vtas@[i].1.url),
                },
            )
        },
{
    lemma_first_with_did(cfg.vtas@, did, i);
}

/// **Naming nothing is naming the default**, and where that cannot be had, that
/// is said: there is none, or it is not configured, or nothing is.
pub proof fn law_nothing_named_is_the_default_or_says_why(cfg: PnmConfig, i: int)
    requires
        0 <= i <= cfg.vtas@.len(),
        cfg.default_vta is Some ==> forall|k: int|
            0 <= k < i ==> (#[trigger] cfg.vtas@[k]).0@ != cfg.default_vta->Some_0@,
        cfg.default_vta is Some && i < cfg.vtas@.len() ==> cfg.vtas@[i].0@
            == cfg.default_vta->Some_0@,
    ensures
        ({
            let configured = pnm::target_lines(cfg.vtas@);
            pnm::resolved(cfg, None) == if cfg.vtas@.len() == 0 {
                Err::<ResolvedView, ResolveErrorView>(ResolveErrorView::NoneConfigured)
            } else {
                match cfg.default_vta {
                    None => Err(ResolveErrorView::NoDefault { configured }),
                    Some(slug) => if i == cfg.vtas@.len() {
                        Err(ResolveErrorView::DefaultMissing { slug: slug@, configured })
                    } else {
                        match cfg.vtas@[i].1.vta_did {
                            Some(did) => Ok(
                                ResolvedView {
                                    slug: slug@,
                                    vta_did: did@,
                                    mediator_did: text::option_view(cfg.vtas@[i].1.mediator_did),
                                    url: text::option_view(cfg.vtas@[i].1.url),
                                },
                            ),
                            None => Err(ResolveErrorView::Pending { slug: slug@, configured }),
                        }
                    },
                }
            }
        }),
        forall|wanted: Option<Seq<char>>|
            cfg.vtas@.len() == 0 ==> #[trigger] pnm::resolved(cfg, wanted) == Err::<
                ResolvedView,
                ResolveErrorView,
            >(ResolveErrorView::NoneConfigured),
{
    if let Some(slug) = cfg.default_vta {
        lemma_first_under_slug(cfg.vtas@, slug@, i);
    }
}

/// **Every configured target is listed with its slug and its DID**, a line for
/// each, in order.
pub proof fn law_every_target_is_listed(vtas: Seq<(String, VtaTarget)>, i: int)
    requires
        0 <= i < vtas.len(),
    ensures
        text::contains_text(
            pnm::target_lines(vtas),
            pnm::target_line(vtas[i].0@, vtas[i].1),
        ),
        ({
            let did = match vtas[i].1.vta_did {
                Some(did) => did@,
                None => "(pending setup)"@,
            };
            let plain = vtas[i].1.name is None || vtas[i].1.name->Some_0@ == vtas[i].0@;
            pnm::target_line(vtas[i].0@, vtas[i].1) == if plain {
                "  "@ + vtas[i].0@ + " — "@ + did
            } else {
                "  "@ + vtas[i].1.name->Some_0@ + " ("@ + vtas[i].0@ + ") — "@ + did
            }
        }),
{
    let lines = vtas.map_values(|t: (String, VtaTarget)| pnm::target_line(t.0@, t.1));
    answer_laws::lemma_joined_holds_its_parts(lines, "\n"@, i);
}

/// **What cannot be resolved is said with what was asked for, and with the way
/// out.**
pub proof fn law_a_failed_resolution_says_what_to_do(slug: Seq<char>, configured: Seq<char>)
    ensures
        text::contains_text(
            ResolveErrorView::UnknownSlug { slug, configured }.message(),
            "`"@ + slug + "`"@,
        ),
        text::contains_text(
            ResolveErrorView::UnknownDid { did: slug, configured }.message(),
            "`"@ + slug + "`"@,
        ),
        text::contains_text(
            ResolveErrorView::DefaultMissing { slug, configured }.message(),
            "`"@ + slug + "` is not configured"@,
        ),
        text::contains_text(
            ResolveErrorView::Pending { slug, configured }.message(),
            "pnm setup continue "@ + slug,
        ),
        text::contains_text(ResolveErrorView::NoneConfigured.message(), "pnm setup --name"@),
        text::contains_text(ResolveErrorView::NoDefault { configured }.message(), "--vta"@),
{
    reveal_strlit("no `pnm` VTA named `");
    reveal_strlit("no `pnm` VTA named ");
    reveal_strlit("`");
    reveal_strlit("`.\n\nConfigured:\n");
    reveal_strlit(".\n\nConfigured:\n");
    assert("no `pnm` VTA named `"@ == "no `pnm` VTA named "@ + "`"@);
    assert("`.\n\nConfigured:\n"@ == "`"@ + ".\n\nConfigured:\n"@);
    lemma_quoted(
        "no `pnm` VTA named "@,
        "`"@,
        slug,
        "`"@,
        ".\n\nConfigured:\n"@,
        configured,
        Seq::empty(),
    );
    reveal_strlit("no `pnm` login for VTA `");
    reveal_strlit("no `pnm` login for VTA ");
    reveal_strlit("` on this machine.\n\nConfigured:\n");
    reveal_strlit(" on this machine.\n\nConfigured:\n");
    assert("no `pnm` login for VTA `"@ == "no `pnm` login for VTA "@ + "`"@);
    assert("` on this machine.\n\nConfigured:\n"@ == "`"@
        + " on this machine.\n\nConfigured:\n"@);
    lemma_quoted(
        "no `pnm` login for VTA "@,
        "`"@,
        slug,
        "`"@,
        " on this machine.\n\nConfigured:\n"@,
        configured,
        "\n\nLog in to it with:\n  pnm setup --name <name>"@,
    );
    reveal_strlit("`pnm`'s default VTA `");
    reveal_strlit("`pnm`'s default VTA ");
    assert("`pnm`'s default VTA `"@ == "`pnm`'s default VTA "@ + "`"@);
    lemma_quoted(
        "`pnm`'s default VTA "@,
        "`"@,
        slug,
        "` is not configured"@,
        "\n\nConfigured:\n"@,
        configured,
        Seq::empty(),
    );
    assert("`pnm`'s default VTA `"@ + slug + "` is not configured"@ + "\n\nConfigured:\n"@
        + configured == "`pnm`'s default VTA "@ + "`"@ + slug + ("` is not configured"@
        + "\n\nConfigured:\n"@) + configured + Seq::<char>::empty());
    lemma_pending_says_how_to_go_on(slug, configured);
    lemma_setup_is_named(configured);
}

proof fn lemma_quoted(
    a: Seq<char>,
    open: Seq<char>,
    what: Seq<char>,
    close: Seq<char>,
    b: Seq<char>,
    c: Seq<char>,
    d: Seq<char>,
)
    ensures
        text::contains_text((a + open) + what + (close + b) + c + d, open + what + close),
        d.len() == 0 ==> text::contains_text(
            (a + open) + what + (close + b) + c,
            open + what + close,
        ),
{
    let whole = (a + open) + what + (close + b) + c + d;
    assert(whole == a + (open + what + close) + (b + c + d));
    text_laws::lemma_holds_its_middle(a, open + what + close, b + c + d);
    if d.len() == 0 {
        assert(whole == (a + open) + what + (close + b) + c);
    }
}

proof fn lemma_pending_says_how_to_go_on(slug: Seq<char>, configured: Seq<char>)
    ensures
        text::contains_text(
            ResolveErrorView::Pending { slug, configured }.message(),
            "pnm setup continue "@ + slug,
        ),
{
    let long = "` is pending setup — its admin DID was minted but the VTA DID has not been supplied.\n\nFinish it first:\n  pnm setup continue "@;
    let short = "` is pending setup — its admin DID was minted but the VTA DID has not been supplied.\n\nFinish it first:\n  "@;
    reveal_strlit(
        "` is pending setup — its admin DID was minted but the VTA DID has not been supplied.\n\nFinish it first:\n  pnm setup continue ",
    );
    reveal_strlit(
        "` is pending setup — its admin DID was minted but the VTA DID has not been supplied.\n\nFinish it first:\n  ",
    );
    reveal_strlit("pnm setup continue ");
    assert(long == short + "pnm setup continue "@);
    lemma_behind(
        "the `pnm` VTA `"@ + slug,
        short,
        "pnm setup continue "@,
        slug,
        "\n\nConfigured:\n"@,
        configured,
    );
}

proof fn lemma_behind(
    a: Seq<char>,
    b: Seq<char>,
    c: Seq<char>,
    d: Seq<char>,
    e: Seq<char>,
    f: Seq<char>,
)
    ensures
        text::contains_text(a + (b + c) + d + e + f, c + d),
{
    assert(a + (b + c) + d + e + f == (a + b) + (c + d) + (e + f));
    text_laws::lemma_holds_its_middle(a + b, c + d, e + f);
}

proof fn lemma_setup_is_named(configured: Seq<char>)
    ensures
        text::contains_text(ResolveErrorView::NoneConfigured.message(), "pnm setup --name"@),
        text::contains_text(ResolveErrorView::NoDefault { configured }.message(), "--vta"@),
{
    reveal_strlit(
        "no VTA is configured on this machine.\n\nLog in first:\n  pnm setup --name <name>",
    );
    reveal_strlit("no VTA is configured on this machine.\n\nLog in first:\n  ");
    reveal_strlit("pnm setup --name");
    reveal_strlit(" <name>");
    text_laws::lemma_holds_its_middle(
        "no VTA is configured on this machine.\n\nLog in first:\n  "@,
        "pnm setup --name"@,
        " <name>"@,
    );
    assert("no VTA is configured on this machine.\n\nLog in first:\n  "@ + "pnm setup --name"@
        + " <name>"@ == ResolveErrorView::NoneConfigured.message());
    reveal_strlit(
        "no VTA named and `pnm` has no default.\n\nPass one:\n  --vta <did:… or name>\n\nConfigured:\n",
    );
    reveal_strlit("no VTA named and `pnm` has no default.\n\nPass one:\n  ");
    reveal_strlit("--vta");
    reveal_strlit(" <did:… or name>\n\nConfigured:\n");
    let tail = " <did:… or name>\n\nConfigured:\n"@ + configured;
    text_laws::lemma_holds_its_middle(
        "no VTA named and `pnm` has no default.\n\nPass one:\n  "@,
        "--vta"@,
        tail,
    );
    assert("no VTA named and `pnm` has no default.\n\nPass one:\n  "@ + "--vta"@ + tail
        == ResolveErrorView::NoDefault { configured }.message());
}

/// **A target is found under the slug it is filed under**, where the slugs stand
/// in ascending order.
pub proof fn law_a_target_is_found_under_its_slug(cfg: PnmConfig, i: int)
    requires
        cfg.wf(),
        0 <= i < cfg.vtas@.len(),
    ensures
        cfg.targets().contains_key(cfg.vtas@[i].0@),
        cfg.targets()[cfg.vtas@[i].0@] == cfg.vtas@[i].1,
        forall|slug: Seq<char>| #[trigger]
            cfg.targets().contains_key(slug) ==> exists|k: int|
                0 <= k < cfg.vtas@.len() && (#[trigger] cfg.vtas@[k]).0@ == slug,
        forall|k: int| i < k < cfg.vtas@.len() ==> text::text_before(
            cfg.vtas@[i].0@,
            (#[trigger] cfg.vtas@[k]).0@,
        ),
{
    let vtas = cfg.vtas@;
    assert forall|k: int| 0 <= k < i implies (#[trigger] vtas[k]).0@ != vtas[i].0@ by {
        text::lemma_text_before_irreflexive(vtas[i].0@);
        assert(text::text_before(vtas[k].0@, vtas[i].0@));
    }
    lemma_first_under_slug(vtas, vtas[i].0@, i);
    assert forall|slug: Seq<char>| #[trigger] cfg.targets().contains_key(slug) implies exists|k: int|
        0 <= k < vtas.len() && (#[trigger] vtas[k]).0@ == slug by {
        if forall|k: int| 0 <= k < vtas.len() ==> (#[trigger] vtas[k]).0@ != slug {
            lemma_first_under_slug(vtas, slug, vtas.len() as int);
        }
    }
}

// ---------------------------------------------------------------------------
// Paths
// ---------------------------------------------------------------------------

/// **A path goes on name by name**, and the file beside another is in the same
/// directory: the last name gives way to it, and where there is none, the base's
/// own.
pub proof fn law_a_path_goes_on_name_by_name(p: FilePathView, name: Seq<char>)
    ensures
        p.joined(name).base == p.base,
        p.joined(name).names == p.names.push(name),
        p.joined(name).beside == (p.beside && p.names.len() > 0),
        p.with_file_name(name).base == p.base,
        p.names.len() > 0 ==> p.with_file_name(name).names == p.names.drop_last().push(name)
            && p.with_file_name(name).beside == p.beside,
        p.names.len() == 0 ==> p.with_file_name(name).names == seq![name] && p.with_file_name(
            name,
        ).beside,
        FilePathView::start(p.base).base == p.base,
        FilePathView::start(p.base).names.len() == 0,
        !FilePathView::start(p.base).beside,
{
}

// ---------------------------------------------------------------------------
// Connecting
// ---------------------------------------------------------------------------

/// **A plan carries what the identity holds**: the agent's own key and its way
/// in, or the session's key, its service and its directory, and nothing of the
/// other.
pub proof fn law_a_plan_carries_what_the_identity_holds(
    identity: Identity,
    pnm_dir: Result<FilePathView, NoPlace>,
)
    ensures
        match identity {
            Identity::Agent { did, private_key_multibase, vta_did, mediator_did, rest_url } => {
                &&& config::plan_for(identity, pnm_dir) is Ok
                &&& config::plan_for(identity, pnm_dir)->Ok_0.agent_did == Some(did@)
                &&& config::plan_for(identity, pnm_dir)->Ok_0.agent_key == Some(
                    private_key_multibase@,
                )
                &&& config::plan_for(identity, pnm_dir)->Ok_0.vta_did == Some(vta_did@)
                &&& config::plan_for(identity, pnm_dir)->Ok_0.mediator_did == Some(mediator_did@)
                &&& config::plan_for(identity, pnm_dir)->Ok_0.url == text::option_view(rest_url)
                &&& config::plan_for(identity, pnm_dir)->Ok_0.session_key is None
            },
            Identity::PnmSession { session_key, service_name, .. } => match pnm_dir {
                Ok(dir) => {
                    &&& config::plan_for(identity, pnm_dir) is Ok
                    &&& config::plan_for(identity, pnm_dir)->Ok_0.session_key == Some(session_key@)
                    &&& config::plan_for(identity, pnm_dir)->Ok_0.service_name
                        == text::option_view(service_name)
                    &&& config::plan_for(identity, pnm_dir)->Ok_0.sessions_dir == Some(dir)
                    &&& config::plan_for(identity, pnm_dir)->Ok_0.agent_key is None
                },
                Err(e) => config::plan_for(identity, pnm_dir) == Err::<ConnectPlanView, NoPlace>(e),
            },
            Identity::Session { service_name, session_key, sessions_dir, .. } => {
                &&& config::plan_for(identity, pnm_dir) is Ok
                &&& config::plan_for(identity, pnm_dir)->Ok_0.session_key == Some(session_key@)
                &&& config::plan_for(identity, pnm_dir)->Ok_0.service_name == Some(service_name@)
                &&& config::plan_for(identity, pnm_dir)->Ok_0.sessions_dir == Some(sessions_dir@)
                &&& config::plan_for(identity, pnm_dir)->Ok_0.agent_key is None
            },
        },
{
}

/// **An identity says which agent it reaches, and whose it is.**
pub proof fn law_an_identity_says_whose_it_is(identity: Identity)
    ensures
        identity is PnmSession ==> identity.label_text() == "pnm session (operator identity)"@,
        identity is Agent ==> identity.label_text() == "dedicated agent did:key"@,
        identity matches Identity::Session { operator_login, .. } ==> identity.label_text() == (
        if operator_login {
            "pnm session (operator identity)"@
        } else {
            "dedicated agent did:key"@
        }),
        identity matches Identity::Agent { vta_did, .. } ==> identity.agent() == vta_did@,
        identity matches Identity::PnmSession { vta_did, .. } ==> identity.agent() == vta_did@,
        identity matches Identity::Session { vta_did, .. } ==> identity.agent() == vta_did@,
{
}

/// **A configuration that was read is kept, and the first one stays.**
pub proof fn law_a_configuration_that_was_read_is_kept(p: Progress, c: Config)
    ensures
        lazy::after(p, Step::Loaded(c)).config == (if p.config is Some {
            p.config
        } else {
            Some(c)
        }),
        lazy::after(p, Step::Loaded(c)).context == p.context,
        lazy::after(p, Step::Failed) == p,
{
}

/// **A connection that was made is to the configured context**, and nothing is
/// left to be done then; until then it is the configuration that is needed, and
/// with it the connection.
pub proof fn law_a_connection_is_to_the_configured_context(p: Progress)
    ensures
        p.context is Some ==> p.need() == Need::Nothing,
        p.context is None && p.config is None ==> p.need() == Need::LoadConfig,
        p.context is None && p.config is Some ==> p.need() == Need::Connect,
        p.context is None && p.config is Some ==> {
            &&& lazy::after(p, Step::Connected).context == Some(p.config->Some_0.context_id@)
            &&& lazy::after(p, Step::Connected).config == p.config
        },
        p.context is Some || p.config is None ==> lazy::after(p, Step::Connected) == p,
{
}

// ---------------------------------------------------------------------------
// Setup
// ---------------------------------------------------------------------------

/// **The context is the one asked for, or the only one there is**, and else the
/// person is told which there are.
pub proof fn law_the_context_is_chosen_or_the_choice_is_explained(
    ids: Seq<Seq<char>>,
    requested: Option<Seq<char>>,
)
    ensures
        requested matches Some(id) ==> (setup::chosen_context(ids, requested) == if ids.contains(
            id,
        ) {
            Ok::<Seq<char>, SetupErrorView>(id)
        } else {
            Err(SetupErrorView::UnknownContext { id, available: setup::listed(ids) })
        }),
        requested is None && ids.len() == 0 ==> setup::chosen_context(ids, requested) == Err::<
            Seq<char>,
            SetupErrorView,
        >(SetupErrorView::NoContexts),
        requested is None && ids.len() == 1 ==> setup::chosen_context(ids, requested) == Ok::<
            Seq<char>,
            SetupErrorView,
        >(ids[0]),
        requested is None && ids.len() > 1 ==> setup::chosen_context(ids, requested) == Err::<
            Seq<char>,
            SetupErrorView,
        >(SetupErrorView::SeveralContexts { available: setup::listed(ids) }),
        forall|i: int|
            0 <= i < ids.len() ==> text::contains_text(setup::listed(ids), #[trigger] ids[i]),
{
    assert forall|i: int| 0 <= i < ids.len() implies text::contains_text(
        setup::listed(ids),
        #[trigger] ids[i],
    ) by {
        answer_laws::lemma_joined_holds_its_parts(ids, ", "@, i);
    }
}

/// **An advertised mediator is a way in, over DIDComm or beside TSP**, with the
/// URL that `pnm` was told before the one advertised; without a mediator there
/// is none.
pub proof fn law_an_advertised_mediator_is_a_way_in(
    vta: ResolvedVta,
    named: Seq<char>,
    endpoint: Endpoint,
)
    ensures
        endpoint matches Endpoint::Didcomm { mediator_did, rest_url } ==> setup::advertised_way(
            vta,
            named,
            endpoint,
        ) == Ok::<WayInView, SetupErrorView>(
            WayInView {
                mediator_did: mediator_did@,
                rest_url: if vta.url is Some {
                    text::option_view(vta.url)
                } else {
                    text::option_view(rest_url)
                },
            },
        ),
        endpoint matches Endpoint::Tsp { didcomm_mediator_did, rest_url } ==> (
        didcomm_mediator_did matches Some(m) ==> setup::advertised_way(vta, named, endpoint) == Ok::<
            WayInView,
            SetupErrorView,
        >(
            WayInView {
                mediator_did: m@,
                rest_url: if vta.url is Some {
                    text::option_view(vta.url)
                } else {
                    text::option_view(rest_url)
                },
            },
        )),
        endpoint matches Endpoint::Tsp { didcomm_mediator_did, rest_url } ==> (didcomm_mediator_did
            is None ==> setup::advertised_way(vta, named, endpoint) == Err::<
            WayInView,
            SetupErrorView,
        >(SetupErrorView::TspOnly { rest_url: text::option_view(rest_url), vta: named })),
        endpoint matches Endpoint::Rest { url } ==> setup::advertised_way(vta, named, endpoint)
            == Err::<WayInView, SetupErrorView>(
            SetupErrorView::RestOnly { url: url@, vta: named },
        ),
        endpoint is Unknown ==> setup::advertised_way(vta, named, endpoint) == Err::<
            WayInView,
            SetupErrorView,
        >(SetupErrorView::UnknownTransport { vta: named }),
        setup::told(vta) == (match vta.mediator_did {
            Some(m) => Some(
                WayInView { mediator_did: m@, rest_url: text::option_view(vta.url) },
            ),
            None => None,
        }),
{
}

/// **What succeeds leads on**: with every success setup takes its next step, and
/// with what the last one gave.
pub proof fn law_success_leads_setup_on(s: Setup, event: Event, next: Stage)
    requires
        setup::expects(s.stage, event),
        setup::leads_to(s, event, next),
    ensures
        s.stage is Operator && event is Done ==> next is Contexts,
        s.stage is Contexts && event is Contexts ==> (setup::chosen_context(
            text::texts(event->Contexts_0@),
            text::option_view(s.args.context),
        ) matches Ok(id) ==> if s.args.use_session {
            &&& next is Probing
            &&& next->Probing_cfg.context_id@ == id
            &&& next->Probing_cfg.identity matches Identity::PnmSession {
                session_key,
                vta_did,
                service_name,
            }
            &&& session_key@ == "vta:"@ + s.vta.slug@
            &&& vta_did@ == s.vta.vta_did@
            &&& service_name == s.args.service_name
        } else {
            next is Minting && next->Minting_context_id@ == id
        }),
        s.stage is Minting && event is Minted ==> {
            &&& next is Granting
            &&& next->Granting_context_id == s.stage->Minting_context_id
            &&& next->Granting_did == event->Minted_did
            &&& next->Granting_key == event->Minted_key
        },
        s.stage is Granting && event is Done ==> if s.vta.mediator_did is Some {
            &&& next is Probing
            &&& next->Probing_cfg.context_id@ == s.stage->Granting_context_id@
            &&& next->Probing_cfg.identity matches Identity::Agent {
                did,
                private_key_multibase,
                vta_did,
                mediator_did,
                rest_url,
            }
            &&& did == s.stage->Granting_did
            &&& private_key_multibase == s.stage->Granting_key
            &&& vta_did@ == s.vta.vta_did@
            &&& mediator_did@ == s.vta.mediator_did->Some_0@
            &&& text::option_view(rest_url) == text::option_view(s.vta.url)
        } else {
            &&& next is LookingUp
            &&& next->LookingUp_context_id == s.stage->Granting_context_id
            &&& next->LookingUp_did == s.stage->Granting_did
            &&& next->LookingUp_key == s.stage->Granting_key
        },
        s.stage is LookingUp && event is Advertised ==> (setup::advertised_way(
            s.vta,
            s.args.vta@,
            event->Advertised_0,
        ) matches Ok(way) ==> {
            &&& next is Probing
            &&& next->Probing_cfg.context_id@ == s.stage->LookingUp_context_id@
            &&& next->Probing_cfg.identity matches Identity::Agent {
                did,
                private_key_multibase,
                vta_did,
                mediator_did,
                rest_url,
            }
            &&& did == s.stage->LookingUp_did
            &&& private_key_multibase == s.stage->LookingUp_key
            &&& vta_did@ == s.vta.vta_did@
            &&& mediator_did@ == way.mediator_did
            &&& text::option_view(rest_url) == way.rest_url
        }),
        next is Probing ==> next->Probing_cfg.version == 1 && next->Probing_cfg.recall_limit == 8,
        s.stage is Probing && event is Listed ==> {
            &&& next is Writing
            &&& next->Writing_cfg == s.stage->Probing_cfg
            &&& next->Writing_outcome.memories_found == event->Listed_0
            &&& next->Writing_outcome.context_id@ == s.stage->Probing_cfg.context_id@
            &&& next->Writing_outcome.config_path@ == s.args.config_path@
            &&& next->Writing_outcome.vta_did@ == s.stage->Probing_cfg.identity.agent()
            &&& next->Writing_outcome.identity_label@
                == s.stage->Probing_cfg.identity.label_text()
            &&& text::option_view(next->Writing_outcome.agent_did) == (
            match s.stage->Probing_cfg.identity {
                Identity::Agent { did, .. } => Some(did@),
                _ => None,
            })
        },
        s.stage is Writing && event is Done ==> next == (Stage::Closing {
            result: Ok(s.stage->Writing_outcome),
        }),
        s.stage is Closing ==> next == (Stage::Over { result: s.stage->Closing_result }),
{
}

/// **What fails is reported, with what it was about and the cause**, after the
/// operator's connection is closed, where there is one.
pub proof fn law_failure_is_reported_with_its_cause(s: Setup, event: Event, next: Stage)
    requires
        setup::expects(s.stage, event),
        setup::leads_to(s, event, next),
        event is Failed || event is Refused,
    ensures
        s.stage is Operator ==> {
            &&& next is Over
            &&& next->Over_result is Err
            &&& next->Over_result->Err_0@ == (SetupErrorView::OperatorUnreachable {
                vta: s.args.vta@,
                cause: event->Failed_0@,
            })
        },
        !(s.stage is Operator) ==> next is Closing && next->Closing_result is Err,
        s.stage is Contexts ==> next->Closing_result->Err_0@ == (SetupErrorView::ContextsUnknown {
            cause: event->Failed_0@,
        }),
        s.stage is Minting ==> next->Closing_result->Err_0@ == (SetupErrorView::NoKey {
            cause: event->Failed_0@,
        }),
        s.stage is Granting ==> next->Closing_result->Err_0@ == (SetupErrorView::GrantRefused {
            did: s.stage->Granting_did@,
            context_id: s.stage->Granting_context_id@,
            cause: event->Failed_0@,
        }),
        s.stage is LookingUp ==> next->Closing_result->Err_0@ == (SetupErrorView::LookUpFailed {
            vta_did: s.vta.vta_did@,
            cause: event->Failed_0@,
        }),
        s.stage is Probing && event is Refused ==> next->Closing_result->Err_0@ == (
        SetupErrorView::NoAccess {
            context_id: s.stage->Probing_cfg.context_id@,
            cause: event->Refused_0@,
        }),
        s.stage is Probing && event is Failed ==> next->Closing_result->Err_0@ == (
        SetupErrorView::Unreachable {
            label: s.stage->Probing_cfg.identity.label_text(),
            cause: event->Failed_0@,
        }),
        s.stage is Writing ==> next->Closing_result->Err_0@ == (SetupErrorView::NotWritten {
            path: s.shown_path@,
            cause: event->Failed_0@,
        }),
{
}

/// **Whatever can happen is expected**: a step may fail, and else it gives what
/// it was taken for.
pub proof fn law_setup_expects_what_can_happen(stage: Stage, event: Event)
    ensures
        event is Failed ==> (setup::expects(stage, event) <==> !(stage is Closing || stage
            is Over)),
        event is Done ==> (setup::expects(stage, event) <==> stage is Operator || stage is Granting
            || stage is Writing || stage is Closing),
        event is Contexts ==> (setup::expects(stage, event) <==> stage is Contexts),
        event is Minted ==> (setup::expects(stage, event) <==> stage is Minting),
        event is Advertised ==> (setup::expects(stage, event) <==> stage is LookingUp),
        event is Listed || event is Refused ==> (setup::expects(stage, event) <==> stage
            is Probing),
{
}

/// **The operator's plan opens the session `pnm` stored**, from `pnm`'s own
/// directory, and carries no key of another.
pub proof fn law_the_operators_plan_opens_pnms_session(
    slug: Seq<char>,
    service_name: Option<Seq<char>>,
    pnm_dir: FilePathView,
)
    ensures
        setup::operators_plan(slug, service_name, pnm_dir) == (ConnectPlanView {
            agent_did: None,
            agent_key: None,
            vta_did: None,
            mediator_did: None,
            url: None,
            session_key: Some("vta:"@ + slug),
            service_name,
            sessions_dir: Some(pnm_dir),
        }),
{
}

/// **A grant is for one identity in one context, and nothing more.**
pub proof fn law_a_grant_is_for_one_context(g: setup::Grant, did: Seq<char>, context_id: Seq<char>)
    requires
        setup::is_least_grant(g, did, context_id),
    ensures
        g.did@ == did,
        g.role@ == "application"@,
        g.label@ == "vta-agent-memory"@,
        g.allowed_contexts@.len() == 1,
        g.allowed_contexts@[0]@ == context_id,
        !g.approve_all_contexts,
        g.approve_contexts@.len() == 0,
        g.expires_at is None,
        g.allowed_keys is None,
{
    let all = text::texts(g.allowed_contexts@);
    assert(all.len() == 1);
    assert(all[0] == g.allowed_contexts@[0]@);
}

// ---------------------------------------------------------------------------
// Enrolment
// ---------------------------------------------------------------------------

/// **The commands grant this identity this context**: the one creates the
/// context, the other the grant, with the agent's role and no other context.
pub proof fn law_the_commands_grant_the_identity(did: Seq<char>, context_id: Seq<char>)
    ensures
        enrol::grant_lines(did, context_id) == seq![
            "pnm contexts create --id "@ + context_id + " --name "@ + context_id
                + "    # skip if it exists"@,
            "pnm acl create --did "@ + did + " --role "@ + "application"@ + " --contexts "@
                + context_id + " --label vta-agent-memory"@,
        ],
        enrol::indented(enrol::grant_lines(did, context_id)) == "  "@ + (
        "pnm contexts create --id "@ + context_id + " --name "@ + context_id
            + "    # skip if it exists"@) + "\n"@ + ("  "@ + ("pnm acl create --did "@ + did
            + " --role "@ + "application"@ + " --contexts "@ + context_id
            + " --label vta-agent-memory"@)),
        enrol::agent_session_key(context_id) == "agent:"@ + context_id,
{
    let lines = enrol::grant_lines(did, context_id);
    let shown = lines.map_values(|c: Seq<char>| "  "@ + c);
    assert(shown.drop_last() == seq![shown[0]]);
    assert(text::joined(shown.drop_last(), "\n"@) == shown[0]);
}

/// **An enrolment goes on from success to success**: connecting, listing,
/// closing, writing, removing the pending file, and naming the identity in use.
pub proof fn law_success_leads_enrolment_on(c: Connection, event: enrol::Event, next: enrol::Stage)
    requires
        enrol::expects(c.stage, event),
        enrol::leads_to(c, event, next),
    ensures
        c.stage is Connecting && event is Done ==> next is Listing,
        c.stage is Listing && event is Listed ==> next == (enrol::Stage::Closing {
            listed: Ok(event->Listed_0),
        }),
        c.stage is Listing && event is Failed ==> next == (enrol::Stage::Closing {
            listed: Err(event->Failed_0),
        }),
        c.stage is Closing && c.stage->Closing_listed is Ok ==> next == (enrol::Stage::Writing {
            found: c.stage->Closing_listed->Ok_0,
        }),
        c.stage is Writing && event is Done ==> next == (enrol::Stage::Removing {
            found: c.stage->Writing_found,
        }),
        c.stage is Removing ==> next == (enrol::Stage::Naming { found: c.stage->Removing_found }),
        c.stage is Naming && event is Named ==> {
            &&& next is Over
            &&& next->Over_result is Ok
            &&& next->Over_result->Ok_0.memories_found == c.stage->Naming_found
            &&& next->Over_result->Ok_0.agent_did == event->Named_0
            &&& next->Over_result->Ok_0.context_id@ == c.pending.context_id@
            &&& next->Over_result->Ok_0.vta_did@ == c.pending.vta_did@
            &&& next->Over_result->Ok_0.config_path@ == c.args.config_path@
            &&& next->Over_result->Ok_0.identity_label@ == "dedicated agent did:key"@
        },
{
}

/// **A failed enrolment is over, and says why**: with the commands that grant it
/// where it could not connect.
pub proof fn law_a_failed_enrolment_says_why(c: Connection, event: enrol::Event, next: enrol::Stage)
    requires
        enrol::expects(c.stage, event),
        enrol::leads_to(c, event, next),
    ensures
        c.stage is Connecting && event is Failed ==> {
            &&& next is Over
            &&& next->Over_result is Err
            &&& next->Over_result->Err_0@ == (EnrolErrorView::ConnectFailed {
                did: c.pending.ephemeral_did@,
                cause: event->Failed_0@,
                commands: enrol::indented(
                    enrol::grant_lines(c.pending.ephemeral_did@, c.pending.context_id@),
                ),
            })
        },
        c.stage is Closing && c.stage->Closing_listed is Err ==> {
            &&& next is Over
            &&& next->Over_result is Err
            &&& next->Over_result->Err_0@ == (EnrolErrorView::NoAccess {
                context_id: c.pending.context_id@,
                cause: c.stage->Closing_listed->Err_0@,
            })
        },
        c.stage is Writing && event is Failed ==> {
            &&& next is Over
            &&& next->Over_result is Err
            &&& next->Over_result->Err_0@ == (EnrolErrorView::NotWritten {
                path: c.shown_path@,
                cause: event->Failed_0@,
            })
        },
{
}

/// **Whatever can happen is expected** of an enrolment too.
pub proof fn law_enrolment_expects_what_can_happen(stage: enrol::Stage, event: enrol::Event)
    ensures
        event is Failed ==> (enrol::expects(stage, event) <==> stage is Connecting || stage
            is Listing || stage is Writing || stage is Removing),
        event is Done ==> (enrol::expects(stage, event) <==> stage is Connecting || stage
            is Closing || stage is Writing || stage is Removing),
        event is Listed ==> (enrol::expects(stage, event) <==> stage is Listing),
        event is Named ==> (enrol::expects(stage, event) <==> stage is Naming),
{
}

/// **What enrolment keeps opens the session it recorded**, as an identity of its
/// own, in the context it was granted for.
pub proof fn law_what_enrolment_keeps_is_what_it_recorded(
    cfg: Config,
    pending: PendingEnrolment,
    recall_limit: usize,
)
    requires
        enrol::is_config_of(cfg, pending, recall_limit),
    ensures
        cfg.version == 1,
        cfg.context_id@ == pending.context_id@,
        cfg.recall_limit == recall_limit,
        cfg.identity matches Identity::Session {
            service_name,
            session_key,
            sessions_dir,
            vta_did,
            operator_login,
        } && service_name@ == "vta-agent-memory"@ && session_key@ == pending.session_key@
            && sessions_dir@ == pending.sessions_dir@ && vta_did@ == pending.vta_did@
            && !operator_login,
{
}

// ---------------------------------------------------------------------------
// What a person is told
// ---------------------------------------------------------------------------

/// **Setup's last words say where the memories are and how to go back**: the
/// configuration, the context, the identity, how many memories there are, how to
/// enable the plugin, and, for an agent of its own, how to revoke it.
pub proof fn law_setups_last_words_say_where_and_how(
    o: SetupOutcome,
    config_path: Seq<char>,
    host: Host,
)
    ensures
        ({
            let said = cli::setup_text(o, config_path, host);
            &&& text::contains_text(said, "\n\n  config      "@ + config_path + "\n"@)
            &&& text::contains_text(said, "\n  context     "@ + o.context_id@ + "\n"@)
            &&& text::contains_text(
                said,
                "\n  memories    "@ + text::decimal(o.memories_found as nat)
                    + " already stored\n"@,
            )
            &&& text::contains_text(said, cli::enabling_text(host))
            &&& o.agent_did matches Some(did) ==> text::contains_text(
                said,
                "\n  pnm acl delete --did "@ + did@ + "\n"@,
            )
        }),
{
    let a = "Memory service configured."@;
    let l1 = "\n\n  config      "@;
    let n = "\n"@;
    let l2 = "  context     "@;
    let l3 = "\n  identity    "@;
    let did_line = match o.agent_did {
        Some(did) => "\n  agent DID   "@ + did@,
        None => Seq::<char>::empty(),
    };
    let l4 = "\n  memories    "@;
    let count = text::decimal(o.memories_found as nat);
    let l5 = " already stored\n"@;
    let enable = cli::enabling_text(host);
    let revoke = match o.agent_did {
        Some(did) => "\nTo revoke this machine's access later:"@ + ("\n  pnm acl delete --did "@
            + did@ + n),
        None => Seq::<char>::empty(),
    };
    reveal_strlit("Memory service configured.\n\n  config      ");
    reveal_strlit("Memory service configured.");
    reveal_strlit("\n\n  config      ");
    reveal_strlit("\n  context     ");
    reveal_strlit("  context     ");
    reveal_strlit("\n");
    reveal_strlit("\n  identity    ");
    reveal_strlit("  identity    ");
    reveal_strlit("\nTo revoke this machine's access later:\n  pnm acl delete --did ");
    reveal_strlit("\nTo revoke this machine's access later:");
    reveal_strlit("\n  pnm acl delete --did ");
    assert("Memory service configured.\n\n  config      "@ == a + l1);
    assert("\n  context     "@ == n + l2);
    assert(l3 == n + "  identity    "@);
    assert("\nTo revoke this machine's access later:\n  pnm acl delete --did "@
        == "\nTo revoke this machine's access later:"@ + "\n  pnm acl delete --did "@);
    if let Some(did) = o.agent_did {
        assert("\nTo revoke this machine's access later:\n  pnm acl delete --did "@ + did@ + n
            == revoke);
        let line = "\n  pnm acl delete --did "@ + did@ + n;
        let head = "\nTo revoke this machine's access later:"@;
        text_laws::lemma_holds_its_middle(head, line, Seq::empty());
        assert(head + line + Seq::<char>::empty() == revoke);
    }
    lemma_last_words(
        a,
        l1,
        config_path,
        n,
        l2,
        o.context_id@,
        "  identity    "@,
        o.identity_label@,
        did_line,
        l4,
        count,
        l5,
        enable,
        revoke,
    );
    if let Some(did) = o.agent_did {
        text_laws::lemma_holding_goes_on(
            cli::setup_text(o, config_path, host),
            revoke,
            "\n  pnm acl delete --did "@ + did@ + n,
        );
    }
}

proof fn lemma_last_words(
    a: Seq<char>,
    l1: Seq<char>,
    path: Seq<char>,
    n: Seq<char>,
    l2: Seq<char>,
    context: Seq<char>,
    l3: Seq<char>,
    label: Seq<char>,
    did_line: Seq<char>,
    l4: Seq<char>,
    count: Seq<char>,
    l5: Seq<char>,
    enable: Seq<char>,
    revoke: Seq<char>,
)
    ensures
        ({
            let said = (a + l1) + path + (n + l2) + context + (n + l3) + label + did_line + l4
                + count + l5 + enable + revoke;
            &&& text::contains_text(said, l1 + path + n)
            &&& text::contains_text(said, (n + l2) + context + n)
            &&& text::contains_text(said, l4 + count + l5)
            &&& text::contains_text(said, enable)
            &&& text::contains_text(said, revoke)
        }),
{
    let said = (a + l1) + path + (n + l2) + context + (n + l3) + label + did_line + l4 + count + l5
        + enable + revoke;
    let rest = label + did_line + l4 + count + l5 + enable + revoke;
    let head = (a + l1) + path + (n + l2) + context + (n + l3) + label + did_line;
    assert(said == (a + l1) + path + (n + l2) + context + (n + l3) + rest);
    assert(said == a + (l1 + path + n) + (l2 + context + (n + l3) + rest));
    text_laws::lemma_holds_its_middle(a, l1 + path + n, l2 + context + (n + l3) + rest);
    assert(said == (a + l1 + path) + ((n + l2) + context + n) + (l3 + rest));
    text_laws::lemma_holds_its_middle(a + l1 + path, (n + l2) + context + n, l3 + rest);
    assert(said == head + (l4 + count + l5) + (enable + revoke));
    text_laws::lemma_holds_its_middle(head, l4 + count + l5, enable + revoke);
    let body = head + l4 + count + l5;
    text_laws::lemma_holds_its_middle(body, enable, revoke);
    text_laws::lemma_holds_its_middle(body + enable, revoke, Seq::empty());
    assert(body + enable + revoke + Seq::<char>::empty() == said);
}

/// **How to enable the plugin is two commands of the host's own.**
pub proof fn law_the_plugin_is_enabled_with_two_commands(host: Host)
    ensures
        cli::enabling_text(host) == "\nEnable it in "@ + host.name@ + ":\n  "@ + host.command@
            + " plugin marketplace add OpenVTC/vta-agent-memory\n  "@ + host.command@
            + " plugin install vta-agent-memory@vta-agent-memory\n"@,
{
}

/// **Enrolment's first words say which identity needs which grant**: its DID,
/// the agent, the context, and the commands that grant it.
pub proof fn law_enrolments_first_words_say_what_to_grant(p: PendingEnrolment)
    ensures
        ({
            let said = cli::enrolment_text(p);
            &&& text::contains_text(said, p.ephemeral_did@)
            &&& text::contains_text(said, p.vta_did@)
            &&& text::contains_text(said, p.context_id@)
            &&& text::contains_text(
                said,
                enrol::indented(enrol::grant_lines(p.ephemeral_did@, p.context_id@)),
            )
        }),
{
    let a =
        "This machine minted a temporary identity and needs it authorized.\n\n  temp DID    "@;
    let b = "\n  vta         "@;
    let c = "\n  context     "@;
    let d =
        "\n\nRun these wherever you hold VTA admin — it does not have to be this machine:\n\n"@;
    let commands = enrol::indented(enrol::grant_lines(p.ephemeral_did@, p.context_id@));
    let e =
        "\n\nThen, back here:\n\n  vta-agent-memory connect\n\nThe temporary DID above is rotated away on that first connect, so it stops\nbeing an authenticator once it has done its job.\n"@;
    lemma_first_words(a, p.ephemeral_did@, b, p.vta_did@, c, p.context_id@, d, commands, e);
}

proof fn lemma_first_words(
    a: Seq<char>,
    did: Seq<char>,
    b: Seq<char>,
    vta: Seq<char>,
    c: Seq<char>,
    context: Seq<char>,
    d: Seq<char>,
    commands: Seq<char>,
    e: Seq<char>,
)
    ensures
        ({
            let said = a + did + b + vta + c + context + d + commands + e;
            &&& text::contains_text(said, did)
            &&& text::contains_text(said, vta)
            &&& text::contains_text(said, context)
            &&& text::contains_text(said, commands)
        }),
{
    let said = a + did + b + vta + c + context + d + commands + e;
    assert(said == a + did + (b + vta + c + context + d + commands + e));
    text_laws::lemma_holds_its_middle(a, did, b + vta + c + context + d + commands + e);
    assert(said == (a + did + b) + vta + (c + context + d + commands + e));
    text_laws::lemma_holds_its_middle(a + did + b, vta, c + context + d + commands + e);
    assert(said == (a + did + b + vta + c) + context + (d + commands + e));
    text_laws::lemma_holds_its_middle(a + did + b + vta + c, context, d + commands + e);
    text_laws::lemma_holds_its_middle(a + did + b + vta + c + context + d, commands, e);
}

} // verus!
