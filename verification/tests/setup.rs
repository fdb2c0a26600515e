//! Setup.

use vta_agent_memory::config::Identity;
use vta_agent_memory::files::FilePath;
use vta_agent_memory::pnm::{PnmConfig, ResolvedVta, VtaTarget};
use vta_agent_memory::setup::{
    advertised_way_in, configured_way_in, grant_for, render_list, resolve_context, run, Endpoint,
    Event, Setup, SetupArgs, SetupError, Todo, AGENT_ROLE,
};

fn vta(mediator: Option<&str>, url: Option<&str>) -> ResolvedVta {
    ResolvedVta {
        slug: "mine".into(),
        vta_did: "did:webvh:abc:example.com:vta".into(),
        mediator_did: mediator.map(str::to_string),
        url: url.map(str::to_string),
    }
}

fn pnm(mediator: Option<&str>) -> PnmConfig {
    let mut c = PnmConfig::empty();
    c.insert(
        "mine".into(),
        VtaTarget {
            name: None,
            vta_did: Some("did:webvh:abc:example.com:vta".into()),
            url: None,
            mediator_did: mediator.map(str::to_string),
        },
    );
    c
}

fn args(use_session: bool, force: bool) -> SetupArgs {
    SetupArgs {
        vta: "mine".into(),
        service_name: None,
        context: None,
        use_session,
        config_path: FilePath::at("/c".into()).join("config.json"),
        force,
    }
}

fn begin(use_session: bool, mediator: Option<&str>) -> Setup {
    run(args(use_session, false), &pnm(mediator), "/c/config.json", false).unwrap()
}

#[test]
fn the_agent_role_is_never_admin() {
    assert_ne!(AGENT_ROLE, "admin");
    assert_eq!(AGENT_ROLE, "application");
}

#[test]
fn empty_context_lists_render_readably() {
    assert_eq!(render_list(&[]), "(none)");
    assert_eq!(render_list(&["a".into(), "b".into()]), "a, b");
}

#[test]
fn a_context_is_chosen_or_the_choice_is_explained() {
    let ids = |v: &[&str]| v.iter().map(|s| s.to_string()).collect::<Vec<String>>();
    assert_eq!(resolve_context(&ids(&["a", "b"]), Some("b")).unwrap(), "b");
    assert_eq!(resolve_context(&ids(&["only"]), None).unwrap(), "only");
    assert_eq!(
        resolve_context(&ids(&["a", "b"]), Some("c"))
            .unwrap_err()
            .to_string(),
        "no trust context `c` on this VTA.\n\nAvailable: a, b\n\nCreate one with:\n  pnm contexts create --name c"
    );
    assert_eq!(
        resolve_context(&vec![], None).unwrap_err().to_string(),
        "this VTA has no trust contexts yet. Create one for your memories:\n  pnm contexts create --name memory"
    );
    assert_eq!(
        resolve_context(&ids(&["a", "b"]), None)
            .unwrap_err()
            .to_string(),
        "several trust contexts exist — choose which one holds these memories with --context <id>.\n\nAvailable: a, b"
    );
    assert!(matches!(
        resolve_context(&vec![], Some("x")),
        Err(SetupError::UnknownContext { .. })
    ));
}

#[test]
fn a_grant_names_one_context_and_the_least_role() {
    let g = grant_for("did:key:zA", "ctx");
    assert_eq!(g.did, "did:key:zA");
    assert_eq!(g.role, "application");
    assert_eq!(g.label, "vta-agent-memory");
    assert_eq!(g.allowed_contexts, vec!["ctx".to_string()]);
}

#[test]
fn what_pnm_was_told_is_preferred_to_what_is_advertised() {
    let told = configured_way_in(&vta(Some("did:web:m"), Some("https://u"))).unwrap();
    assert_eq!(told.mediator_did, "did:web:m");
    assert_eq!(told.rest_url.as_deref(), Some("https://u"));
    assert!(configured_way_in(&vta(None, Some("https://u"))).is_none());

    let found = advertised_way_in(
        &vta(None, Some("https://u")),
        "mine",
        Endpoint::Didcomm {
            mediator_did: "did:web:d".into(),
            rest_url: Some("https://advertised".into()),
        },
    )
    .unwrap();
    assert_eq!(found.mediator_did, "did:web:d");
    assert_eq!(found.rest_url.as_deref(), Some("https://u"));
}

#[test]
fn an_agent_without_a_didcomm_mediator_has_no_way_in() {
    let advice = "\n\nUse the operator session instead:\n  vta-agent-memory setup --vta mine --use-session";
    let v = vta(None, None);
    let ok = advertised_way_in(
        &v,
        "mine",
        Endpoint::Tsp {
            didcomm_mediator_did: Some("did:web:d".into()),
            rest_url: Some("https://r".into()),
        },
    )
    .unwrap();
    assert_eq!(ok.rest_url.as_deref(), Some("https://r"));
    let tsp = |rest_url: Option<String>| {
        advertised_way_in(
            &v,
            "mine",
            Endpoint::Tsp {
                didcomm_mediator_did: None,
                rest_url,
            },
        )
        .unwrap_err()
        .to_string()
    };
    assert_eq!(
        tsp(None),
        format!("this VTA advertises TSP but no DIDComm mediator, so a dedicated agent identity has no way to connect.{advice}")
    );
    assert_eq!(
        tsp(Some("https://r".into())),
        format!("this VTA advertises TSP but no DIDComm mediator, so a dedicated agent identity has no way to connect (REST is available at https://r, but a did:key agent authenticates over DIDComm).{advice}")
    );
    assert_eq!(
        advertised_way_in(&v, "mine", Endpoint::Rest { url: "https://r".into() })
            .unwrap_err()
            .to_string(),
        format!("this VTA advertises only REST (https://r), so a dedicated agent identity cannot authenticate over DIDComm.{advice}")
    );
    assert_eq!(
        advertised_way_in(&v, "mine", Endpoint::Unknown)
            .unwrap_err()
            .to_string(),
        format!("this VTA advertises a transport this build does not know how to give a dedicated agent identity.{advice}")
    );
}

#[test]
fn an_existing_configuration_is_replaced_only_on_request() {
    let err = run(args(false, false), &PnmConfig::empty(), "/c/config.json", true).unwrap_err();
    assert_eq!(
        err.to_string(),
        "/c/config.json already exists — pass --force to replace it (this discards the current agent identity; revoke it afterwards with `pnm acl delete`)"
    );
    assert!(run(args(false, true), &pnm(None), "/c/config.json", true).is_ok());
}

#[test]
fn a_login_that_pnm_does_not_have_is_said_to_be_missing() {
    let err = run(
        SetupArgs {
            vta: "typo".into(),
            ..args(false, false)
        },
        &pnm(None),
        "/c/config.json",
        false,
    )
    .unwrap_err();
    assert!(matches!(err, SetupError::Unresolved { .. }));
    assert_eq!(
        err.to_string(),
        "no `pnm` VTA named `typo`.\n\nConfigured:\n  mine — did:webvh:abc:example.com:vta"
    );
}

#[test]
fn the_operator_connects_with_the_session_pnm_stored() {
    for named in ["mine", "did:webvh:abc:example.com:vta"] {
        let s = run(
            SetupArgs {
                vta: named.into(),
                service_name: Some("svc".into()),
                ..args(false, false)
            },
            &pnm(None),
            "/c/config.json",
            false,
        )
        .unwrap();
        let plan = s.operator_plan(FilePath::at("/home/me/pnm".into()));
        assert_eq!(plan.session_key.as_deref(), Some("vta:mine"));
        assert_eq!(plan.service_name.as_deref(), Some("svc"));
        assert_eq!(plan.sessions_dir.unwrap().base, "/home/me/pnm");
        assert_eq!(plan.agent_did, None);
        assert_eq!(plan.agent_key, None);
        assert_eq!(plan.vta_did, None);
        assert_eq!(plan.mediator_did, None);
        assert_eq!(plan.url, None);
    }
}

#[test]
fn a_dedicated_agent_is_minted_granted_found_proved_and_kept() {
    let s = begin(false, None);
    assert_eq!(s.todo(), Todo::ConnectOperator);
    let s = s.after(Event::Done);
    assert_eq!(s.todo(), Todo::ListContexts);
    let s = s.after(Event::Contexts(vec!["ctx".into()]));
    assert_eq!(s.todo(), Todo::MintKey);
    assert!(s.grant().is_none());
    let s = s.after(Event::Minted {
        did: "did:key:zNew".into(),
        key: "zKey".into(),
    });
    assert_eq!(s.todo(), Todo::CreateGrant);
    let grant = s.grant().unwrap();
    assert_eq!(grant.did, "did:key:zNew");
    assert_eq!(grant.allowed_contexts, vec!["ctx".to_string()]);
    assert_eq!(grant.role, AGENT_ROLE);
    assert!(!grant.approve_all_contexts);
    assert!(grant.approve_contexts.is_empty());
    assert_eq!(grant.expires_at, None);
    assert_eq!(grant.allowed_keys, None);
    let s = s.after(Event::Done);
    assert_eq!(s.todo(), Todo::LookUp);
    assert!(s.config().is_none());
    let s = s.after(Event::Advertised(Endpoint::Didcomm {
        mediator_did: "did:web:d".into(),
        rest_url: None,
    }));
    assert_eq!(s.todo(), Todo::Probe);
    match &s.config().unwrap().identity {
        Identity::Agent {
            did,
            private_key_multibase,
            mediator_did,
            ..
        } => {
            assert_eq!(did, "did:key:zNew");
            assert_eq!(private_key_multibase, "zKey");
            assert_eq!(mediator_did, "did:web:d");
        }
        other => panic!("a dedicated agent, not {other:?}"),
    }
    let s = s.after(Event::Listed(3));
    assert_eq!(s.todo(), Todo::Write);
    assert_eq!(s.config().unwrap().recall_limit, 8);
    let s = s.after(Event::Done);
    assert_eq!(s.todo(), Todo::CloseOperator);
    let s = s.after(Event::Done);
    assert_eq!(s.todo(), Todo::Report);
    let o = s.result().unwrap().unwrap();
    assert_eq!(o.memories_found, 3);
    assert_eq!(o.agent_did.as_deref(), Some("did:key:zNew"));
    assert_eq!(o.context_id, "ctx");
    assert_eq!(o.vta_did, "did:webvh:abc:example.com:vta");
    assert_eq!(o.identity_label, "dedicated agent did:key");
}

#[test]
fn reusing_the_session_mints_nothing() {
    let s = begin(true, None)
        .after(Event::Done)
        .after(Event::Contexts(vec!["ctx".into()]));
    assert_eq!(s.todo(), Todo::Probe);
    match &s.config().unwrap().identity {
        Identity::PnmSession { session_key, .. } => assert_eq!(session_key, "vta:mine"),
        other => panic!("the operator's session, not {other:?}"),
    }
    let s = s.after(Event::Listed(0)).after(Event::Done).after(Event::Done);
    let o = s.result().unwrap().unwrap();
    assert_eq!(o.agent_did, None);
    assert_eq!(o.identity_label, "pnm session (operator identity)");
}

#[test]
fn a_configured_mediator_needs_no_lookup() {
    let s = begin(false, Some("did:web:m"))
        .after(Event::Done)
        .after(Event::Contexts(vec!["ctx".into()]))
        .after(Event::Minted {
            did: "did:key:zNew".into(),
            key: "zKey".into(),
        })
        .after(Event::Done);
    assert_eq!(s.todo(), Todo::Probe);
}

fn ends(s: Setup, event: Event) -> String {
    let s = s.after(event);
    let s = if s.todo() == Todo::CloseOperator {
        s.after(Event::Done)
    } else {
        s
    };
    assert_eq!(s.todo(), Todo::Report);
    s.result().unwrap().unwrap_err().to_string()
}

#[test]
fn what_is_said_of_a_login_repeats_it_as_it_was_named() {
    let did = "did:webvh:abc:example.com:vta";
    let begin = || {
        let named = SetupArgs {
            vta: did.into(),
            ..args(false, false)
        };
        run(named, &pnm(None), "/c/config.json", false).unwrap()
    };
    assert_eq!(
        ends(begin(), Event::Failed("why".into())),
        format!("connecting to VTA `{did}` with the stored pnm session — run `pnm auth status` to check it, or `pnm setup` if you have not logged in on this machine: why")
    );
    let looking = begin()
        .after(Event::Done)
        .after(Event::Contexts(vec!["ctx".into()]))
        .after(Event::Minted {
            did: "did:key:zNew".into(),
            key: "zKey".into(),
        })
        .after(Event::Done);
    assert!(ends(looking, Event::Advertised(Endpoint::Unknown))
        .ends_with(&format!("vta-agent-memory setup --vta {did} --use-session")));
}

#[test]
fn every_failure_is_reported_after_the_operators_connection_is_closed() {
    let failed = || Event::Failed("why".into());
    assert_eq!(
        ends(begin(false, None), failed()),
        "connecting to VTA `mine` with the stored pnm session — run `pnm auth status` to check it, or `pnm setup` if you have not logged in on this machine: why"
    );
    let contexts = || begin(false, None).after(Event::Done);
    assert_eq!(ends(contexts(), failed()), "listing trust contexts: why");
    assert!(ends(contexts(), Event::Contexts(vec![])).contains("no trust contexts yet"));
    let minting = || contexts().after(Event::Contexts(vec!["ctx".into()]));
    assert_eq!(ends(minting(), failed()), "minting the agent did:key: why");
    let granting = || {
        minting().after(Event::Minted {
            did: "did:key:zNew".into(),
            key: "zKey".into(),
        })
    };
    assert_eq!(
        ends(granting(), failed()),
        "granting the memory agent `did:key:zNew` access to context `ctx` (needs an operator login with admin over that context): why"
    );
    let looking = || granting().after(Event::Done);
    assert_eq!(
        ends(looking(), failed()),
        "resolving the VTA's DID document (did:webvh:abc:example.com:vta): why"
    );
    assert!(ends(looking(), Event::Advertised(Endpoint::Unknown)).contains("--use-session"));
    let probing = || {
        looking().after(Event::Advertised(Endpoint::Didcomm {
            mediator_did: "did:web:d".into(),
            rest_url: None,
        }))
    };
    assert_eq!(
        ends(probing(), failed()),
        "connecting as the dedicated agent did:key just configured: why"
    );
    assert_eq!(
        ends(probing(), Event::Refused("denied".into())),
        "the identity connected but cannot read memories in context `ctx` — check `pnm acl list` shows it with access to that context: denied"
    );
    let writing = || probing().after(Event::Listed(1));
    assert_eq!(ends(writing(), failed()), "writing /c/config.json: why");
}
