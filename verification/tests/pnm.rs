//! Resolving targets the way `pnm` does.

use vta_agent_memory::files::{FileRead, NoPlace};
use vta_agent_memory::pnm::{PnmConfig, PnmLoadError, ResolveError, VtaTarget};

fn target(name: Option<&str>, did: Option<&str>) -> VtaTarget {
    VtaTarget {
        name: name.map(str::to_string),
        vta_did: did.map(str::to_string),
        url: None,
        mediator_did: None,
    }
}

/// What a TOML text says of `pnm`'s targets, whatever else it says.
fn cfg(toml_src: &str) -> PnmConfig {
    let v: toml::Value = toml::from_str(toml_src).expect("parses");
    let text = |v: &toml::Value, key: &str| v.get(key).and_then(|x| x.as_str()).map(str::to_string);
    let mut out = PnmConfig::empty();
    out.default_vta = text(&v, "default_vta");
    if let Some(vtas) = v.get("vtas").and_then(|t| t.as_table()) {
        for (slug, t) in vtas {
            out.insert(
                slug.clone(),
                VtaTarget {
                    name: text(t, "name"),
                    vta_did: text(t, "vta_did"),
                    url: text(t, "url"),
                    mediator_did: text(t, "mediator_did"),
                },
            );
        }
    }
    out
}

fn two_vtas() -> PnmConfig {
    cfg(r#"
default_vta = "personal"

[vtas.personal]
name = "Personal"
vta_did = "did:webvh:abc:example.com:personal"

[vtas.work]
name = "Work"
vta_did = "did:webvh:def:corp.example:work"
mediator_did = "did:web:mediator.corp.example"
url = "https://vta.corp.example"
"#)
}

#[test]
fn the_session_key_carries_pnms_vta_prefix() {
    let r = two_vtas().resolve(Some("personal")).unwrap();
    assert_eq!(r.session_key(), "vta:personal");
}

#[test]
fn a_vta_did_resolves_to_its_slug() {
    let r = two_vtas()
        .resolve(Some("did:webvh:def:corp.example:work"))
        .unwrap();
    assert_eq!(r.slug, "work");
    assert_eq!(r.session_key(), "vta:work");
    assert_eq!(r.vta_did, "did:webvh:def:corp.example:work");
}

#[test]
fn a_slug_still_works() {
    assert_eq!(two_vtas().resolve(Some("work")).unwrap().slug, "work");
}

#[test]
fn nothing_named_uses_pnms_default() {
    let r = two_vtas().resolve(None).unwrap();
    assert_eq!(r.slug, "personal");
}

#[test]
fn configured_endpoints_are_carried_through() {
    let r = two_vtas().resolve(Some("work")).unwrap();
    assert_eq!(
        r.mediator_did.as_deref(),
        Some("did:web:mediator.corp.example")
    );
    assert_eq!(r.url.as_deref(), Some("https://vta.corp.example"));
}

#[test]
fn an_unknown_did_lists_what_is_configured() {
    let err = two_vtas().resolve(Some("did:webvh:zzz:nope")).unwrap_err();
    let msg = err.to_string();
    assert!(msg.contains("Personal (personal)"), "{msg}");
    assert!(msg.contains("did:webvh:def:corp.example:work"), "{msg}");
}

#[test]
fn an_unknown_slug_lists_what_is_configured() {
    let err = two_vtas().resolve(Some("typo")).unwrap_err();
    assert!(err.to_string().contains("Work (work)"), "{}", err.to_string());
}

#[test]
fn a_pending_setup_says_so_rather_than_failing_to_authenticate() {
    let c = cfg(r#"
default_vta = "half"
[vtas.half]
name = "Half done"
"#);
    let err = c.resolve(None).unwrap_err();
    assert!(
        err.to_string().contains("pnm setup continue half"),
        "{}",
        err.to_string()
    );
}

#[test]
fn no_configured_vtas_points_at_pnm_setup() {
    let err = PnmConfig::empty().resolve(None).unwrap_err();
    assert!(
        err.to_string().contains("pnm setup --name"),
        "{}",
        err.to_string()
    );
}

#[test]
fn no_default_and_no_argument_asks_for_one() {
    let c = cfg(r#"
[vtas.only]
vta_did = "did:key:zVta"
"#);
    let err = c.resolve(None).unwrap_err();
    assert!(err.to_string().contains("--vta"), "{}", err.to_string());
}

#[test]
fn a_missing_config_file_is_not_an_error() {
    let c = PnmConfig::load("/x/config.toml", FileRead::Missing("gone".into())).unwrap();
    assert!(c.vtas.is_empty());
    assert!(c
        .resolve(None)
        .unwrap_err()
        .to_string()
        .contains("pnm setup"));
}

#[test]
fn unknown_keys_in_pnms_config_are_ignored() {
    let c = cfg(r#"
default_vta = "a"
resolver_url = "ws://127.0.0.1:4445/did/v1/ws"

[vtas.a]
name = "A"
vta_did = "did:key:zA"
some_future_key = "whatever"
"#);
    assert_eq!(c.resolve(None).unwrap().slug, "a");
}

#[test]
fn an_unreadable_file_and_a_garbled_one_are_errors() {
    let err = PnmConfig::load("/p", FileRead::Unreadable("denied".into())).unwrap_err();
    assert!(matches!(err, PnmLoadError::Unreadable { .. }));
    assert_eq!(err.to_string(), "reading /p: denied");
    let err = PnmConfig::load("/p", FileRead::Garbled("line 1".into())).unwrap_err();
    assert!(matches!(err, PnmLoadError::Garbled { .. }));
    assert_eq!(err.to_string(), "parsing /p: line 1");
    let kept = PnmConfig::load("/p", FileRead::Parsed(two_vtas())).unwrap();
    assert_eq!(kept.vtas.len(), 2);
}

#[test]
fn every_resolve_error_is_spelt_out() {
    let c = two_vtas();
    let listed = "  Personal (personal) — did:webvh:abc:example.com:personal\n  Work (work) — did:webvh:def:corp.example:work";
    assert_eq!(c.render_targets(), listed);
    assert_eq!(PnmConfig::empty().render_targets(), "  (none)");
    assert_eq!(
        c.resolve(Some("typo")).unwrap_err().to_string(),
        format!("no `pnm` VTA named `typo`.\n\nConfigured:\n{listed}")
    );
    assert_eq!(
        c.resolve(Some("did:x")).unwrap_err().to_string(),
        format!(
            "no `pnm` login for VTA `did:x` on this machine.\n\nConfigured:\n{listed}\n\nLog in to it with:\n  pnm setup --name <name>"
        )
    );
    let mut lost = two_vtas();
    lost.default_vta = Some("lost".into());
    let err = lost.resolve(None).unwrap_err();
    assert!(matches!(err, ResolveError::DefaultMissing { .. }));
    assert_eq!(
        err.to_string(),
        format!("`pnm`'s default VTA `lost` is not configured\n\nConfigured:\n{listed}")
    );
    lost.insert("half".into(), target(Some("Half done"), None));
    let err = lost.resolve(Some("half")).unwrap_err();
    assert!(matches!(err, ResolveError::Pending { .. }));
    assert_eq!(
        err.to_string(),
        format!(
            "the `pnm` VTA `half` is pending setup — its admin DID was minted but the VTA DID has not been supplied.\n\nFinish it first:\n  pnm setup continue half\n\nConfigured:\n  Half done (half) — (pending setup)\n{listed}"
        )
    );
    lost.default_vta = None;
    assert!(matches!(
        lost.resolve(None),
        Err(ResolveError::NoDefault { .. })
    ));
    assert!(matches!(
        PnmConfig::empty().resolve(Some("x")),
        Err(ResolveError::NoneConfigured)
    ));
}

#[test]
fn a_name_that_is_the_slug_is_not_repeated() {
    let mut c = PnmConfig::empty();
    c.insert("a".into(), target(Some("a"), Some("did:key:z1")));
    c.insert("b".into(), target(None, None));
    assert_eq!(c.render_targets(), "  a — did:key:z1\n  b — (pending setup)");
}

#[test]
fn targets_are_kept_in_order_and_once_each() {
    let mut c = PnmConfig::empty();
    for slug in ["m", "z", "a", "m", "b"] {
        c.insert(slug.to_string(), target(None, Some(&format!("did:{slug}:last"))));
    }
    c.insert("m".into(), target(Some("M"), Some("did:m:new")));
    let slugs: Vec<&str> = c.vtas.iter().map(|(s, _)| s.as_str()).collect();
    assert_eq!(slugs, vec!["a", "b", "m", "z"]);
    assert_eq!(c.resolve(Some("m")).unwrap().vta_did, "did:m:new");
}

#[test]
fn the_first_of_two_targets_with_one_did_is_taken() {
    let mut c = PnmConfig::empty();
    c.insert("b".into(), target(None, Some("did:same")));
    c.insert("a".into(), target(None, Some("did:same")));
    assert_eq!(c.resolve(Some("did:same")).unwrap().slug, "a");
}

#[test]
fn the_directory_is_the_variables_or_the_configurations() {
    let p = PnmConfig::default_dir(Some("/elsewhere".into()), Some("/home/c".into())).unwrap();
    assert_eq!(p.base, "/elsewhere");
    assert!(p.names.is_empty());
    let p = PnmConfig::default_dir(Some(String::new()), Some("/home/c".into())).unwrap();
    assert_eq!(p.base, "/home/c");
    assert_eq!(p.names, vec!["pnm".to_string()]);
    let err = PnmConfig::default_dir(None, None).unwrap_err();
    assert_eq!(err, NoPlace::Pnm);
    assert_eq!(err.to_string(), "HOME is not set; set PNM_CONFIG_DIR");
}
