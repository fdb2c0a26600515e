//! The configuration.

use vta_agent_memory::config::{
    default_recall_limit, Config, ConfigError, Identity, CONFIG_VERSION,
};
use vta_agent_memory::files::{FilePath, FileRead, NoPlace};
use vta_agent_memory::lazy::{LazyStore, Need};
use vta_agent_memory::pnm::PnmConfig;
use vta_agent_memory::store::Store;

fn agent_config() -> Config {
    Config {
        version: CONFIG_VERSION,
        context_id: "my-project".into(),
        identity: Identity::Agent {
            did: "did:key:zAgent".into(),
            private_key_multibase: "zSecret".into(),
            vta_did: "did:webvh:abc:example.com:vta".into(),
            mediator_did: "did:web:mediator.example".into(),
            rest_url: Some("https://vta.example".into()),
        },
        recall_limit: 8,
    }
}

fn session_config() -> Config {
    Config {
        identity: Identity::PnmSession {
            session_key: "vta:my-vta".into(),
            vta_did: "did:webvh:abc:example.com:vta".into(),
            service_name: None,
        },
        ..agent_config()
    }
}

fn path(base: &str) -> FilePath {
    FilePath::at(base.to_string())
}

#[test]
fn a_missing_config_points_at_setup() {
    let err = Config::load(
        "/nonexistent/vta-agent-memory.json",
        FileRead::Missing("No such file or directory (os error 2)".into()),
    )
    .unwrap_err();
    assert!(
        err.to_string().contains("vta-agent-memory setup"),
        "{}",
        err.to_string()
    );
}

#[test]
fn a_newer_config_version_is_refused_rather_than_half_read() {
    let mut cfg = agent_config();
    cfg.version = CONFIG_VERSION + 1;
    let err = Config::load("config.json", FileRead::Parsed(cfg)).unwrap_err();
    assert!(
        err.to_string().contains("upgrade the binary"),
        "{}",
        err.to_string()
    );
    assert_eq!(
        err.to_string(),
        "config.json was written by a newer vta-agent-memory (config version 2, this build understands 1) — upgrade the binary"
    );
    assert!(Config::load("config.json", FileRead::Parsed(agent_config())).is_ok());
}

#[test]
fn every_load_error_is_spelt_out() {
    let err = Config::load("c.json", FileRead::Unreadable("denied".into())).unwrap_err();
    assert!(matches!(err, ConfigError::Missing { .. }));
    assert_eq!(
        err.to_string(),
        "no memory configuration at c.json (denied).\n\nRun:\n  vta-agent-memory setup --vta <did:… or pnm name>\n\n(or just `vta-agent-memory setup`, to use your default `pnm` VTA)"
    );
    let err = Config::load("c.json", FileRead::Garbled("bad".into())).unwrap_err();
    assert!(matches!(err, ConfigError::Garbled { .. }));
    assert_eq!(err.to_string(), "parsing c.json: bad");
    let err = Config::load("c.json", FileRead::Parsed(Config { version: 200, ..agent_config() }))
        .unwrap_err();
    assert!(matches!(err, ConfigError::Newer { version: 200, .. }));
}

#[test]
fn the_agent_identity_maps_onto_the_didkey_rung() {
    let plan = agent_config().to_agent_connect(Ok(path("/pnm"))).unwrap();
    assert_eq!(plan.agent_did.as_deref(), Some("did:key:zAgent"));
    assert_eq!(plan.agent_key.as_deref(), Some("zSecret"));
    assert_eq!(
        plan.mediator_did.as_deref(),
        Some("did:web:mediator.example")
    );
    assert_eq!(
        plan.vta_did.as_deref(),
        Some("did:webvh:abc:example.com:vta")
    );
    assert_eq!(plan.url.as_deref(), Some("https://vta.example"));
    assert_eq!(plan.session_key, None);
    assert!(plan.sessions_dir.is_none());
}

#[test]
fn the_session_identity_maps_onto_the_session_rung() {
    let plan = session_config().to_agent_connect(Ok(path("/pnm"))).unwrap();
    assert_eq!(plan.session_key.as_deref(), Some("vta:my-vta"));
    assert_eq!(plan.service_name, None);
    assert_eq!(plan.agent_did, None);
    assert_eq!(plan.agent_key, None);
    assert_eq!(plan.mediator_did, None);
}

#[test]
fn session_mode_never_leaves_the_sessions_dir_to_a_default() {
    let config_dir = "/home/someone/.config";
    let pnm = PnmConfig::default_dir(None, Some(config_dir.to_string()));
    let plan = session_config().to_agent_connect(pnm).unwrap();
    let dir = plan
        .sessions_dir
        .expect("session mode must resolve the directory itself");
    assert_eq!(dir.names, vec!["pnm".to_string()]);
    assert_eq!(dir.base, config_dir);
}

#[test]
fn without_a_place_only_a_pnm_session_is_out_of_reach() {
    let nowhere = || PnmConfig::default_dir(None, None);
    assert_eq!(
        session_config().to_agent_connect(nowhere()).unwrap_err(),
        NoPlace::Pnm
    );
    assert!(agent_config().to_agent_connect(nowhere()).is_ok());
}

#[test]
fn a_session_of_its_own_is_opened_where_it_was_kept() {
    let cfg = Config {
        identity: Identity::Session {
            service_name: "vta-agent-memory".into(),
            session_key: "agent:ctx".into(),
            sessions_dir: path("/c").join("vta-agent-memory"),
            vta_did: "did:key:zV".into(),
            operator_login: false,
        },
        ..agent_config()
    };
    let plan = cfg.to_agent_connect(Ok(path("/pnm"))).unwrap();
    assert_eq!(plan.session_key.as_deref(), Some("agent:ctx"));
    assert_eq!(plan.service_name.as_deref(), Some("vta-agent-memory"));
    let dir = plan.sessions_dir.unwrap();
    assert_eq!(dir.base, "/c");
    assert_eq!(dir.names, vec!["vta-agent-memory".to_string()]);
    assert_eq!(cfg.identity.vta_did(), "did:key:zV");
    assert_eq!(cfg.identity.label(), "dedicated agent did:key");
}

#[test]
fn labels_tell_whose_identity_it_is() {
    assert_eq!(agent_config().identity.label(), "dedicated agent did:key");
    assert_eq!(
        session_config().identity.label(),
        "pnm session (operator identity)"
    );
    assert_eq!(
        agent_config().identity.vta_did(),
        "did:webvh:abc:example.com:vta"
    );
    let operator = Identity::Session {
        service_name: "pnm-cli".into(),
        session_key: "vta:x".into(),
        sessions_dir: path("/c"),
        vta_did: "did:key:zV".into(),
        operator_login: true,
    };
    assert_eq!(operator.label(), "pnm session (operator identity)");
}

#[test]
fn the_path_is_the_variables_or_the_configurations() {
    let p = Config::default_path(Some("/x.json".into()), None).unwrap();
    assert_eq!(p.base, "/x.json");
    assert!(p.names.is_empty());
    let p = Config::default_path(Some(String::new()), Some("/home/c".into())).unwrap();
    assert_eq!(p.base, "/home/c");
    assert_eq!(
        p.names,
        vec!["vta-agent-memory".to_string(), "config.json".to_string()]
    );
    let err = Config::default_path(None, None).unwrap_err();
    assert_eq!(err, NoPlace::Config);
    assert_eq!(
        err.to_string(),
        "no config directory; set VTA_AGENT_MEMORY_CONFIG"
    );
    assert_eq!(default_recall_limit(), 8);
}

fn missing() -> LazyStore {
    LazyStore::new(path("/nonexistent/vta-agent-memory/config.json"))
}

#[test]
fn construction_never_fails_and_never_connects() {
    let lazy = missing();
    assert!(!lazy.is_connected());
    assert_eq!(lazy.need(), Need::LoadConfig);
    assert!(lazy.store().is_none());
}

#[test]
fn a_missing_config_surfaces_as_an_error_the_model_can_relay() {
    let mut lazy = missing();
    let loaded = Config::load(
        &lazy.config_path().base.clone(),
        FileRead::Missing("No such file or directory".into()),
    );
    let err = lazy.config_loaded(loaded).unwrap_err();
    assert!(
        err.to_string().contains("vta-agent-memory setup"),
        "the error must name the fix: {}",
        err.to_string()
    );
}

#[test]
fn failures_are_retried_rather_than_latched() {
    let mut lazy = missing();
    assert!(lazy.config_loaded(Err("no file")).is_err());
    assert!(!lazy.is_connected(), "a failed attempt must not be cached");
    assert_eq!(lazy.need(), Need::LoadConfig, "and it is tried again");
    lazy.config_loaded::<&str>(Ok(session_config())).unwrap();
    assert_eq!(lazy.need(), Need::Connect);
    assert_eq!(lazy.connect_tried(Err("unreachable")), Err("unreachable"));
    assert!(!lazy.is_connected());
    assert_eq!(lazy.need(), Need::Connect);
    lazy.connect_tried::<&str>(Ok(())).unwrap();
    assert!(lazy.is_connected());
    assert_eq!(lazy.need(), Need::Nothing);
    assert_eq!(lazy.store().unwrap().context_id(), "my-project");
}

#[test]
fn shutting_down_an_unconnected_store_is_a_no_op() {
    assert!(!missing().is_connected(), "there is nothing to close");
    let up = LazyStore::connected(path("/c"), Store::new("ctx"));
    assert!(up.is_connected());
    assert_eq!(up.need(), Need::Nothing);
}

#[test]
fn config_is_readable_without_a_connection() {
    let mut lazy = LazyStore::new(path("/c"));
    let cfg = Config {
        version: 1,
        context_id: "proj".into(),
        identity: Identity::PnmSession {
            session_key: "vta:x".into(),
            vta_did: "did:key:zV".into(),
            service_name: None,
        },
        recall_limit: 8,
    };
    lazy.config_loaded::<&str>(Ok(cfg)).unwrap();
    let cfg = lazy.config().unwrap();
    assert_eq!(cfg.context_id, "proj");
    assert_eq!(cfg.identity.vta_did(), "did:key:zV");
    assert!(!lazy.is_connected(), "reading config must not connect");
}

#[test]
fn a_configuration_that_was_loaded_stays() {
    let mut lazy = missing();
    lazy.config_loaded::<&str>(Ok(session_config())).unwrap();
    lazy.config_loaded::<&str>(Ok(Config {
        context_id: "other".into(),
        ..session_config()
    }))
    .unwrap();
    assert_eq!(lazy.config().unwrap().context_id, "my-project");
}
