//! Enrolment.

use vta_agent_memory::config::Identity;
use vta_agent_memory::enrol::{
    self, may_init, session_key_for, sessions_dir, ConnectArgs, EnrolError, Event, InitArgs,
    PendingEnrolment, Todo, PENDING_VERSION, SERVICE_NAME,
};
use vta_agent_memory::files::{FilePath, FileRead, NoPlace};

fn path(base: &str) -> FilePath {
    FilePath::at(base.to_string())
}

fn pending() -> PendingEnrolment {
    PendingEnrolment {
        version: PENDING_VERSION,
        ephemeral_did: "did:key:z6MkTemp".into(),
        vta_did: "did:webvh:abc:example.com:vta".into(),
        context_id: "agent-memory".into(),
        session_key: session_key_for("agent-memory"),
        sessions_dir: path("/tmp/sessions"),
        mediator_did: None,
        url: None,
    }
}

const COMMANDS: &str = "  pnm contexts create --id agent-memory --name agent-memory    # skip if it exists\n  pnm acl create --did did:key:z6MkTemp --role application --contexts agent-memory --label vta-agent-memory";

#[test]
fn the_grant_commands_match_the_real_pnm_flags() {
    let cmds = pending().grant_commands();
    assert!(
        cmds[0].starts_with("pnm contexts create --id agent-memory --name agent-memory"),
        "{}",
        cmds[0]
    );
    assert_eq!(
        cmds[1],
        "pnm acl create --did did:key:z6MkTemp --role application \
         --contexts agent-memory --label vta-agent-memory"
    );
    assert_eq!(cmds.len(), 2);
    assert_eq!(pending().commands_to_show(), COMMANDS);
}

#[test]
fn the_grant_is_never_admin() {
    assert!(pending()
        .grant_commands()
        .iter()
        .all(|c| !c.contains("admin")));
}

#[test]
fn session_keys_are_scoped_per_context() {
    assert_ne!(session_key_for("work"), session_key_for("personal"));
    assert_eq!(session_key_for("work"), "agent:work");
}

#[test]
fn our_sessions_never_collide_with_pnms() {
    assert_ne!(SERVICE_NAME, "pnm-cli");
    assert!(!session_key_for("x").starts_with("vta:"));
}

#[test]
fn a_missing_pending_file_points_at_init() {
    let err = PendingEnrolment::load(
        "/nonexistent/pending.json",
        FileRead::Missing("No such file or directory (os error 2)".into()),
    )
    .unwrap_err();
    assert!(
        err.to_string().contains("vta-agent-memory init"),
        "{}",
        err.to_string()
    );
}

#[test]
fn init_refuses_to_silently_replace_a_pending_enrolment() {
    let p = pending();
    let err = may_init(false, Some(&p), "config.json", false).unwrap_err();
    let msg = err.to_string();
    assert!(msg.contains("already pending"), "{msg}");
    assert!(
        msg.contains("pnm acl create"),
        "it reprints the grant: {msg}"
    );
    assert_eq!(
        msg,
        format!(
            "an enrolment is already pending for did:key:z6MkTemp in context `agent-memory`.\n\nGrant it:\n{COMMANDS}\n\nThen:\n  vta-agent-memory connect\n\nOr start over with --force."
        )
    );
}

#[test]
fn init_refuses_an_enrolled_machine_unless_forced() {
    let err = may_init(false, None, "c.json", true).unwrap_err();
    assert!(matches!(err, EnrolError::AlreadyEnrolled { .. }));
    assert_eq!(
        err.to_string(),
        "c.json already exists — this machine is already enrolled.\n\nPass --force to replace it, and revoke the old agent afterwards with `pnm acl delete`."
    );
    assert!(may_init(true, Some(&pending()), "c.json", true).is_ok());
    assert!(may_init(false, None, "c.json", false).is_ok());
}

#[test]
fn nothing_is_minted_where_something_is_in_the_way() {
    let args = |force: bool| InitArgs {
        vta_did: "did:v".into(),
        context_id: "ctx".into(),
        mediator_did: None,
        url: None,
        config_path: path("/c").join("config.json"),
        force,
    };
    let dir = || sessions_dir(Some("/c".into()));
    let p = pending();
    assert!(matches!(
        enrol::begin(args(false), Some(&p), "c.json", true, dir()),
        Err(EnrolError::AlreadyPending { .. })
    ));
    assert!(matches!(
        enrol::begin(args(false), None, "c.json", true, dir()),
        Err(EnrolError::AlreadyEnrolled { .. })
    ));
    assert!(enrol::begin(args(true), Some(&p), "c.json", true, dir()).is_ok());
    let err = enrol::begin(args(false), None, "c.json", false, sessions_dir(None)).unwrap_err();
    assert!(matches!(err, EnrolError::Nowhere(NoPlace::Sessions)));
    assert_eq!(
        err.to_string(),
        "could not determine the user config directory"
    );
}

#[test]
fn what_init_records_is_what_connect_opens() {
    let args = InitArgs {
        vta_did: "did:v".into(),
        context_id: "ctx".into(),
        mediator_did: Some("did:m".into()),
        url: None,
        config_path: path("/c").join("config.json"),
        force: false,
    };
    let dir = sessions_dir(Some("/c".into())).unwrap();
    assert_eq!(dir.names, vec!["vta-agent-memory".to_string()]);
    let minting = enrol::begin(args, None, "/c/config.json", false, Ok(dir)).unwrap();
    assert_eq!(minting.vta_did(), "did:v");
    assert_eq!(minting.session_key(), "agent:ctx");
    assert_eq!(minting.sessions_dir().base, "/c");
    let p = enrol::init(minting, "did:key:zTemp".into(), "did:v".into());
    assert_eq!(p.version, PENDING_VERSION);
    assert_eq!(p.ephemeral_did, "did:key:zTemp");
    assert_eq!(p.session_key, "agent:ctx");
    assert_eq!(p.mediator_did.as_deref(), Some("did:m"));
    let cfg = enrol::config_of(&p, 5);
    assert_eq!(cfg.context_id, "ctx");
    assert_eq!(cfg.recall_limit, 5);
    match &cfg.identity {
        Identity::Session {
            service_name,
            session_key,
            sessions_dir,
            vta_did,
            operator_login,
        } => {
            assert_eq!(service_name, SERVICE_NAME);
            assert_eq!(session_key, "agent:ctx");
            assert_eq!(sessions_dir.base, "/c");
            assert_eq!(vta_did, "did:v");
            assert!(!operator_login);
        }
        other => panic!("a session of its own, not {other:?}"),
    }
    let err = sessions_dir(None).unwrap_err();
    assert_eq!(err, NoPlace::Sessions);
    assert_eq!(
        err.to_string(),
        "could not determine the user config directory"
    );
}

#[test]
fn the_pending_file_is_beside_the_configuration() {
    let p = PendingEnrolment::path_beside(path("/c").join("vta-agent-memory").join("config.json"));
    assert_eq!(p.base, "/c");
    assert_eq!(
        p.names,
        vec![
            "vta-agent-memory".to_string(),
            "pending-enrolment.json".to_string()
        ]
    );
    assert!(!p.beside);

    let named = PendingEnrolment::path_beside(path("/elsewhere/mine.json"));
    assert_eq!(named.base, "/elsewhere/mine.json");
    assert!(named.beside, "in the directory that the file is in");
    assert_eq!(named.names, vec!["pending-enrolment.json".to_string()]);
    let again = named.with_file_name("other.json");
    assert!(again.beside);
    assert_eq!(again.names, vec!["other.json".to_string()]);
    let below = path("/c").join("d").join("e");
    assert!(!below.beside);
}

#[test]
fn every_load_error_of_a_pending_file_is_spelt_out() {
    let newer = PendingEnrolment {
        version: PENDING_VERSION + 1,
        ..pending()
    };
    assert_eq!(
        PendingEnrolment::load("p.json", FileRead::Parsed(newer))
            .unwrap_err()
            .to_string(),
        "p.json was written by a newer vta-agent-memory — upgrade the binary"
    );
    assert_eq!(
        PendingEnrolment::load("p.json", FileRead::Garbled("bad".into()))
            .unwrap_err()
            .to_string(),
        "parsing p.json: bad"
    );
    assert!(PendingEnrolment::load("p.json", FileRead::Parsed(pending())).is_ok());
}

fn args() -> ConnectArgs {
    ConnectArgs {
        config_path: path("/c").join("config.json"),
        recall_limit: 8,
    }
}

#[test]
fn connecting_keeps_what_was_proved_and_closes_what_was_opened() {
    let c = enrol::connect(args(), pending(), "/c/config.json");
    assert_eq!(c.todo(), Todo::Connect);
    let c = c.after(Event::Done);
    assert_eq!(c.todo(), Todo::List);
    assert!(c.config().is_none());
    let c = c.after(Event::Listed(12));
    assert_eq!(c.todo(), Todo::Close);
    let c = c.after(Event::Done);
    assert_eq!(c.todo(), Todo::Write);
    assert_eq!(c.config().unwrap().context_id, "agent-memory");
    let c = c.after(Event::Done);
    assert_eq!(c.todo(), Todo::RemovePending);
    let c = c.after(Event::Failed("already gone".into()));
    assert_eq!(c.todo(), Todo::FindDid);
    let c = c.after(Event::Named(Some("did:key:zNew".into())));
    assert_eq!(c.todo(), Todo::Report);
    let o = c.result().unwrap().unwrap();
    assert_eq!(o.memories_found, 12);
    assert_eq!(o.agent_did.as_deref(), Some("did:key:zNew"));
    assert_eq!(o.identity_label, "dedicated agent did:key");
    assert_eq!(o.context_id, "agent-memory");
    assert_eq!(o.vta_did, "did:webvh:abc:example.com:vta");
    assert_eq!(o.config_path.names, vec!["config.json".to_string()]);
}

#[test]
fn a_failed_connection_reprints_the_grant() {
    let c = enrol::connect(args(), pending(), "/c/config.json").after(Event::Failed("401".into()));
    assert_eq!(c.todo(), Todo::Report);
    assert_eq!(
        c.result().unwrap().unwrap_err().to_string(),
        format!(
            "connecting as did:key:z6MkTemp failed: 401\n\nIf the grant has not been made yet, run this where you hold VTA admin:\n{COMMANDS}\n\nthen try again."
        )
    );
}

#[test]
fn an_identity_that_cannot_list_is_closed_and_not_kept() {
    let c = enrol::connect(args(), pending(), "/c/config.json")
        .after(Event::Done)
        .after(Event::Failed("denied".into()));
    assert_eq!(c.todo(), Todo::Close);
    let c = c.after(Event::Done);
    assert_eq!(c.todo(), Todo::Report);
    assert_eq!(
        c.result().unwrap().unwrap_err().to_string(),
        "authenticated, but cannot read memories in context `agent-memory` — check `pnm acl list` shows this agent with access to it: denied"
    );
}

#[test]
fn a_configuration_that_cannot_be_written_is_reported() {
    let c = enrol::connect(args(), pending(), "/c/config.json")
        .after(Event::Done)
        .after(Event::Listed(0))
        .after(Event::Done)
        .after(Event::Failed("disk full".into()));
    assert!(c.config().is_none());
    assert_eq!(
        c.result().unwrap().unwrap_err().to_string(),
        "writing /c/config.json: disk full"
    );
}
