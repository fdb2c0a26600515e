//! What the commands print.

use vta_agent_memory::cli::{
    end_recall, enrolment_notice, hook_envelope, parse_kind, recall_ending, recall_plan,
    render_memories, setup_summary, Host, OutputFormat,
};
use vta_agent_memory::enrol::{session_key_for, PendingEnrolment};
use vta_agent_memory::fence::{Fence, Provenance};
use vta_agent_memory::files::FilePath;
use vta_agent_memory::record::{Entry, MemoryKey, MemoryRecord, MemoryType};
use vta_agent_memory::setup::SetupOutcome;

fn entry(kind: MemoryType, name: &str, desc: &str, body: &str) -> Entry {
    Entry {
        key: MemoryKey::new(kind, name).unwrap(),
        record: MemoryRecord::new(kind, name, desc, body, vec![]),
    }
}

#[test]
fn an_empty_context_renders_as_a_sentence_not_an_empty_heading() {
    let out = render_memories("proj", vec![], false);
    assert!(out.contains("No memories stored"));
    assert!(!out.contains('#'));
    assert_eq!(out, "No memories stored in trust context `proj`.");
}

#[test]
fn memories_are_grouped_by_type_in_a_fixed_order() {
    let a = entry(MemoryType::Project, "P", "a project", "body");
    let b = entry(MemoryType::User, "U", "a user fact", "body");
    let out = render_memories("proj", vec![&a, &b], false);
    let user_at = out.find("## user").expect("user section");
    let project_at = out.find("## project").expect("project section");
    assert!(
        user_at < project_at,
        "MemoryType::ALL order is the render order"
    );
}

#[test]
fn summaries_omit_bodies_unless_asked() {
    let e = entry(MemoryType::User, "U", "one line", "the long body");
    let brief = render_memories("proj", vec![&e], false);
    assert!(brief.contains("one line"));
    assert!(!brief.contains("the long body"), "bodies cost context");
    assert!(render_memories("proj", vec![&e], true).contains("the long body"));
}

#[test]
fn unknown_types_are_rejected_before_any_connection() {
    assert!(parse_kind(Some("secrets")).is_err());
    assert_eq!(parse_kind(None).unwrap(), None);
    assert_eq!(
        parse_kind(Some("Feedback")).unwrap(),
        Some(MemoryType::Feedback)
    );
    assert_eq!(
        parse_kind(Some("x")).unwrap_err(),
        "unknown memory type `x`; expected user, feedback, project or reference"
    );
}

#[test]
fn a_rendering_is_spelt_out_exactly() {
    let a = entry(MemoryType::User, "A", "first", "one\ntwo\n");
    let b = entry(MemoryType::Reference, "B", "second", "");
    let c = entry(MemoryType::User, "C", "third", "x");
    assert_eq!(
        render_memories("proj", vec![&a, &b, &c], true),
        "# Stored memories (3 in trust context `proj`)\n\
         \n## user\n\
         \n- **A** (`user/a`) — first\n\n  one\n  two\n  \
         \n- **C** (`user/c`) — third\n\n  x\n\
         \n## reference\n\
         \n- **B** (`reference/b`) — second\n"
    );
    assert_eq!(
        render_memories("proj", vec![&b], false),
        "# Stored memories (1 in trust context `proj`)\n\n## reference\n\n- **B** (`reference/b`) — second\n"
    );
}

#[test]
fn a_recall_plan_takes_the_limit_as_it_is() {
    let plan = recall_plan(None, Some("user"), None, 8).unwrap();
    assert_eq!(plan.limit, 8);
    assert_eq!(plan.query, "");
    assert_eq!(plan.kind, Some(MemoryType::User));
    let plan = recall_plan(Some("q".into()), None, Some(1000), 8).unwrap();
    assert_eq!(plan.limit, 1000);
    assert_eq!(plan.query, "q");
    assert_eq!(plan.kind, None);
    assert!(recall_plan(None, Some("x"), None, 8).is_err());
}

#[test]
fn an_unusable_config_does_not_fail_the_session() {
    let end = end_recall(OutputFormat::Json, Err("run vta-agent-memory setup".into()));
    assert!(end.failure.is_none(), "a hook must succeed");
    assert!(end.stdout.is_none(), "and must inject nothing");
}

#[test]
fn the_same_failure_is_a_real_error_for_a_person() {
    let end = end_recall(OutputFormat::Text, Err("run vta-agent-memory setup".into()));
    assert!(end.stdout.is_none());
    assert_eq!(end.failure.as_deref(), Some("run vta-agent-memory setup"));
    let end = end_recall(OutputFormat::Text, Ok("body".into()));
    assert_eq!(end.stdout.as_deref(), Some("body"));
    assert!(end.failure.is_none());
}

#[test]
fn hook_output_is_json_only_on_stdout() {
    let end = end_recall(OutputFormat::Json, Ok("# Stored \"memories\"\n".into()));
    assert!(end.failure.is_none());
    let out: serde_json::Value = serde_json::from_str(&end.stdout.unwrap()).unwrap();
    let hook = &out["hookSpecificOutput"];
    assert_eq!(hook["hookEventName"], "SessionStart");
    let context = hook["additionalContext"].as_str().unwrap();
    assert!(context.starts_with("The block below is STORED DATA"));
    assert!(context.contains("# Stored \"memories\"\n"));
    assert!(context.contains("<<</UNTRUSTED-MEMORY:"));
}

#[test]
fn a_hook_without_a_fence_stays_quiet() {
    let end = recall_ending(OutputFormat::Json, Ok("body".into()), None);
    assert!(end.stdout.is_none());
    assert!(end.failure.is_none());
    let f = Fence::with_nonce(Provenance::Context, "0a");
    let end = recall_ending(OutputFormat::Json, Ok("body".into()), Some(&f));
    assert_eq!(end.stdout.unwrap(), hook_envelope(&f.wrap("body")));
}

#[test]
fn an_envelope_is_spelt_out_exactly() {
    assert_eq!(
        hook_envelope("a \"b\"\n\u{2}"),
        "{\"hookSpecificOutput\":{\"additionalContext\":\"a \\\"b\\\"\\n\\u0002\",\"hookEventName\":\"SessionStart\"}}"
    );
}

#[test]
fn setup_ends_with_how_to_go_on_and_how_to_go_back() {
    let host = Host {
        name: "Some Agent".into(),
        command: "some-agent".into(),
    };
    let mut o = SetupOutcome {
        config_path: FilePath::at("/c".into()),
        vta_did: "did:v".into(),
        context_id: "ctx".into(),
        identity_label: "dedicated agent did:key".into(),
        agent_did: Some("did:key:zA".into()),
        memories_found: 12,
    };
    assert_eq!(
        setup_summary(&o, "/c/config.json", &host),
        "Memory service configured.\n\n  config      /c/config.json\n  context     ctx\n  identity    dedicated agent did:key\n  agent DID   did:key:zA\n  memories    12 already stored\n\nEnable it in Some Agent:\n  some-agent plugin marketplace add OpenVTC/vta-agent-memory\n  some-agent plugin install vta-agent-memory@vta-agent-memory\n\nTo revoke this machine's access later:\n  pnm acl delete --did did:key:zA\n"
    );
    o.agent_did = None;
    let brief = setup_summary(&o, "/c/config.json", &host);
    assert!(!brief.contains("agent DID"));
    assert!(!brief.contains("revoke"));
}

#[test]
fn the_enrolment_notice_prints_the_grant() {
    let p = PendingEnrolment {
        version: 1,
        ephemeral_did: "did:key:zT".into(),
        vta_did: "did:v".into(),
        context_id: "ctx".into(),
        session_key: session_key_for("ctx"),
        sessions_dir: FilePath::at("/s".into()),
        mediator_did: None,
        url: None,
    };
    assert_eq!(
        enrolment_notice(&p),
        "This machine minted a temporary identity and needs it authorized.\n\n  temp DID    did:key:zT\n  vta         did:v\n  context     ctx\n\nRun these wherever you hold VTA admin — it does not have to be this machine:\n\n  pnm contexts create --id ctx --name ctx    # skip if it exists\n  pnm acl create --did did:key:zT --role application --contexts ctx --label vta-agent-memory\n\nThen, back here:\n\n  vta-agent-memory connect\n\nThe temporary DID above is rotated away on that first connect, so it stops\nbeing an authenticator once it has done its job.\n"
    );
}
