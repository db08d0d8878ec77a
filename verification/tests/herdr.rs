use herdr_sidebar::herdr::{
    attach_progress, focus_args, list_args, open_args, process_info_args, AgentSession, Attachment, Pane,
    PaneRef,
};
use herdr_sidebar::opencode::Connection;

fn texts(words: &[&str]) -> Vec<String> {
    words.iter().map(|s| (*s).into()).collect()
}

fn pane(id: &str, terminal: &str, agent: Option<&str>, session: Option<(&str, &str, &str)>) -> Pane {
    Pane {
        identity: PaneRef { pane_id: id.into(), terminal_id: terminal.into() },
        agent: agent.map(Into::into),
        agent_session: session.map(|(a, k, v)| AgentSession {
            agent: a.into(),
            kind: k.into(),
            value: v.into(),
        }),
    }
}

#[test]
fn only_opencode_id_sessions_are_reported() {
    assert_eq!(
        pane("p", "t", Some("opencode"), Some(("opencode", "id", "ses_a"))).session(),
        Some("ses_a")
    );
    assert_eq!(pane("p", "t", None, Some(("shell", "id", "ses_a"))).session(), None);
    assert_eq!(pane("p", "t", None, Some(("opencode", "name", "ses_a"))).session(), None);
    assert_eq!(pane("p", "t", None, None).session(), None);
    assert!(pane("p", "t", Some("opencode"), None).is_opencode());
    assert!(!pane("p", "t", Some("shell"), None).is_opencode());
}

#[test]
fn herdr_arguments_are_exact() {
    assert_eq!(list_args(), texts(&["pane", "list"]));
    assert_eq!(process_info_args("w1:p1"), texts(&["pane", "process-info", "--pane", "w1:p1"]));
    assert_eq!(focus_args("w1:p2"), texts(&["plugin", "pane", "focus", "w1:p2"]));
    let connection = Connection { binary: "/bin/opencode".into(), server: Some("http://localhost:4096".into()) };
    assert_eq!(
        open_args("w1:p1", "/project with spaces", "ses_fork", &connection),
        texts(&[
            "plugin", "pane", "open", "--plugin", "herdr-sidebar", "--entrypoint", "session",
            "--placement", "split", "--direction", "right", "--target-pane", "w1:p1", "--cwd",
            "/project with spaces", "--focus", "--env", "HERDR_SIDEBAR_SESSION=ses_fork", "--env",
            "HERDR_SIDEBAR_SERVER=http://localhost:4096", "--env", "HERDR_SIDEBAR_BIN=/bin/opencode",
        ])
    );
    let local = Connection { binary: "opencode".into(), server: None };
    let args = open_args("w1:p1", "/w", "ses_fork", &local);
    assert_eq!(args[19], "HERDR_SIDEBAR_SERVER=");
}

#[test]
fn side_pane_attachment_is_judged_from_the_pane_list() {
    let side = PaneRef { pane_id: "w1:p2".into(), terminal_id: "term_side".into() };
    let ready = vec![
        pane("w1:p1", "term_source", Some("opencode"), Some(("opencode", "id", "ses_parent"))),
        pane("w1:p2", "term_side", Some("opencode"), Some(("opencode", "id", "ses_fork"))),
    ];
    assert!(matches!(attach_progress(&ready, &side, "ses_fork"), Attachment::Ready));
    let starting = vec![pane("w1:p2", "term_side", None, None)];
    assert!(matches!(attach_progress(&starting, &side, "ses_fork"), Attachment::Starting));
    let other_session = vec![pane("w1:p2", "term_side", Some("opencode"), Some(("opencode", "id", "ses_x")))];
    assert!(matches!(attach_progress(&other_session, &side, "ses_fork"), Attachment::Starting));
    let recycled = vec![pane("w1:p2", "term_other", Some("opencode"), Some(("opencode", "id", "ses_fork")))];
    assert!(matches!(attach_progress(&recycled, &side, "ses_fork"), Attachment::Closed));
    assert!(matches!(attach_progress(&vec![], &side, "ses_fork"), Attachment::Closed));
}

#[test]
fn pane_references_compare_by_both_ids() {
    let a = PaneRef { pane_id: "w1:p2".into(), terminal_id: "t".into() };
    assert_eq!(a, a.clone());
    assert_ne!(a, PaneRef { pane_id: "w1:p2".into(), terminal_id: "u".into() });
    assert_ne!(a, PaneRef { pane_id: "w1:p3".into(), terminal_id: "t".into() });
}
