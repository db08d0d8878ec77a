use herdr_sidebar::cli::Options;
use herdr_sidebar::error::SidebarError;
use herdr_sidebar::herdr::{AgentSession, Foreground, Pane, PaneRef};
use herdr_sidebar::opencode::{Connection, Fork, Location, Session};
use herdr_sidebar::state::{Link, Pending, Stage, State};
use herdr_sidebar::workflow::{matching, Action, Event, Reply, Workflow};

fn texts(words: &[&str]) -> Vec<String> {
    words.iter().map(|s| (*s).into()).collect()
}

fn identity(id: &str, terminal: &str) -> PaneRef {
    PaneRef { pane_id: id.into(), terminal_id: terminal.into() }
}

fn pane(id: &str, terminal: &str, session: Option<&str>) -> Pane {
    Pane {
        identity: identity(id, terminal),
        agent: Some("opencode".into()),
        agent_session: session.map(|s| AgentSession {
            agent: "opencode".into(),
            kind: "id".into(),
            value: s.into(),
        }),
    }
}

fn source() -> Pane {
    pane("w1:p1", "term_source", Some("ses_parent"))
}

fn side() -> Pane {
    pane("w1:p2", "term_side", Some("ses_fork"))
}

fn reply(id: &str, dir: &str, parent: Option<&str>) -> Event {
    Event::SessionReply {
        session: Session {
            id: id.into(),
            location: Location { directory: dir.into() },
            fork: parent.map(|p| Fork { session_id: p.into() }),
        },
    }
}

fn connection() -> Connection {
    Connection { binary: "/bin/opencode".into(), server: Some("http://localhost:4096".into()) }
}

fn pending(stage: Stage) -> Pending {
    Pending {
        socket: "a".into(),
        source: identity("w1:p1", "term_source"),
        parent_id: "ses_parent".into(),
        connection: connection(),
        cwd: "/project".into(),
        stage,
    }
}

fn begin(options: Options, state: State) -> Workflow {
    let (mut w, first) = Workflow::start("a".into(), "w1:p1".into(), &options);
    assert!(matches!(first, Action::AcquireStore));
    assert!(matches!(w.step(Event::StoreLoaded { state }), Action::ListPanes));
    w
}

fn error_of(a: Action) -> SidebarError {
    match a {
        Action::Fail { error } => error,
        other => panic!("{other:?}"),
    }
}

#[test]
fn fresh_invocation_records_intent_before_each_side_effect() {
    let mut w = begin(Options::default(), State::default());
    match w.step(Event::Panes { panes: vec![source()] }) {
        Action::ListProcesses { pane } => assert_eq!(pane, "w1:p1"),
        other => panic!("{other:?}"),
    }
    let processes = vec![Foreground {
        argv: texts(&["/bin/opencode", "--server", "http://localhost:4096"]),
        cwd: Some("/root".into()),
    }];
    match w.step(Event::Processes { processes }) {
        Action::Request { command, reply: Reply::Session } => {
            assert_eq!(command.program, "/bin/opencode");
            assert_eq!(command.cwd, ".");
            assert_eq!(
                command.args,
                texts(&["api", "--server", "http://localhost:4096", "get", "/api/session/ses_parent"])
            );
        }
        other => panic!("{other:?}"),
    }
    match w.step(reply("ses_parent", "/project", None)) {
        Action::Request { command, reply: Reply::History } => {
            assert_eq!(command.cwd, "/project");
            assert_eq!(command.args[4], "/api/session/ses_parent/message?limit=1");
        }
        other => panic!("{other:?}"),
    }
    match w.step(Event::HistoryReply { messages: 1 }) {
        Action::Save { state } => {
            assert_eq!(state.pending.len(), 1);
            assert!(matches!(state.pending[0].stage, Stage::Forking));
            assert_eq!(state.pending[0].cwd, "/project");
        }
        other => panic!("{other:?}"),
    }
    match w.step(Event::Completed) {
        Action::Request { command, reply: Reply::Fork } => {
            assert_eq!(command.args[4], "/api/session/ses_parent/fork");
            assert_eq!(command.args[5..], texts(&["--data", "{}"])[..]);
        }
        other => panic!("{other:?}"),
    }
    match w.step(reply("ses_fork", "/project", Some("ses_parent"))) {
        Action::Save { state } => match &state.pending[0].stage {
            Stage::Forked { session_id } => assert_eq!(session_id, "ses_fork"),
            other => panic!("{other:?}"),
        },
        other => panic!("{other:?}"),
    }
    match w.step(Event::Completed) {
        Action::Save { state } => assert!(matches!(
            &state.pending[0].stage,
            Stage::Opening { session_id, side: None } if session_id == "ses_fork"
        )),
        other => panic!("{other:?}"),
    }
    match w.step(Event::Completed) {
        Action::OpenPane { args } => {
            assert!(args.join("\n").contains("--direction\nright\n--target-pane\nw1:p1\n"));
            assert!(args.contains(&"HERDR_SIDEBAR_SESSION=ses_fork".to_string()));
            assert!(args.contains(&"--plugin".to_string()) && args.contains(&"herdr-sidebar".to_string()));
        }
        other => panic!("{other:?}"),
    }
    assert!(matches!(w.step(Event::PaneOpened { pane: identity("w1:p2", "term_side") }), Action::Save { .. }));
    match w.step(Event::Completed) {
        Action::WaitReady { side, session } => {
            assert_eq!(side, identity("w1:p2", "term_side"));
            assert_eq!(session, "ses_fork");
        }
        other => panic!("{other:?}"),
    }
    match w.step(Event::Completed) {
        Action::Save { state } => {
            assert!(state.pending.is_empty());
            assert_eq!(state.links.len(), 1);
            assert_eq!(state.links[0].side, identity("w1:p2", "term_side"));
            assert_eq!(state.links[0].source, identity("w1:p1", "term_source"));
            assert_eq!(state.links[0].session_id, "ses_fork");
        }
        other => panic!("{other:?}"),
    }
    match w.step(Event::Completed) {
        Action::Focus { pane } => assert_eq!(pane, "w1:p2"),
        other => panic!("{other:?}"),
    }
    match w.step(Event::Completed) {
        Action::Finish { outcome } => {
            assert_eq!(outcome.action, "created");
            assert_eq!(outcome.pane_id, "w1:p2");
            assert_eq!(outcome.session_id, "ses_fork");
        }
        other => panic!("{other:?}"),
    }
    assert!(matches!(error_of(w.step(Event::Completed)), SidebarError::UnexpectedEvent));
}

fn linked_state() -> State {
    State {
        links: vec![Link {
            socket: "a".into(),
            source: identity("w1:p1", "term_source"),
            side: identity("w1:p2", "term_side"),
            session_id: "ses_fork".into(),
        }],
        ..State::default()
    }
}

#[test]
fn live_mapping_is_focused_without_forking() {
    let mut w = begin(Options::default(), linked_state());
    match w.step(Event::Panes { panes: vec![source(), side()] }) {
        Action::Focus { pane } => assert_eq!(pane, "w1:p2"),
        other => panic!("{other:?}"),
    }
    assert!(matches!(w.step(Event::Completed), Action::Save { .. }));
    match w.step(Event::Completed) {
        Action::Finish { outcome } => {
            assert_eq!(outcome.action, "focused");
            assert_eq!(outcome.session_id, "ses_fork");
        }
        other => panic!("{other:?}"),
    }
}

#[test]
fn closed_side_pane_leads_to_a_new_fork() {
    let mut w = begin(Options::default(), linked_state());
    assert!(matches!(w.step(Event::Panes { panes: vec![source()] }), Action::ListProcesses { .. }));
    assert!(w.state.links.is_empty());
}

#[test]
fn unknown_fork_outcome_is_not_repeated() {
    let state = State { pending: vec![pending(Stage::Forking)], ..State::default() };
    let mut w = begin(Options::default(), state);
    assert!(matches!(error_of(w.step(Event::Panes { panes: vec![source()] })), SidebarError::ForkOutcomeUnknown));
}

#[test]
fn explicit_fork_retry_forks_the_recorded_parent() {
    let state = State { pending: vec![pending(Stage::Forking)], ..State::default() };
    let options = Options { retry_fork: true, ..Options::default() };
    let mut w = begin(options, state);
    match w.step(Event::Panes { panes: vec![source()] }) {
        Action::Request { command, reply: Reply::Fork } => {
            assert_eq!(command.cwd, "/project");
            assert_eq!(command.args[4], "/api/session/ses_parent/fork");
        }
        other => panic!("{other:?}"),
    }
    assert!(matches!(w.step(reply("ses_fork", "/project", Some("ses_parent"))), Action::Save { .. }));
    assert!(matches!(w.step(Event::Completed), Action::Save { .. }));
    assert!(matches!(w.step(Event::Completed), Action::OpenPane { .. }));
}

#[test]
fn recovery_checks_the_named_session() {
    let state = State { pending: vec![pending(Stage::Forking)], ..State::default() };
    let options = Options { recover_session: Some("ses_parent".into()), ..Options::default() };
    let mut w = begin(options, state);
    match w.step(Event::Panes { panes: vec![source()] }) {
        Action::Request { command, reply: Reply::Session } => {
            assert_eq!(command.args[4], "/api/session/ses_parent")
        }
        other => panic!("{other:?}"),
    }
    let error = error_of(w.step(reply("ses_parent", "/project", None)));
    assert!(error.message().contains("not a fork"));

    let state = State { pending: vec![pending(Stage::Forking)], ..State::default() };
    let options = Options { recover_session: Some("ses_fork".into()), ..Options::default() };
    let mut w = begin(options, state);
    assert!(matches!(w.step(Event::Panes { panes: vec![source()] }), Action::Request { .. }));
    match w.step(reply("ses_fork", "/project", Some("ses_parent"))) {
        Action::Save { state } => assert!(matches!(
            &state.pending[0].stage,
            Stage::Forked { session_id } if session_id == "ses_fork"
        )),
        other => panic!("{other:?}"),
    }

    let state = State { pending: vec![pending(Stage::Forking)], ..State::default() };
    let options = Options { recover_session: Some("ses_fork".into()), ..Options::default() };
    let mut w = begin(options, state);
    assert!(matches!(w.step(Event::Panes { panes: vec![source()] }), Action::Request { .. }));
    assert!(matches!(
        error_of(w.step(reply("ses_fork", "/elsewhere", Some("ses_parent")))),
        SidebarError::RecoveryDirectoryDiffers
    ));
}

#[test]
fn conflicting_or_pointless_recovery_options_are_refused() {
    let state = State { pending: vec![pending(Stage::Forking)], ..State::default() };
    let options = Options { recover_session: Some("ses_fork".into()), retry_fork: true, ..Options::default() };
    let mut w = begin(options, state);
    assert!(matches!(error_of(w.step(Event::Panes { panes: vec![source()] })), SidebarError::ConflictingRecovery));

    let options = Options { retry_launch: true, ..Options::default() };
    let mut w = begin(options, State::default());
    assert!(matches!(error_of(w.step(Event::Panes { panes: vec![source()] })), SidebarError::NothingToRecover));

    let state = State {
        pending: vec![pending(Stage::Forked { session_id: "ses_fork".into() })],
        ..State::default()
    };
    let options = Options { retry_fork: true, ..Options::default() };
    let mut w = begin(options, state);
    assert!(matches!(error_of(w.step(Event::Panes { panes: vec![source()] })), SidebarError::ForkAlreadyRecorded));
}

#[test]
fn unknown_launch_outcome_needs_explicit_retry() {
    let opening = || Stage::Opening { session_id: "ses_fork".into(), side: None };
    let state = State { pending: vec![pending(opening())], ..State::default() };
    let mut w = begin(Options::default(), state);
    match error_of(w.step(Event::Panes { panes: vec![source()] })) {
        SidebarError::LaunchOutcomeUnknown { session } => assert_eq!(session, "ses_fork"),
        other => panic!("{other:?}"),
    }
    let state = State { pending: vec![pending(opening())], ..State::default() };
    let mut w = begin(Options { retry_launch: true, ..Options::default() }, state);
    assert!(matches!(w.step(Event::Panes { panes: vec![source()] }), Action::Save { .. }));
    assert!(matches!(w.step(Event::Completed), Action::OpenPane { .. }));
    let state = State { pending: vec![pending(opening())], ..State::default() };
    let mut w = begin(Options::default(), state);
    assert!(matches!(w.step(Event::Panes { panes: vec![source(), side()] }), Action::Save { .. }));
    match w.step(Event::Completed) {
        Action::WaitReady { side, .. } => assert_eq!(side.pane_id, "w1:p2"),
        other => panic!("{other:?}"),
    }
}

#[test]
fn recorded_live_side_pane_is_reused() {
    let stage = Stage::Opening { session_id: "ses_fork".into(), side: Some(identity("w1:p2", "term_side")) };
    let state = State { pending: vec![pending(stage)], ..State::default() };
    let mut w = begin(Options::default(), state);
    let starting = pane("w1:p2", "term_side", None);
    assert!(matches!(w.step(Event::Panes { panes: vec![source(), starting] }), Action::Save { .. }));
    assert!(matches!(w.step(Event::Completed), Action::WaitReady { .. }));
    assert!(matches!(
        error_of(w.step(Event::Failed { reason: "side pane closed".into() })),
        SidebarError::NotAttached { .. }
    ));
}

#[test]
fn failures_are_reported_with_their_context() {
    let mut w = begin(Options::default(), State::default());
    assert!(matches!(error_of(w.step(Event::Panes { panes: vec![side()] })), SidebarError::SourcePaneGone));
    let mut w = begin(Options::default(), State::default());
    let mut plain = source();
    plain.agent = Some("shell".into());
    assert!(matches!(error_of(w.step(Event::Panes { panes: vec![plain] })), SidebarError::NotOpenCode));
    let mut w = begin(Options::default(), State::default());
    assert!(matches!(
        error_of(w.step(Event::Panes { panes: vec![pane("w1:p1", "t", None)] })),
        SidebarError::NoSessionId
    ));
    let mut w = begin(Options::default(), State::default());
    w.step(Event::Panes { panes: vec![source()] });
    let processes = vec![Foreground { argv: texts(&["opencode"]), cwd: None }];
    w.step(Event::Processes { processes });
    w.step(reply("ses_parent", "/project", None));
    assert!(matches!(error_of(w.step(Event::HistoryReply { messages: 0 })), SidebarError::EmptyConversation));

    let mut w = begin(Options::default(), State::default());
    w.step(Event::Panes { panes: vec![source()] });
    w.step(Event::Processes { processes: vec![Foreground { argv: texts(&["opencode"]), cwd: None }] });
    w.step(reply("ses_parent", "/project", None));
    w.step(Event::HistoryReply { messages: 3 });
    w.step(Event::Completed);
    let error = error_of(w.step(Event::Failed { reason: "timed out".into() }));
    assert!(error.message().starts_with("fork outcome could not be confirmed"));
    assert!(error.message().ends_with(": timed out"));
}

#[test]
fn several_panes_showing_the_fork_are_refused() {
    let showing = vec![
        pane("w1:p1", "t1", Some("ses_fork")),
        pane("w1:p5", "t5", Some("ses_fork")),
    ];
    match matching(&showing, &"ses_fork".to_string()) {
        Err(SidebarError::MultiplePanes { session }) => assert_eq!(session, "ses_fork"),
        other => panic!("{other:?}"),
    }
    let one = vec![pane("w1:p1", "t1", Some("ses_parent")), side()];
    assert_eq!(matching(&one, &"ses_fork".to_string()).unwrap(), Some(identity("w1:p2", "term_side")));
    assert_eq!(matching(&one, &"ses_none".to_string()).unwrap(), None);
}

/// Runs a fresh invocation up to the pane launch request; gives the workflow and the
/// record it last saved.
fn run_to_launch() -> (Workflow, State) {
    let mut saved = State::default();
    let mut w = begin(Options::default(), State::default());
    assert!(matches!(w.step(Event::Panes { panes: vec![source()] }), Action::ListProcesses { .. }));
    let processes = vec![Foreground {
        argv: texts(&["/bin/opencode", "--server", "http://localhost:4096"]),
        cwd: Some("/root".into()),
    }];
    assert!(matches!(w.step(Event::Processes { processes }), Action::Request { .. }));
    assert!(matches!(w.step(reply("ses_parent", "/project", None)), Action::Request { .. }));
    for event in [
        Event::HistoryReply { messages: 1 },
        Event::Completed,
        reply("ses_fork", "/project", Some("ses_parent")),
        Event::Completed,
        Event::Completed,
    ] {
        match w.step(event) {
            Action::Save { state } => saved = state,
            Action::Request { .. } | Action::OpenPane { .. } => {}
            other => panic!("{other:?}"),
        }
    }
    (w, saved)
}

#[test]
fn lost_fork_reply_is_refused_by_the_next_invocation() {
    let mut w = begin(Options::default(), State::default());
    assert!(matches!(w.step(Event::Panes { panes: vec![source()] }), Action::ListProcesses { .. }));
    let processes = vec![Foreground {
        argv: texts(&["/bin/opencode", "--server", "http://localhost:4096"]),
        cwd: Some("/root".into()),
    }];
    assert!(matches!(w.step(Event::Processes { processes }), Action::Request { .. }));
    assert!(matches!(w.step(reply("ses_parent", "/project", None)), Action::Request { .. }));
    let saved = match w.step(Event::HistoryReply { messages: 1 }) {
        Action::Save { state } => state,
        other => panic!("{other:?}"),
    };
    assert!(matches!(w.step(Event::Completed), Action::Request { reply: Reply::Fork, .. }));
    let error = error_of(w.step(Event::Failed { reason: "connection reset".into() }));
    assert!(error.message().starts_with("fork outcome could not be confirmed"));
    let mut next = begin(Options::default(), saved);
    let error = error_of(next.step(Event::Panes { panes: vec![source()] }));
    assert!(matches!(error, SidebarError::ForkOutcomeUnknown));
    assert!(error.message().starts_with("previous fork outcome is unknown"));
}

#[test]
fn lost_launch_reply_is_adopted_by_the_next_invocation() {
    let (mut w, saved) = run_to_launch();
    let error = error_of(w.step(Event::Failed { reason: "lost".into() }));
    assert!(error.message().starts_with("fork ses_fork is saved"));
    let mut next = begin(Options::default(), saved);
    match next.step(Event::Panes { panes: vec![source(), side()] }) {
        Action::Save { state } => assert!(matches!(
            &state.pending[0].stage,
            Stage::Opening { side: Some(s), .. } if *s == identity("w1:p2", "term_side")
        )),
        other => panic!("{other:?}"),
    }
    match next.step(Event::Completed) {
        Action::WaitReady { side, session } => {
            assert_eq!(side, identity("w1:p2", "term_side"));
            assert_eq!(session, "ses_fork");
        }
        other => panic!("{other:?}"),
    }
    assert!(matches!(next.step(Event::Completed), Action::Save { .. }));
    assert!(matches!(next.step(Event::Completed), Action::Focus { .. }));
    match next.step(Event::Completed) {
        Action::Finish { outcome } => {
            assert_eq!(outcome.action, "created");
            assert_eq!(outcome.pane_id, "w1:p2");
            assert_eq!(outcome.session_id, "ses_fork");
        }
        other => panic!("{other:?}"),
    }
}

#[test]
fn unattached_side_pane_is_reused_by_the_next_invocation() {
    let (mut w, _) = run_to_launch();
    let saved = match w.step(Event::PaneOpened { pane: identity("w1:p2", "term_side") }) {
        Action::Save { state } => state,
        other => panic!("{other:?}"),
    };
    assert!(matches!(w.step(Event::Completed), Action::WaitReady { .. }));
    let error = error_of(w.step(Event::Failed { reason: "timed out".into() }));
    assert!(error.message().contains("did not attach to ses_fork"));
    let starting = pane("w1:p2", "term_side", None);
    let mut next = begin(Options::default(), saved);
    assert!(matches!(next.step(Event::Panes { panes: vec![source(), starting] }), Action::Save { .. }));
    match next.step(Event::Completed) {
        Action::WaitReady { side, session } => {
            assert_eq!(side, identity("w1:p2", "term_side"));
            assert_eq!(session, "ses_fork");
        }
        other => panic!("{other:?}"),
    }
    assert!(matches!(next.step(Event::Completed), Action::Save { .. }));
    assert!(matches!(next.step(Event::Completed), Action::Focus { .. }));
    match next.step(Event::Completed) {
        Action::Finish { outcome } => {
            assert_eq!(outcome.action, "created");
            assert_eq!(outcome.pane_id, "w1:p2");
        }
        other => panic!("{other:?}"),
    }
}

#[test]
fn created_side_pane_is_focused_by_the_next_invocation_from_either_pane() {
    let (mut w, _) = run_to_launch();
    assert!(matches!(w.step(Event::PaneOpened { pane: identity("w1:p2", "term_side") }), Action::Save { .. }));
    assert!(matches!(w.step(Event::Completed), Action::WaitReady { .. }));
    let saved = match w.step(Event::Completed) {
        Action::Save { state } => state,
        other => panic!("{other:?}"),
    };
    assert!(matches!(w.step(Event::Completed), Action::Focus { .. }));
    assert!(matches!(w.step(Event::Completed), Action::Finish { .. }));
    for from in ["w1:p1", "w1:p2"] {
        let record = State {
            version: saved.version,
            links: saved.links.iter().map(|l| l.clone()).collect(),
            pending: Vec::new(),
        };
        let (mut next, _) = Workflow::start("a".into(), from.into(), &Options::default());
        assert!(matches!(next.step(Event::StoreLoaded { state: record }), Action::ListPanes));
        match next.step(Event::Panes { panes: vec![source(), side()] }) {
            Action::Focus { pane } => assert_eq!(pane, "w1:p2"),
            other => panic!("{other:?}"),
        }
        assert!(matches!(next.step(Event::Completed), Action::Save { .. }));
        match next.step(Event::Completed) {
            Action::Finish { outcome } => {
                assert_eq!(outcome.action, "focused");
                assert_eq!(outcome.pane_id, "w1:p2");
                assert_eq!(outcome.session_id, "ses_fork");
            }
            other => panic!("{other:?}"),
        }
    }
}
