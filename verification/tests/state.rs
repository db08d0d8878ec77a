use herdr_sidebar::herdr::PaneRef;
use herdr_sidebar::state::{Link, State};

fn pane(id: &str, terminal: &str) -> PaneRef {
    PaneRef {
        pane_id: id.into(),
        terminal_id: terminal.into(),
    }
}

fn linked() -> (State, PaneRef, PaneRef) {
    let source = pane("w1:p1", "source");
    let side = pane("w1:p2", "side");
    let state = State {
        links: vec![Link {
            socket: "a".into(),
            source: source.clone(),
            side: side.clone(),
            session_id: "ses_fork".into(),
        }],
        ..State::default()
    };
    (state, source, side)
}

#[test]
fn source_and_orphaned_side_reuse_the_same_mapping() {
    let (mut state, source, side) = linked();
    assert_eq!(
        state
            .existing("a", &source, &[source.clone(), side.clone()])
            .unwrap()
            .side,
        side
    );
    assert_eq!(
        state
            .existing("a", &side, std::slice::from_ref(&side))
            .unwrap()
            .side,
        side
    );
}

#[test]
fn recycled_ids_and_other_sockets_cannot_reuse_a_mapping() {
    let (mut state, source, side) = linked();
    assert!(
        state
            .existing("b", &source, &[source.clone(), side.clone()])
            .is_none()
    );
    assert_eq!(state.links.len(), 1);
    let reused = pane(&side.pane_id, "different-terminal");
    assert!(
        state
            .existing("a", &source, &[source.clone(), reused])
            .is_none()
    );
    assert!(state.links.is_empty());
}

use herdr_sidebar::error::SidebarError;
use herdr_sidebar::opencode::Connection;
use herdr_sidebar::state::{legacy_version, Pending, Stage};

fn link(socket: &str, source: &PaneRef, side: &PaneRef, session: &str) -> Link {
    Link { socket: socket.into(), source: source.clone(), side: side.clone(), session_id: session.into() }
}

#[test]
fn pruning_keeps_other_servers_and_settles() {
    let source = pane("w1:p1", "source");
    let side = pane("w1:p2", "side");
    let gone = pane("w1:p3", "gone");
    let mut state = State {
        links: vec![
            link("b", &source, &gone, "ses_b"),
            link("a", &source, &gone, "ses_gone"),
            link("a", &source, &side, "ses_live"),
        ],
        ..State::default()
    };
    let live = [source.clone(), side.clone()];
    let first = state.existing("a", &source, &live).unwrap();
    assert_eq!(first.session_id, "ses_live");
    assert_eq!(state.links.len(), 2);
    assert_eq!(state.links[0].socket, "b");
    let again = state.existing("a", &source, &live).unwrap();
    assert_eq!(again.session_id, "ses_live");
    assert_eq!(state.links.len(), 2);
}

#[test]
fn side_match_wins_over_source_match() {
    let p1 = pane("w1:p1", "t1");
    let p2 = pane("w1:p2", "t2");
    let p3 = pane("w1:p3", "t3");
    let mut state = State {
        links: vec![link("a", &p2, &p3, "ses_by_source"), link("a", &p1, &p2, "ses_by_side")],
        ..State::default()
    };
    let found = state.existing("a", &p2, &[p1.clone(), p2.clone(), p3.clone()]).unwrap();
    assert_eq!(found.session_id, "ses_by_side");
}

#[test]
fn records_of_known_versions_are_upgraded() {
    assert_eq!(legacy_version(), 1);
    let d = State::default();
    assert_eq!(d.version, 2);
    assert!(d.links.is_empty() && d.pending.is_empty());
    let legacy = State { version: 1, ..State::default() };
    assert_eq!(legacy.upgraded().unwrap().version, 2);
    let current = State { version: 2, ..State::default() };
    assert_eq!(current.upgraded().unwrap().version, 2);
    match (State { version: 3, ..State::default() }).upgraded() {
        Err(SidebarError::UnsupportedVersion { version }) => assert_eq!(version, 3),
        other => panic!("{other:?}"),
    }
    assert!(matches!((State { version: 0, ..State::default() }).upgraded(), Err(SidebarError::UnsupportedVersion { version: 0 })));
}

#[test]
fn pending_operations_are_found_by_server_and_source() {
    let source = pane("w1:p1", "t1");
    let other = pane("w1:p1", "t9");
    let pending = |socket: &str, src: &PaneRef| Pending {
        socket: socket.into(),
        source: src.clone(),
        parent_id: "ses_p".into(),
        connection: Connection { binary: "opencode".into(), server: None },
        cwd: "/w".into(),
        stage: Stage::Forking,
    };
    let state = State {
        pending: vec![pending("b", &source), pending("a", &other), pending("a", &source), pending("a", &source)],
        ..State::default()
    };
    assert_eq!(state.pending_position("a", &source), Some(2));
    assert_eq!(state.pending_position("c", &source), None);
    let copy = state.copy();
    assert_eq!(copy.pending.len(), 4);
}
