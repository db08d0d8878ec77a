//! Fork-or-focus workflow.  Intent is recorded before every remote side effect, and an
//! operation whose outcome is unknown is never repeated without being asked to.
//!
//! The workflow is a state machine: [`Workflow::start`] gives the first action, and
//! [`Workflow::step`] takes the outcome of the last action and gives the next one.  The
//! caller performs the actions (store access, Herdr and OpenCode calls) and reports back.
use vstd::prelude::*;
use crate::cli::Options;
use crate::error::SidebarError;
use crate::herdr::{open_args, reported_session, runs_opencode, spec_open_args, Foreground, Pane, PaneRef};
use crate::opencode::{
    is_api_command, is_session_id, ApiCommand, Connection, Session, FORK_SUFFIX, METHOD_GET,
    METHOD_POST, SESSION_PATH, HISTORY_SUFFIX,
};
use crate::state::{
    first_pending, is_live, keep_pred, reused_link, Link, Pending, Stage, State,
};
use crate::text::{owned, same_text, texts};

verus! {

/// What `open` did: focused an existing side pane or created one.
#[derive(Debug)]
pub struct Outcome {
    pub action: &'static str,
    pub pane_id: String,
    pub session_id: String,
}

pub const FOCUSED: &'static str = "focused";
pub const CREATED: &'static str = "created";

/// Whether a pane reports session `session`.
pub open spec fn shows_fork(session: Seq<char>) -> spec_fn(Pane) -> bool {
    |p: Pane| reported_session(p) == Some(session)
}

/// The panes that display session `session`.
pub open spec fn panes_showing(panes: Seq<Pane>, session: Seq<char>) -> Seq<Pane> {
    panes.filter(shows_fork(session))
}

/// The pane that displays fork `session`: refused when several do, none when none does.
pub fn matching(panes: &[Pane], session: &String) -> (r: Result<Option<PaneRef>, SidebarError>)
    ensures
        panes_showing(panes@, session@).len() > 1 ==> r == Err::<Option<PaneRef>, SidebarError>(
            SidebarError::MultiplePanes { session: *session },
        ),
        panes_showing(panes@, session@).len() == 1 ==> r == Ok::<Option<PaneRef>, SidebarError>(
            Some(panes_showing(panes@, session@)[0].identity),
        ),
        panes_showing(panes@, session@).len() == 0 ==> r == Ok::<Option<PaneRef>, SidebarError>(
            None,
        ),
{
    let ghost pred = shows_fork(session@);
    let mut count: usize = 0;
    let mut first: Option<PaneRef> = None;
    let mut i: usize = 0;
    while i < panes.len()
        invariant
            i <= panes.len(),
            pred == shows_fork(session@),
            count == panes@.take(i as int).filter(pred).len(),
            count <= 1,
            count == 0 ==> first is None,
            count == 1 ==> first == Some(panes@.take(i as int).filter(pred)[0].identity),
        decreases panes.len() - i,
    {
        proof {
            crate::state::lemma_filter_take(panes@, i as int, pred);
        }
        let shows = match panes[i].session() {
            Some(s) => same_text(s, session.as_str()),
            None => false,
        };
        if shows {
            if count == 1 {
                proof {
                    crate::state::lemma_filter_take(panes@, i as int, pred);
                    lemma_filter_prefix_len(panes@, i as int + 1, pred);
                }
                return Err(SidebarError::MultiplePanes { session: session.clone() });
            }
            first = Some(panes[i].identity.copy());
            count = count + 1;
        }
        i = i + 1;
    }
    assert(panes@.take(panes@.len() as int) =~= panes@);
    Ok(first)
}

/// Filtering a longer prefix keeps at least as many elements.
pub proof fn lemma_filter_prefix_len<A>(s: Seq<A>, i: int, pred: spec_fn(A) -> bool)
    requires
        0 <= i <= s.len(),
    ensures
        s.take(i).filter(pred).len() <= s.filter(pred).len(),
    decreases s.len() - i,
{
    if i < s.len() {
        crate::state::lemma_filter_take(s, i, pred);
        lemma_filter_prefix_len(s, i + 1, pred);
    } else {
        assert(s.take(i) =~= s);
    }
}

/// What the caller must read from an OpenCode answer.
#[derive(Debug)]
pub enum Reply {
    /// A session that was read.
    Session,
    /// The messages of a session; only their number matters.
    History,
    /// The session created by a fork.
    Fork,
}

/// What the caller must do next.
#[derive(Debug)]
pub enum Action {
    /// Lock the store and load the record.
    AcquireStore,
    /// List Herdr's panes.
    ListPanes,
    /// List the foreground processes of `pane`.
    ListProcesses { pane: String },
    /// Run an OpenCode API request and report its answer.
    Request { command: ApiCommand, reply: Reply },
    /// Replace the stored record with `state`.
    Save { state: State },
    /// Run Herdr with `args` to open the side pane and report the pane it opened.
    OpenPane { args: Vec<String> },
    /// Wait until `side` shows fork `session`, within the configured time.
    WaitReady { side: PaneRef, session: String },
    /// Focus plugin pane `pane`.
    Focus { pane: String },
    /// Report the outcome; the workflow is over.
    Finish { outcome: Outcome },
    /// Report the error; the workflow is over.
    Fail { error: SidebarError },
}

/// What happened to the last action.
#[derive(Debug)]
pub enum Event {
    /// The store was locked and holds `state`.
    StoreLoaded { state: State },
    /// Herdr listed these panes.
    Panes { panes: Vec<Pane> },
    /// Herdr listed these foreground processes.
    Processes { processes: Vec<Foreground> },
    /// OpenCode answered with this session.
    SessionReply { session: Session },
    /// OpenCode listed this many messages.
    HistoryReply { messages: usize },
    /// Herdr opened this pane.
    PaneOpened { pane: PaneRef },
    /// The save, focus or wait succeeded.
    Completed,
    /// The action failed for this reason.
    Failed { reason: String },
}

/// Where the workflow stands.
#[derive(Debug)]
pub enum Phase {
    /// Waiting for the store to be locked and loaded.
    AwaitStore,
    /// Waiting for Herdr's pane list.
    AwaitPanes,
    /// Focusing the side pane of an existing mapping.
    FocusingExisting { link: Link },
    /// Saving the pruned record before reporting the focused mapping.
    SavingBeforeFocus { link: Link },
    /// Waiting for the source pane's processes, to find its OpenCode connection.
    AwaitProcesses { parent: String, source: PaneRef },
    /// Waiting for the parent session, to learn its directory.
    AwaitParent { parent: String, source: PaneRef, connection: Connection },
    /// Waiting for the parent's history, which must not be empty.
    AwaitHistory { parent: String, source: PaneRef, connection: Connection, cwd: String },
    /// Saving the intent to fork, recorded as operation `index`.
    SavingIntent { index: usize },
    /// Waiting for the fork.
    Forking { index: usize },
    /// Saving the fork.
    SavingFork { index: usize, fork: String },
    /// Waiting for an explicitly retried fork.
    RetryingFork { index: usize },
    /// Saving an explicitly retried fork.
    SavingRetriedFork { index: usize },
    /// Waiting for the session named for recovery.
    Recovering { index: usize, session: String },
    /// Saving the recovered fork.
    SavingRecovery { index: usize },
    /// Saving the intent to open the side pane for fork `session`.
    SavingLaunchIntent { index: usize, session: String },
    /// Waiting for Herdr to open the side pane.
    Launching { index: usize, session: String },
    /// Saving the side pane of the fork.
    SavingSide { index: usize, session: String, side: PaneRef },
    /// Waiting for the side pane to show the fork.
    AwaitReady { index: usize, session: String, side: PaneRef },
    /// Saving the new mapping.
    SavingLink { side: PaneRef, session: String },
    /// Focusing the new side pane.
    FocusingSide { side: PaneRef, session: String },
    /// The workflow is over.
    Finished,
}

/// What an invocation was asked to do.
#[derive(Debug)]
pub struct Setup {
    /// The Herdr server.
    pub socket: String,
    /// The pane the action was invoked from.
    pub pane: String,
    pub recover_session: Option<String>,
    pub retry_launch: bool,
    pub retry_fork: bool,
}

/// The content of the record as far as the workflow knows it to be stored.
pub struct Record {
    pub links: Seq<Link>,
    pub pending: Seq<Pending>,
}

/// The fork-or-focus workflow of one invocation.
pub struct Workflow {
    pub setup: Setup,
    pub phase: Phase,
    /// The record as the workflow holds it in memory.
    pub state: State,
    /// Herdr's pane list.
    pub panes: Vec<Pane>,
    /// The record as last loaded or confirmed saved.
    pub durable: Ghost<Record>,
}

/// The parts of a workflow that the transitions read and change.
pub struct Ctx {
    pub setup: Setup,
    pub panes: Seq<Pane>,
    pub links: Seq<Link>,
    pub pending: Seq<Pending>,
    pub version: u32,
    pub durable: Record,
}

pub open spec fn ctx_of(m: Workflow) -> Ctx {
    Ctx {
        setup: m.setup,
        panes: m.panes@,
        links: m.state.links@,
        pending: m.state.pending@,
        version: m.state.version,
        durable: m.durable@,
    }
}

/// The record as the context holds it.
pub open spec fn record_of(c: Ctx) -> Record {
    Record { links: c.links, pending: c.pending }
}

/// The context after its record was confirmed saved.
pub open spec fn saved(c: Ctx) -> Ctx {
    Ctx { durable: record_of(c), ..c }
}

/// The workflow `m2` holds context `c` and stands at `phase`.
pub open spec fn becomes(c: Ctx, m2: Workflow, phase: Phase) -> bool {
    &&& ctx_of(m2) == c
    &&& m2.phase == phase
}

/// The workflow ends with error `e`, holding context `c`.
pub open spec fn ends(c: Ctx, m2: Workflow, a: Action, e: SidebarError) -> bool {
    &&& ctx_of(m2) == c
    &&& m2.phase == Phase::Finished
    &&& a == Action::Fail { error: e }
}

/// The action saves the context's record.
pub open spec fn saves(c: Ctx, a: Action) -> bool {
    a matches Action::Save { state } && state.links@ == c.links && state.pending@ == c.pending
        && state.version == c.version
}

/// The context with operation `i` at stage `s`.
pub open spec fn with_stage(c: Ctx, i: int, s: Stage) -> Ctx {
    Ctx { pending: c.pending.update(i, Pending { stage: s, ..c.pending[i] }), ..c }
}

/// The error for an event that was not expected, or for a failed action.
pub open spec fn otherwise(c: Ctx, e: Event, m2: Workflow, a: Action) -> bool {
    match e {
        Event::Failed { reason } => ends(c, m2, a, SidebarError::External { reason }),
        _ => ends(c, m2, a, SidebarError::UnexpectedEvent),
    }
}

/// The identities of the panes.
pub open spec fn live_panes(panes: Seq<Pane>) -> Seq<PaneRef> {
    panes.map_values(|p: Pane| p.identity)
}

/// The first pane whose pane id is `id`.
pub open spec fn source_index(panes: Seq<Pane>, id: Seq<char>) -> Option<int> {
    if exists|i: int| 0 <= i < panes.len() && (#[trigger] panes[i]).identity.pane_id@ == id {
        Some(
            choose|i: int|
                0 <= i < panes.len() && (#[trigger] panes[i]).identity.pane_id@ == id && (forall|j: int|
                    0 <= j < i ==> (#[trigger] panes[j]).identity.pane_id@ != id),
        )
    } else {
        None
    }
}

/// Some pane has pane id `id` at or before position `i`, so a first one exists.
proof fn lemma_min_source(panes: Seq<Pane>, id: Seq<char>, i: int)
    requires
        0 <= i < panes.len(),
        panes[i].identity.pane_id@ == id,
    ensures
        exists|k: int|
            0 <= k < panes.len() && (#[trigger] panes[k]).identity.pane_id@ == id && (forall|j: int|
                0 <= j < k ==> (#[trigger] panes[j]).identity.pane_id@ != id),
    decreases i,
{
    if exists|j: int| 0 <= j < i && (#[trigger] panes[j]).identity.pane_id@ == id {
        let j = choose|j: int| 0 <= j < i && (#[trigger] panes[j]).identity.pane_id@ == id;
        lemma_min_source(panes, id, j);
    } else {
        assert(forall|j: int| 0 <= j < i ==> (#[trigger] panes[j]).identity.pane_id@ != id);
    }
}

/// The source pane is the first listed pane with the invocation's pane id, and there is
/// none exactly when no listed pane has that id.
pub proof fn lemma_source_index(panes: Seq<Pane>, id: Seq<char>)
    ensures
        source_index(panes, id) matches Some(k) ==> {
            &&& 0 <= k < panes.len()
            &&& panes[k].identity.pane_id@ == id
            &&& forall|j: int| 0 <= j < k ==> (#[trigger] panes[j]).identity.pane_id@ != id
        },
        source_index(panes, id) is None ==> forall|j: int|
            0 <= j < panes.len() ==> (#[trigger] panes[j]).identity.pane_id@ != id,
{
    if exists|i: int| 0 <= i < panes.len() && (#[trigger] panes[i]).identity.pane_id@ == id {
        let i = choose|i: int| 0 <= i < panes.len() && (#[trigger] panes[i]).identity.pane_id@ == id;
        lemma_min_source(panes, id, i);
    }
}

/// The path of session `id` in OpenCode's API.
pub open spec fn session_path(id: Seq<char>) -> Seq<char> {
    SESSION_PATH@ + id
}

/// The request forking operation `p`'s parent in its directory.
pub open spec fn forks_parent(p: Pending, command: ApiCommand) -> bool {
    is_api_command(p.connection, command, p.cwd@, METHOD_POST@, session_path(p.parent_id@) + FORK_SUFFIX@, true)
}

/// The side pane is `side` for fork `session` of operation `i`: record it, then wait.
pub open spec fn attach_spec(c: Ctx, i: int, session: String, side: PaneRef, m2: Workflow, a: Action) -> bool {
    let c2 = with_stage(c, i, Stage::Opening { session_id: session, side: Some(side) });
    becomes(c2, m2, Phase::SavingSide { index: i as usize, session, side }) && saves(c2, a)
}

/// Operation `i` has fork `session`, shown in `side` if any: reuse that pane, or record
/// the intent to open one, unless an earlier launch has no known outcome.
pub open spec fn place_spec(
    c: Ctx,
    i: int,
    session: String,
    side: Option<PaneRef>,
    uncertain: bool,
    m2: Workflow,
    a: Action,
) -> bool {
    match side {
        Some(s) => attach_spec(c, i, session, s, m2, a),
        None => if uncertain && !c.setup.retry_launch {
            ends(c, m2, a, SidebarError::LaunchOutcomeUnknown { session })
        } else {
            let c2 = with_stage(c, i, Stage::Opening { session_id: session, side: None });
            becomes(c2, m2, Phase::SavingLaunchIntent { index: i as usize, session }) && saves(c2, a)
        },
    }
}

/// The pane that displays `session`, when exactly one does.
pub open spec fn single_pane(panes: Seq<Pane>, session: Seq<char>) -> Option<PaneRef> {
    if panes_showing(panes, session).len() == 1 {
        Some(panes_showing(panes, session)[0].identity)
    } else {
        None
    }
}

/// Show the fork of operation `i`: refused while the fork's outcome is unknown; otherwise
/// the recorded side pane if it is still live, else the one pane displaying the fork.
pub open spec fn launch_spec(c: Ctx, i: int, m2: Workflow, a: Action) -> bool {
    match c.pending[i].stage {
        Stage::Forking => ends(c, m2, a, SidebarError::ForkOutcomeUnknown),
        Stage::Forked { session_id } => if panes_showing(c.panes, session_id@).len() > 1 {
            ends(c, m2, a, SidebarError::MultiplePanes { session: session_id })
        } else {
            place_spec(c, i, session_id, single_pane(c.panes, session_id@), false, m2, a)
        },
        Stage::Opening { session_id, side } => if panes_showing(c.panes, session_id@).len() > 1 {
            ends(c, m2, a, SidebarError::MultiplePanes { session: session_id })
        } else {
            let found = single_pane(c.panes, session_id@);
            let kept = match side {
                Some(s) => if is_live(live_panes(c.panes), s) {
                    Some(s)
                } else {
                    found
                },
                None => found,
            };
            place_spec(c, i, session_id, kept, side is None, m2, a)
        },
    }
}

/// Continue operation `i`: an explicit retry of the fork, an explicit recovery with a known
/// fork, or showing the fork.
pub open spec fn resume_spec(c: Ctx, i: int, m2: Workflow, a: Action) -> bool {
    let p = c.pending[i];
    if c.setup.retry_fork && c.setup.recover_session is Some {
        ends(c, m2, a, SidebarError::ConflictingRecovery)
    } else if c.setup.retry_fork {
        if !(p.stage is Forking) {
            ends(c, m2, a, SidebarError::ForkAlreadyRecorded)
        } else if !is_session_id(p.parent_id@) {
            ends(
                c,
                m2,
                a,
                SidebarError::RetriedForkUnconfirmed { cause: Box::new(SidebarError::InvalidSessionId) },
            )
        } else {
            &&& becomes(c, m2, Phase::RetryingFork { index: i as usize })
            &&& a matches Action::Request { command, reply: Reply::Fork } && forks_parent(p, command)
        }
    } else if c.setup.recover_session is Some {
        let id = c.setup.recover_session->0;
        if !(p.stage is Forking) {
            ends(c, m2, a, SidebarError::ForkAlreadyRecorded)
        } else if !is_session_id(id@) {
            ends(c, m2, a, SidebarError::InvalidSessionId)
        } else {
            &&& becomes(c, m2, Phase::Recovering { index: i as usize, session: id })
            &&& a matches Action::Request { command, reply: Reply::Session } && is_api_command(
                p.connection,
                command,
                p.cwd@,
                METHOD_GET@,
                session_path(id@),
                false,
            )
        }
    } else {
        launch_spec(c, i, m2, a)
    }
}

/// The panes are listed: find the source pane, reuse its live mapping, continue its
/// operation in progress, or start a new one from its OpenCode session.
pub open spec fn panes_spec(c: Ctx, panes: Seq<Pane>, m2: Workflow, a: Action) -> bool {
    match source_index(panes, c.setup.pane@) {
        None => ends(c, m2, a, SidebarError::SourcePaneGone),
        Some(k) => {
            let src = panes[k].identity;
            let links = c.links.filter(keep_pred(c.setup.socket@, live_panes(panes)));
            let c1 = Ctx { panes, links, ..c };
            match reused_link(links, c.setup.socket@, src) {
                Some(l) => becomes(c1, m2, Phase::FocusingExisting { link: l }) && a
                    == Action::Focus { pane: l.side.pane_id },
                None => match first_pending(c.pending, c.setup.socket@, src) {
                    Some(i) => resume_spec(c1, i, m2, a),
                    None => if c.setup.recover_session is Some || c.setup.retry_launch
                        || c.setup.retry_fork {
                        ends(c1, m2, a, SidebarError::NothingToRecover)
                    } else if !runs_opencode(panes[k]) {
                        ends(c1, m2, a, SidebarError::NotOpenCode)
                    } else {
                        match reported_session(panes[k]) {
                            None => ends(c1, m2, a, SidebarError::NoSessionId),
                            Some(parent) => {
                                &&& ctx_of(m2) == c1
                                &&& m2.phase matches Phase::AwaitProcesses { parent: p2, source }
                                    && p2@ == parent && source == src
                                &&& a == Action::ListProcesses { pane: c.setup.pane }
                            },
                        }
                    },
                },
            }
        },
    }
}

/// Every transition of the workflow: from `m`, event `e` leads to `m2` and action `a`.
pub open spec fn transition(m: Workflow, e: Event, m2: Workflow, a: Action) -> bool {
    let c = ctx_of(m);
    match m.phase {
        Phase::AwaitStore => match e {
            Event::StoreLoaded { state } => {
                let c1 = Ctx {
                    links: state.links@,
                    pending: state.pending@,
                    version: state.version,
                    durable: Record { links: state.links@, pending: state.pending@ },
                    ..c
                };
                becomes(c1, m2, Phase::AwaitPanes) && a == Action::ListPanes
            },
            _ => otherwise(c, e, m2, a),
        },
        Phase::AwaitPanes => match e {
            Event::Panes { panes } => panes_spec(c, panes@, m2, a),
            _ => otherwise(c, e, m2, a),
        },
        Phase::FocusingExisting { link } => match e {
            Event::Completed => becomes(c, m2, Phase::SavingBeforeFocus { link }) && saves(c, a),
            _ => otherwise(c, e, m2, a),
        },
        Phase::SavingBeforeFocus { link } => match e {
            Event::Completed => becomes(saved(c), m2, Phase::Finished) && a == Action::Finish {
                outcome: Outcome { action: FOCUSED, pane_id: link.side.pane_id, session_id: link.session_id },
            },
            _ => otherwise(c, e, m2, a),
        },
        Phase::AwaitProcesses { parent, source } => match e {
            Event::Processes { processes } => match crate::opencode::discovered(processes@) {
                Err(err) => ends(c, m2, a, err),
                Ok(view) => if !is_session_id(parent@) {
                    ends(c, m2, a, SidebarError::InvalidSessionId)
                } else {
                    &&& ctx_of(m2) == c
                    &&& m2.phase is AwaitParent
                    &&& m2.phase->AwaitParent_parent == parent
                    &&& m2.phase->AwaitParent_source == source
                    &&& crate::opencode::connection_view(m2.phase->AwaitParent_connection) == view
                    &&& a is Request
                    &&& a->reply is Session
                    &&& is_api_command(
                        m2.phase->AwaitParent_connection,
                        a->command,
                        seq!['.'],
                        METHOD_GET@,
                        session_path(parent@),
                        false,
                    )
                },
            },
            _ => otherwise(c, e, m2, a),
        },
        Phase::AwaitParent { parent, source, connection } => match e {
            Event::SessionReply { session } => if session.id@ != parent@ {
                ends(c, m2, a, SidebarError::DifferentSession)
            } else {
                let cwd = session.location.directory;
                &&& becomes(c, m2, Phase::AwaitHistory { parent, source, connection, cwd })
                &&& a matches Action::Request { command, reply: Reply::History } && is_api_command(
                    connection,
                    command,
                    cwd@,
                    METHOD_GET@,
                    session_path(parent@) + HISTORY_SUFFIX@,
                    false,
                )
            },
            _ => otherwise(c, e, m2, a),
        },
        Phase::AwaitHistory { parent, source, connection, cwd } => match e {
            Event::HistoryReply { messages } => if messages == 0 {
                ends(c, m2, a, SidebarError::EmptyConversation)
            } else {
                let p = Pending {
                    socket: c.setup.socket,
                    source,
                    parent_id: parent,
                    connection,
                    cwd,
                    stage: Stage::Forking,
                };
                let c2 = Ctx { pending: c.pending.push(p), ..c };
                becomes(c2, m2, Phase::SavingIntent { index: c.pending.len() as usize }) && saves(c2, a)
            },
            _ => otherwise(c, e, m2, a),
        },
        Phase::SavingIntent { index } => match e {
            Event::Completed => {
                let p = c.pending[index as int];
                if !is_session_id(p.parent_id@) {
                    ends(
                        saved(c),
                        m2,
                        a,
                        SidebarError::ForkUnconfirmed { cause: Box::new(SidebarError::InvalidSessionId) },
                    )
                } else {
                    &&& becomes(saved(c), m2, Phase::Forking { index })
                    &&& a matches Action::Request { command, reply: Reply::Fork } && forks_parent(p, command)
                }
            },
            _ => otherwise(c, e, m2, a),
        },
        Phase::Forking { index } => match e {
            Event::SessionReply { session } => {
                let p = c.pending[index as int];
                if !is_session_id(session.id@) {
                    ends(
                        c,
                        m2,
                        a,
                        SidebarError::ForkUnconfirmed { cause: Box::new(SidebarError::InvalidSessionId) },
                    )
                } else if !crate::opencode::is_fork_of(session, p.parent_id@) {
                    ends(
                        c,
                        m2,
                        a,
                        SidebarError::ForkUnconfirmed {
                            cause: Box::new(SidebarError::NotAFork { parent: p.parent_id }),
                        },
                    )
                } else {
                    let c2 = with_stage(c, index as int, Stage::Forked { session_id: session.id });
                    becomes(c2, m2, Phase::SavingFork { index, fork: session.id }) && saves(c2, a)
                }
            },
            Event::Failed { reason } => ends(
                c,
                m2,
                a,
                SidebarError::ForkUnconfirmed { cause: Box::new(SidebarError::External { reason }) },
            ),
            _ => otherwise(c, e, m2, a),
        },
        Phase::SavingFork { index, fork } => match e {
            Event::Completed => resume_spec(saved(c), index as int, m2, a),
            Event::Failed { reason } => ends(
                c,
                m2,
                a,
                SidebarError::ForkNotSaved { fork, cause: Box::new(SidebarError::External { reason }) },
            ),
            _ => otherwise(c, e, m2, a),
        },
        Phase::RetryingFork { index } => match e {
            Event::SessionReply { session } => {
                let p = c.pending[index as int];
                if !is_session_id(session.id@) {
                    ends(
                        c,
                        m2,
                        a,
                        SidebarError::RetriedForkUnconfirmed {
                            cause: Box::new(SidebarError::InvalidSessionId),
                        },
                    )
                } else if !crate::opencode::is_fork_of(session, p.parent_id@) {
                    ends(
                        c,
                        m2,
                        a,
                        SidebarError::RetriedForkUnconfirmed {
                            cause: Box::new(SidebarError::NotAFork { parent: p.parent_id }),
                        },
                    )
                } else {
                    let c2 = with_stage(c, index as int, Stage::Forked { session_id: session.id });
                    becomes(c2, m2, Phase::SavingRetriedFork { index }) && saves(c2, a)
                }
            },
            Event::Failed { reason } => ends(
                c,
                m2,
                a,
                SidebarError::RetriedForkUnconfirmed {
                    cause: Box::new(SidebarError::External { reason }),
                },
            ),
            _ => otherwise(c, e, m2, a),
        },
        Phase::SavingRetriedFork { index } => match e {
            Event::Completed => launch_spec(saved(c), index as int, m2, a),
            _ => otherwise(c, e, m2, a),
        },
        Phase::Recovering { index, session: id } => match e {
            Event::SessionReply { session } => {
                let p = c.pending[index as int];
                if session.id@ != id@ {
                    ends(c, m2, a, SidebarError::DifferentSession)
                } else if !crate::opencode::is_fork_of(session, p.parent_id@) {
                    ends(c, m2, a, SidebarError::RecoveryNotAFork { parent: p.parent_id })
                } else if session.location.directory@ != p.cwd@ {
                    ends(c, m2, a, SidebarError::RecoveryDirectoryDiffers)
                } else {
                    let c2 = with_stage(c, index as int, Stage::Forked { session_id: id });
                    becomes(c2, m2, Phase::SavingRecovery { index }) && saves(c2, a)
                }
            },
            _ => otherwise(c, e, m2, a),
        },
        Phase::SavingRecovery { index } => match e {
            Event::Completed => launch_spec(saved(c), index as int, m2, a),
            _ => otherwise(c, e, m2, a),
        },
        Phase::SavingLaunchIntent { index, session } => match e {
            Event::Completed => {
                let p = c.pending[index as int];
                &&& becomes(saved(c), m2, Phase::Launching { index, session })
                &&& a matches Action::OpenPane { args } && texts(args@) == spec_open_args(
                    c.setup.pane@,
                    p.cwd@,
                    session@,
                    p.connection,
                )
            },
            _ => otherwise(c, e, m2, a),
        },
        Phase::Launching { index, session } => match e {
            Event::PaneOpened { pane } => attach_spec(c, index as int, session, pane, m2, a),
            Event::Failed { reason } => ends(
                c,
                m2,
                a,
                SidebarError::LaunchFailed { session, cause: Box::new(SidebarError::External { reason }) },
            ),
            _ => otherwise(c, e, m2, a),
        },
        Phase::SavingSide { index, session, side } => match e {
            Event::Completed => becomes(saved(c), m2, Phase::AwaitReady { index, session, side }) && a
                == Action::WaitReady { side, session },
            _ => otherwise(c, e, m2, a),
        },
        Phase::AwaitReady { index, session, side } => match e {
            Event::Completed => {
                let p = c.pending[index as int];
                let link = Link { socket: c.setup.socket, source: p.source, side, session_id: session };
                let c2 = Ctx { links: c.links.push(link), pending: c.pending.remove(index as int), ..c };
                becomes(c2, m2, Phase::SavingLink { side, session }) && saves(c2, a)
            },
            Event::Failed { reason } => ends(
                c,
                m2,
                a,
                SidebarError::NotAttached {
                    pane: side.pane_id,
                    session,
                    cause: Box::new(SidebarError::External { reason }),
                },
            ),
            _ => otherwise(c, e, m2, a),
        },
        Phase::SavingLink { side, session } => match e {
            Event::Completed => becomes(saved(c), m2, Phase::FocusingSide { side, session }) && a
                == Action::Focus { pane: side.pane_id },
            _ => otherwise(c, e, m2, a),
        },
        Phase::FocusingSide { side, session } => match e {
            Event::Completed => becomes(c, m2, Phase::Finished) && a == Action::Finish {
                outcome: Outcome { action: CREATED, pane_id: side.pane_id, session_id: session },
            },
            _ => otherwise(c, e, m2, a),
        },
        Phase::Finished => ends(c, m2, a, SidebarError::UnexpectedEvent),
    }
}


/// The operation a phase works on.
pub open spec fn phase_index(ph: Phase) -> Option<int> {
    match ph {
        Phase::SavingIntent { index } => Some(index as int),
        Phase::Forking { index } => Some(index as int),
        Phase::SavingFork { index, .. } => Some(index as int),
        Phase::RetryingFork { index } => Some(index as int),
        Phase::SavingRetriedFork { index } => Some(index as int),
        Phase::Recovering { index, .. } => Some(index as int),
        Phase::SavingRecovery { index } => Some(index as int),
        Phase::SavingLaunchIntent { index, .. } => Some(index as int),
        Phase::Launching { index, .. } => Some(index as int),
        Phase::SavingSide { index, .. } => Some(index as int),
        Phase::AwaitReady { index, .. } => Some(index as int),
        _ => None,
    }
}

/// Whether the phase waits for a save, so that memory is ahead of the store.
pub open spec fn is_saving(ph: Phase) -> bool {
    ||| ph is SavingBeforeFocus
    ||| ph is SavingIntent
    ||| ph is SavingFork
    ||| ph is SavingRetriedFork
    ||| ph is SavingRecovery
    ||| ph is SavingLaunchIntent
    ||| ph is SavingSide
    ||| ph is SavingLink
}

/// The link that an invocation records when the side pane showed the fork.
pub open spec fn records_link(links: Seq<Link>, socket: Seq<char>, side: PaneRef, session: Seq<char>) -> bool {
    exists|i: int|
        0 <= i < links.len() && (#[trigger] links[i]).socket@ == socket && links[i].side == side
            && links[i].session_id@ == session
}

/// The workflow's invariant.
pub open spec fn wf(m: Workflow) -> bool {
    let pending = m.state.pending@;
    let socket = m.setup.socket@;
    &&& phase_index(m.phase) matches Some(i) ==> 0 <= i < pending.len()
    &&& !is_saving(m.phase) && !(m.phase is Finished) && !(m.phase is AwaitStore) ==> m.durable@.pending
        == pending
    &&& m.phase matches Phase::AwaitProcesses { source, .. } ==> first_pending(pending, socket, source) is None
    &&& m.phase matches Phase::AwaitParent { source, parent, .. } ==> first_pending(pending, socket, source) is None
        && is_session_id(parent@)
    &&& m.phase matches Phase::AwaitHistory { source, parent, .. } ==> first_pending(pending, socket, source)
        is None && is_session_id(parent@)
    &&& m.phase matches Phase::SavingIntent { index } ==> {
        &&& index as int == pending.len() - 1
        &&& pending[index as int].stage is Forking
        &&& pending[index as int].socket@ == socket
        &&& m.durable@.pending == pending.drop_last()
        &&& first_pending(m.durable@.pending, socket, pending[index as int].source) is None
    }
    &&& m.phase matches Phase::Forking { index } ==> pending[index as int].stage is Forking
    &&& m.phase matches Phase::RetryingFork { index } ==> pending[index as int].stage is Forking
    &&& m.phase matches Phase::SavingLaunchIntent { index, session } ==> pending[index as int].stage
        == Stage::Opening { session_id: session, side: None }
    &&& m.phase matches Phase::Launching { index, session } ==> pending[index as int].stage
        == Stage::Opening { session_id: session, side: None }
    &&& m.phase matches Phase::SavingLink { side, session } ==> records_link(m.state.links@, socket, side, session@)
    &&& m.phase matches Phase::FocusingSide { side, session } ==> records_link(m.durable@.links, socket, side, session@)
}

/// The operation at position `i` is the first one of its pane in the context's record, and
/// no mapping of this server in the context's record names that pane.
#[verifier::opaque]
pub open spec fn leads(c: Ctx, i: int) -> bool {
    &&& first_pending(c.pending, c.setup.socket@, c.pending[i].source) == Some(i)
    &&& reused_link(c.links, c.setup.socket@, c.pending[i].source) is None
    &&& listed_source(c, c.pending[i].source)
}

/// `p` is the pane the invocation runs for, as Herdr listed it: the first listed pane with
/// the invocation's pane id.
pub open spec fn listed_source(c: Ctx, p: PaneRef) -> bool {
    source_index(c.panes, c.setup.pane@) matches Some(k) && c.panes[k].identity.same(p)
}

/// The last of `links` maps this server's pane to side pane `side` and fork `session`, and
/// no earlier link of the server names that source pane, which is the pane the invocation
/// runs for.
#[verifier::opaque]
pub open spec fn ends_with_link(c: Ctx, links: Seq<Link>, side: PaneRef, session: String) -> bool {
    let last = links.last();
    &&& links.len() > 0
    &&& last.socket@ == c.setup.socket@
    &&& last.side == side
    &&& last.session_id == session
    &&& reused_link(links.drop_last(), c.setup.socket@, last.source) is None
    &&& listed_source(c, last.source)
}

/// The context's record holds an operation at position `i`, and it [`leads`].
pub open spec fn owns(c: Ctx, i: int) -> bool {
    &&& 0 <= i < c.pending.len()
    &&& leads(c, i)
}

/// What a workflow keeps from its start on, besides `wf`: the operation it works on is its
/// pane's first and its pane has no mapping; once an operation's fork or side pane was
/// saved, the stored mappings are those in memory; and a side pane being saved or awaited
/// is the one recorded for the operation.
pub open spec fn tracks(m: Workflow) -> bool {
    let c = ctx_of(m);
    let pending = m.state.pending@;
    let socket = m.setup.socket@;
    match m.phase {
        Phase::AwaitProcesses { source, .. } => reused_link(c.links, socket, source) is None
            && listed_source(c, source),
        Phase::AwaitParent { source, .. } => reused_link(c.links, socket, source) is None
            && listed_source(c, source),
        Phase::AwaitHistory { source, .. } => reused_link(c.links, socket, source) is None
            && listed_source(c, source),
        Phase::SavingIntent { index } => owns(c, index as int),
        Phase::Forking { index } => owns(c, index as int) && m.durable@.links == c.links,
        Phase::SavingFork { index, .. } => owns(c, index as int),
        Phase::RetryingFork { index } => owns(c, index as int),
        Phase::SavingRetriedFork { index } => owns(c, index as int),
        Phase::Recovering { index, .. } => owns(c, index as int),
        Phase::SavingRecovery { index } => owns(c, index as int),
        Phase::SavingLaunchIntent { index, .. } => owns(c, index as int),
        Phase::Launching { index, .. } => owns(c, index as int) && m.durable@.links == c.links,
        Phase::SavingSide { index, session, side } => owns(c, index as int) && pending[index as int].stage
            == (Stage::Opening { session_id: session, side: Some(side) }),
        Phase::AwaitReady { index, session, side } => owns(c, index as int) && m.durable@.links == c.links
            && pending[index as int].stage == (Stage::Opening { session_id: session, side: Some(side) }),
        Phase::SavingLink { side, session } => ends_with_link(c, c.links, side, session),
        Phase::FocusingSide { side, session } => ends_with_link(c, m.durable@.links, side, session),
        _ => true,
    }
}

/// Recording a stage for the operation it works on keeps what `owns` says of it.
proof fn lemma_owns_stage(c: Ctx, i: int, stage: Stage)
    requires
        owns(c, i),
    ensures
        owns(with_stage(c, i, stage), i),
{
    reveal(leads);
    crate::state::lemma_first_pending_stage(c.pending, i, stage, c.setup.socket@, c.pending[i].source);
}

/// Confirming a save keeps what `owns` says.
proof fn lemma_owns_saved(c: Ctx, i: int)
    requires
        owns(c, i),
    ensures
        owns(saved(c), i),
{
    reveal(leads);
}

/// Whatever placing the fork of an operation it owns leads to, `tracks` holds.
proof fn lemma_place_tracks(
    c: Ctx,
    i: int,
    session: String,
    side: Option<PaneRef>,
    uncertain: bool,
    m2: Workflow,
    a: Action,
)
    requires
        owns(c, i),
        place_spec(c, i, session, side, uncertain, m2, a),
    ensures
        tracks(m2),
{
    assert(m2.state.pending.len() == m2.state.pending@.len());
    match side {
        Some(s) => {
            let c2 = with_stage(c, i, Stage::Opening { session_id: session, side: Some(s) });
            lemma_owns_stage(c, i, Stage::Opening { session_id: session, side: Some(s) });
            assert(ctx_of(m2) == c2);
            assert(m2.phase == Phase::SavingSide { index: i as usize, session, side: s });
            assert((i as usize) as int == i);
            assert(owns(ctx_of(m2), i));
        },
        None => {
            if !(uncertain && !c.setup.retry_launch) {
                let c2 = with_stage(c, i, Stage::Opening { session_id: session, side: None });
                lemma_owns_stage(c, i, Stage::Opening { session_id: session, side: None });
                assert(ctx_of(m2) == c2);
                assert((i as usize) as int == i);
                assert(owns(ctx_of(m2), i));
            } else {
                assert(m2.phase is Finished);
            }
        },
    }
}

/// Whatever showing the fork of an operation it owns leads to, `tracks` holds.
proof fn lemma_launch_tracks(c: Ctx, i: int, m2: Workflow, a: Action)
    requires
        owns(c, i),
        launch_spec(c, i, m2, a),
    ensures
        tracks(m2),
{
    match c.pending[i].stage {
        Stage::Forking => {},
        Stage::Forked { session_id } => {
            if panes_showing(c.panes, session_id@).len() <= 1 {
                lemma_place_tracks(c, i, session_id, single_pane(c.panes, session_id@), false, m2, a);
            }
        },
        Stage::Opening { session_id, side } => {
            if panes_showing(c.panes, session_id@).len() <= 1 {
                let found = single_pane(c.panes, session_id@);
                let kept = match side {
                    Some(s) => if is_live(live_panes(c.panes), s) {
                        Some(s)
                    } else {
                        found
                    },
                    None => found,
                };
                lemma_place_tracks(c, i, session_id, kept, side is None, m2, a);
            }
        },
    }
}

/// Whatever continuing an operation it owns leads to, `tracks` holds.
proof fn lemma_resume_tracks(c: Ctx, i: int, m2: Workflow, a: Action)
    requires
        owns(c, i),
        resume_spec(c, i, m2, a),
    ensures
        tracks(m2),
{
    assert(m2.state.pending.len() == m2.state.pending@.len());
    if !(c.setup.retry_fork || c.setup.recover_session is Some) {
        lemma_launch_tracks(c, i, m2, a);
    }
}

/// Listing the panes keeps `tracks`.
proof fn lemma_panes_tracks(m: Workflow, panes: Vec<Pane>, m2: Workflow, a: Action)
    requires
        m.phase is AwaitPanes,
        transition(m, Event::Panes { panes }, m2, a),
    ensures
        tracks(m2),
{
    let c = ctx_of(m);
    let socket = m.setup.socket@;
    assert(m2.state.pending.len() == m2.state.pending@.len());
    if let Some(k) = source_index(panes@, m.setup.pane@) {
        let src = panes@[k].identity;
        let links = c.links.filter(keep_pred(socket, live_panes(panes@)));
        let c1 = Ctx { panes: panes@, links, ..c };
        assert(listed_source(c1, src));
        if reused_link(links, socket, src) is None {
            if let Some(i) = first_pending(c.pending, socket, src) {
                crate::state::lemma_first_pending(c.pending, socket, src);
                let p = c.pending[i];
                assert forall|j: int| 0 <= j < c.pending.len() implies crate::state::pending_matches(
                    #[trigger] c.pending[j],
                    socket,
                    src,
                ) == crate::state::pending_matches(c.pending[j], socket, p.source) by {}
                crate::state::lemma_first_pending_agree(c.pending, c.pending, socket, src, p.source);
                crate::state::lemma_first_link_same(links, 0, socket, src, p.source, true);
                crate::state::lemma_first_link_same(links, 0, socket, src, p.source, false);
                assert(listed_source(c1, p.source));
                assert(owns(c1, i)) by {
                    reveal(leads);
                }
                lemma_resume_tracks(c1, i, m2, a);
            }
        }
    }
}

/// Recording the intent to fork keeps `tracks`.
proof fn lemma_history_tracks(m: Workflow, e: Event, m2: Workflow, a: Action)
    requires
        m.phase is AwaitHistory,
        e is HistoryReply,
        wf(m),
        tracks(m),
        transition(m, e, m2, a),
    ensures
        tracks(m2),
{
    let c = ctx_of(m);
    let socket = m.setup.socket@;
    assert(m2.state.pending.len() == m2.state.pending@.len());
    if let Phase::AwaitHistory { parent, source, connection, cwd } = m.phase {
        if let Event::HistoryReply { messages } = e {
            if messages != 0 {
                let p = Pending {
                    socket: c.setup.socket,
                    source,
                    parent_id: parent,
                    connection,
                    cwd,
                    stage: Stage::Forking,
                };
                crate::state::lemma_first_pending_push(c.pending, socket, p);
                assert(c.pending.push(p)[c.pending.len() as int] == p);
                let c2 = Ctx { pending: c.pending.push(p), ..c };
                assert(listed_source(c2, source));
                assert(owns(c2, c.pending.len() as int)) by {
                    reveal(leads);
                }
            }
        }
    }
}

/// Recording the mapping once the side pane attached keeps `tracks`.
proof fn lemma_ready_tracks(m: Workflow, m2: Workflow, a: Action)
    requires
        m.phase is AwaitReady,
        tracks(m),
        transition(m, Event::Completed, m2, a),
    ensures
        tracks(m2),
{
    let c = ctx_of(m);
    if let Phase::AwaitReady { index, session, side } = m.phase {
        reveal(leads);
        reveal(ends_with_link);
        let p = c.pending[index as int];
        let link = Link { socket: c.setup.socket, source: p.source, side, session_id: session };
        let links = c.links.push(link);
        assert(links.drop_last() =~= c.links);
        let c2 = Ctx { links, pending: c.pending.remove(index as int), ..c };
        assert(listed_source(c2, p.source));
        assert(ends_with_link(c2, links, side, session));
    }
}

/// Every step keeps `tracks`.
pub proof fn lemma_step_tracks(m: Workflow, e: Event, m2: Workflow, a: Action)
    requires
        wf(m),
        tracks(m),
        transition(m, e, m2, a),
    ensures
        tracks(m2),
{
    let c = ctx_of(m);
    let socket = m.setup.socket@;
    assert(m2.state.pending.len() == m2.state.pending@.len());
    if let Some(i) = phase_index(m.phase) {
        lemma_owns_saved(c, i);
    }
    match m.phase {
        Phase::AwaitPanes => {
            if let Event::Panes { panes } = e {
                lemma_panes_tracks(m, panes, m2, a);
            }
        },
        Phase::AwaitHistory { .. } => {
            if e is HistoryReply {
                lemma_history_tracks(m, e, m2, a);
            }
        },
        Phase::Forking { index } => {
            if let Event::SessionReply { session } = e {
                lemma_owns_stage(c, index as int, Stage::Forked { session_id: session.id });
            }
        },
        Phase::SavingFork { index, .. } => {
            if e is Completed {
                lemma_resume_tracks(saved(c), index as int, m2, a);
            }
        },
        Phase::RetryingFork { index } => {
            if let Event::SessionReply { session } = e {
                lemma_owns_stage(c, index as int, Stage::Forked { session_id: session.id });
            }
        },
        Phase::SavingRetriedFork { index } => {
            if e is Completed {
                lemma_launch_tracks(saved(c), index as int, m2, a);
            }
        },
        Phase::Recovering { index, session: id } => {
            if let Event::SessionReply { session } = e {
                lemma_owns_stage(c, index as int, Stage::Forked { session_id: id });
            }
        },
        Phase::SavingRecovery { index } => {
            if e is Completed {
                lemma_launch_tracks(saved(c), index as int, m2, a);
            }
        },
        Phase::Launching { index, session } => {
            if let Event::PaneOpened { pane } = e {
                lemma_owns_stage(c, index as int, Stage::Opening { session_id: session, side: Some(pane) });
            }
        },
        Phase::AwaitReady { .. } => {
            if e is Completed {
                lemma_ready_tracks(m, m2, a);
            }
        },
        Phase::SavingLink { side, session } => {
            if e is Completed {
                reveal(ends_with_link);
            }
        },
        _ => {},
    }
}

impl Workflow {
    /// A workflow for pane `pane` of Herdr server `socket`, with the command's options; its
    /// first action locks the store.
    pub fn start(socket: String, pane: String, options: &Options) -> (r: (Workflow, Action))
        ensures
            r.0.phase == Phase::AwaitStore,
            r.1 == Action::AcquireStore,
            wf(r.0),
            r.0.setup.socket == socket,
            r.0.setup.pane == pane,
            r.0.setup.recover_session == options.recover_session,
            r.0.setup.retry_launch == options.retry_launch,
            r.0.setup.retry_fork == options.retry_fork,
            tracks(r.0),
    {
        let setup = Setup {
            socket,
            pane,
            recover_session: crate::text::copy_opt(&options.recover_session),
            retry_launch: options.retry_launch,
            retry_fork: options.retry_fork,
        };
        let state = State { version: crate::state::CURRENT_VERSION, links: Vec::new(), pending: Vec::new() };
        let w = Workflow {
            setup,
            phase: Phase::AwaitStore,
            state,
            panes: Vec::new(),
            durable: Ghost(Record { links: Seq::empty(), pending: Seq::empty() }),
        };
        (w, Action::AcquireStore)
    }

    fn fail(&mut self, error: SidebarError) -> (a: Action)
        ensures
            ends(ctx_of(*old(self)), *final(self), a, error),
    {
        self.phase = Phase::Finished;
        Action::Fail { error }
    }

    fn save(&self) -> (a: Action)
        ensures
            saves(ctx_of(*self), a),
    {
        Action::Save { state: self.state.copy() }
    }

    fn confirm_saved(&mut self)
        ensures
            ctx_of(*final(self)) == saved(ctx_of(*old(self))),
            final(self).phase == old(self).phase,
    {
        self.durable = Ghost(Record { links: self.state.links@, pending: self.state.pending@ });
    }

    fn unexpected(&mut self, event: Event) -> (a: Action)
        ensures
            otherwise(ctx_of(*old(self)), event, *final(self), a),
    {
        match event {
            Event::Failed { reason } => self.fail(SidebarError::External { reason }),
            _ => self.fail(SidebarError::UnexpectedEvent),
        }
    }
}


impl Workflow {
    /// Whether some listed pane is `p`.
    fn pane_live(&self, p: &PaneRef) -> (r: bool)
        ensures
            r == is_live(live_panes(self.panes@), *p),
    {
        let mut i: usize = 0;
        while i < self.panes.len()
            invariant
                i <= self.panes.len(),
                forall|k: int| 0 <= k < i ==> !(#[trigger] self.panes@[k]).identity.same(*p),
            decreases self.panes.len() - i,
        {
            if self.panes[i].identity.same_pane(p) {
                assert(live_panes(self.panes@)[i as int] == self.panes@[i as int].identity);
                return true;
            }
            i = i + 1;
        }
        assert forall|k: int| 0 <= k < live_panes(self.panes@).len() implies !(#[trigger] live_panes(
            self.panes@,
        )[k]).same(*p) by {
            assert(live_panes(self.panes@)[k] == self.panes@[k].identity);
        }
        false
    }

    fn attach(&mut self, index: usize, session: String, side: PaneRef) -> (a: Action)
        requires
            index < old(self).state.pending@.len(),
            old(self).durable@.pending == old(self).state.pending@,
        ensures
            attach_spec(ctx_of(*old(self)), index as int, session, side, *final(self), a),
            wf(*final(self)),
    {
        self.state.set_stage(index, Stage::Opening { session_id: session.clone(), side: Some(side.copy()) });
        let a = self.save();
        self.phase = Phase::SavingSide { index, session, side };
        a
    }

    fn place(&mut self, index: usize, session: String, side: Option<PaneRef>, uncertain: bool) -> (a: Action)
        requires
            index < old(self).state.pending@.len(),
            old(self).durable@.pending == old(self).state.pending@,
        ensures
            place_spec(ctx_of(*old(self)), index as int, session, side, uncertain, *final(self), a),
            wf(*final(self)),
    {
        match side {
            Some(s) => self.attach(index, session, s),
            None => {
                if uncertain && !self.setup.retry_launch {
                    return self.fail(SidebarError::LaunchOutcomeUnknown { session });
                }
                self.state.set_stage(index, Stage::Opening { session_id: session.clone(), side: None });
                let a = self.save();
                self.phase = Phase::SavingLaunchIntent { index, session };
                a
            },
        }
    }

    fn launch(&mut self, index: usize) -> (a: Action)
        requires
            index < old(self).state.pending@.len(),
            old(self).durable@.pending == old(self).state.pending@,
        ensures
            launch_spec(ctx_of(*old(self)), index as int, *final(self), a),
            wf(*final(self)),
    {
        let stage = self.state.pending[index].stage.copy();
        match stage {
            Stage::Forking => self.fail(SidebarError::ForkOutcomeUnknown),
            Stage::Forked { session_id } => match matching(self.panes.as_slice(), &session_id) {
                Err(e) => self.fail(e),
                Ok(found) => self.place(index, session_id, found, false),
            },
            Stage::Opening { session_id, side } => match matching(self.panes.as_slice(), &session_id) {
                Err(e) => self.fail(e),
                Ok(found) => {
                    let uncertain = side.is_none();
                    let kept = match side {
                        Some(s) => if self.pane_live(&s) {
                            Some(s)
                        } else {
                            found
                        },
                        None => found,
                    };
                    self.place(index, session_id, kept, uncertain)
                },
            },
        }
    }

    fn resume(&mut self, index: usize) -> (a: Action)
        requires
            index < old(self).state.pending@.len(),
            old(self).durable@.pending == old(self).state.pending@,
        ensures
            resume_spec(ctx_of(*old(self)), index as int, *final(self), a),
            wf(*final(self)),
    {
        if self.setup.retry_fork && self.setup.recover_session.is_some() {
            return self.fail(SidebarError::ConflictingRecovery);
        }
        let forking = match &self.state.pending[index].stage {
            Stage::Forking => true,
            _ => false,
        };
        if self.setup.retry_fork {
            if !forking {
                return self.fail(SidebarError::ForkAlreadyRecorded);
            }
            let request = {
                let p = &self.state.pending[index];
                p.connection.fork_request(p.parent_id.as_str(), p.cwd.as_str())
            };
            match request {
                Err(e) => self.fail(SidebarError::RetriedForkUnconfirmed { cause: Box::new(e) }),
                Ok(command) => {
                    self.phase = Phase::RetryingFork { index };
                    Action::Request { command, reply: Reply::Fork }
                },
            }
        } else {
            match crate::text::copy_opt(&self.setup.recover_session) {
                Some(id) => {
                    if !forking {
                        return self.fail(SidebarError::ForkAlreadyRecorded);
                    }
                    let request = {
                        let p = &self.state.pending[index];
                        p.connection.get_request(id.as_str(), p.cwd.as_str())
                    };
                    match request {
                        Err(e) => self.fail(e),
                        Ok(command) => {
                            self.phase = Phase::Recovering { index, session: id };
                            Action::Request { command, reply: Reply::Session }
                        },
                    }
                },
                None => self.launch(index),
            }
        }
    }

    /// Continues with the source pane, the `k`-th listed pane, once the links are pruned.
    fn with_source(&mut self, k: usize, src: PaneRef, found: Option<Link>) -> (a: Action)
        requires
            k < old(self).panes@.len(),
            src == old(self).panes@[k as int].identity,
            found == reused_link(old(self).state.links@, old(self).setup.socket@, src),
            old(self).durable@.pending == old(self).state.pending@,
        ensures
            ({
                let c1 = ctx_of(*old(self));
                match found {
                    Some(l) => becomes(c1, *final(self), Phase::FocusingExisting { link: l }) && a
                        == Action::Focus { pane: l.side.pane_id },
                    None => match first_pending(c1.pending, c1.setup.socket@, src) {
                        Some(i) => resume_spec(c1, i, *final(self), a),
                        None => if c1.setup.recover_session is Some || c1.setup.retry_launch
                            || c1.setup.retry_fork {
                            ends(c1, *final(self), a, SidebarError::NothingToRecover)
                        } else if !runs_opencode(c1.panes[k as int]) {
                            ends(c1, *final(self), a, SidebarError::NotOpenCode)
                        } else {
                            match reported_session(c1.panes[k as int]) {
                                None => ends(c1, *final(self), a, SidebarError::NoSessionId),
                                Some(parent) => {
                                    &&& ctx_of(*final(self)) == c1
                                    &&& final(self).phase matches Phase::AwaitProcesses { parent: p2, source }
                                        && p2@ == parent && source == src
                                    &&& a == Action::ListProcesses { pane: c1.setup.pane }
                                },
                            }
                        },
                    },
                }
            }),
            wf(*final(self)),
    {
        match found {
            Some(link) => {
                let pane = link.side.pane_id.clone();
                self.phase = Phase::FocusingExisting { link };
                Action::Focus { pane }
            },
            None => match self.state.pending_position(self.setup.socket.as_str(), &src) {
                Some(index) => self.resume(index),
                None => {
                    if self.setup.recover_session.is_some() || self.setup.retry_launch
                        || self.setup.retry_fork {
                        return self.fail(SidebarError::NothingToRecover);
                    }
                    if !self.panes[k].is_opencode() {
                        return self.fail(SidebarError::NotOpenCode);
                    }
                    let parent = match self.panes[k].session() {
                        Some(s) => owned(s),
                        None => {
                            return self.fail(SidebarError::NoSessionId);
                        },
                    };
                    self.phase = Phase::AwaitProcesses { parent, source: src };
                    Action::ListProcesses { pane: self.setup.pane.clone() }
                },
            },
        }
    }

    fn on_panes(&mut self, panes: Vec<Pane>) -> (a: Action)
        requires
            old(self).durable@.pending == old(self).state.pending@,
        ensures
            panes_spec(ctx_of(*old(self)), panes@, *final(self), a),
            wf(*final(self)),
    {
        match find_source(&panes, self.setup.pane.as_str()) {
            None => self.fail(SidebarError::SourcePaneGone),
            Some(k) => {
                let src = panes[k].identity.copy();
                let live = identities(&panes);
                self.panes = panes;
                let found = self.state.existing(self.setup.socket.as_str(), &src, live.as_slice());
                self.with_source(k, src, found)
            },
        }
    }
}

/// The position of the first pane whose pane id is `id`.
fn find_source(panes: &Vec<Pane>, id: &str) -> (r: Option<usize>)
    ensures
        match r {
            Some(k) => k < panes@.len() && source_index(panes@, id@) == Some(k as int),
            None => source_index(panes@, id@) is None,
        },
{
    let mut k: usize = 0;
    while k < panes.len()
        invariant
            k <= panes.len(),
            forall|j: int| 0 <= j < k ==> (#[trigger] panes@[j]).identity.pane_id@ != id@,
        decreases panes.len() - k,
    {
        if same_text(panes[k].identity.pane_id.as_str(), id) {
            proof {
                let ghost ps = panes@;
                let j = choose|i: int|
                    0 <= i < ps.len() && (#[trigger] ps[i]).identity.pane_id@ == id@ && (forall|j: int|
                        0 <= j < i ==> (#[trigger] ps[j]).identity.pane_id@ != id@);
                if j < k {
                } else if j > k {
                    assert(ps[k as int].identity.pane_id@ != id@);
                }
            }
            return Some(k);
        }
        k = k + 1;
    }
    None
}

/// The identities of the listed panes.
fn identities(panes: &Vec<Pane>) -> (live: Vec<PaneRef>)
    ensures
        live@ == live_panes(panes@),
{
    let mut live: Vec<PaneRef> = Vec::new();
    let mut i: usize = 0;
    while i < panes.len()
        invariant
            i <= panes.len(),
            live@ == live_panes(panes@).take(i as int),
        decreases panes.len() - i,
    {
        live.push(panes[i].identity.copy());
        assert(live_panes(panes@).take(i + 1) =~= live_panes(panes@).take(i as int).push(
            panes@[i as int].identity,
        ));
        i = i + 1;
    }
    assert(live@ =~= live_panes(panes@));
    live
}


impl Workflow {
    fn on_store(&mut self, event: Event) -> (a: Action)
        requires
            wf(*old(self)),
            old(self).phase == Phase::AwaitStore,
        ensures
            transition(*old(self), event, *final(self), a),
            wf(*final(self)),
    {
        match event {
            Event::StoreLoaded { state } => {
                self.state = state;
                self.durable = Ghost(Record { links: self.state.links@, pending: self.state.pending@ });
                self.phase = Phase::AwaitPanes;
                Action::ListPanes
            },
            _ => self.unexpected(event),
        }
    }

    fn on_listed(&mut self, event: Event) -> (a: Action)
        requires
            wf(*old(self)),
            old(self).phase == Phase::AwaitPanes,
        ensures
            transition(*old(self), event, *final(self), a),
            wf(*final(self)),
    {
        match event {
            Event::Panes { panes } => self.on_panes(panes),
            _ => self.unexpected(event),
        }
    }

    fn on_focused_existing(&mut self, link: Link, event: Event) -> (a: Action)
        requires
            wf(*old(self)),
            old(self).phase == (Phase::FocusingExisting { link }),
        ensures
            transition(*old(self), event, *final(self), a),
            wf(*final(self)),
    {
        match event {
            Event::Completed => {
                let a = self.save();
                self.phase = Phase::SavingBeforeFocus { link };
                a
            },
            _ => self.unexpected(event),
        }
    }

    fn on_saved_before_focus(&mut self, link: Link, event: Event) -> (a: Action)
        requires
            wf(*old(self)),
            old(self).phase == (Phase::SavingBeforeFocus { link }),
        ensures
            transition(*old(self), event, *final(self), a),
            wf(*final(self)),
    {
        match event {
            Event::Completed => {
                self.confirm_saved();
                self.phase = Phase::Finished;
                Action::Finish {
                    outcome: Outcome { action: FOCUSED, pane_id: link.side.pane_id, session_id: link.session_id },
                }
            },
            _ => self.unexpected(event),
        }
    }

    fn on_processes(&mut self, parent: String, source: PaneRef, event: Event) -> (a: Action)
        requires
            wf(*old(self)),
            old(self).phase == (Phase::AwaitProcesses { parent, source }),
        ensures
            transition(*old(self), event, *final(self), a),
            wf(*final(self)),
    {
        match event {
            Event::Processes { processes } => match Connection::discover(&processes) {
                Err(e) => self.fail(e),
                Ok(connection) => {
                    proof {
                        reveal_strlit(".");
                        assert("."@ =~= seq!['.']);
                    }
                    match connection.get_request(parent.as_str(), ".") {
                        Err(e) => self.fail(e),
                        Ok(command) => {
                            self.phase = Phase::AwaitParent { parent, source, connection };
                            Action::Request { command, reply: Reply::Session }
                        },
                    }
                },
            },
            _ => self.unexpected(event),
        }
    }

    fn on_parent(&mut self, parent: String, source: PaneRef, connection: Connection, event: Event) -> (a: Action)
        requires
            wf(*old(self)),
            old(self).phase == (Phase::AwaitParent { parent, source, connection }),
        ensures
            transition(*old(self), event, *final(self), a),
            wf(*final(self)),
    {
        match event {
            Event::SessionReply { session } => match connection.get(parent.as_str(), session) {
                Err(e) => self.fail(e),
                Ok(s) => {
                    let cwd = s.location.directory;
                    match connection.history_request(parent.as_str(), cwd.as_str()) {
                        Err(e) => self.fail(e),
                        Ok(command) => {
                            self.phase = Phase::AwaitHistory { parent, source, connection, cwd };
                            Action::Request { command, reply: Reply::History }
                        },
                    }
                },
            },
            _ => self.unexpected(event),
        }
    }

    fn on_history(
        &mut self,
        parent: String,
        source: PaneRef,
        connection: Connection,
        cwd: String,
        event: Event,
    ) -> (a: Action)
        requires
            wf(*old(self)),
            old(self).phase == (Phase::AwaitHistory { parent, source, connection, cwd }),
        ensures
            transition(*old(self), event, *final(self), a),
            wf(*final(self)),
    {
        match event {
            Event::HistoryReply { messages } => match connection.ensure_forkable(messages) {
                Err(e) => self.fail(e),
                Ok(()) => {
                    let index = self.state.pending.len();
                    self.state.pending.push(
                        Pending {
                            socket: self.setup.socket.clone(),
                            source,
                            parent_id: parent,
                            connection,
                            cwd,
                            stage: Stage::Forking,
                        },
                    );
                    proof {
                        assert(self.state.pending@.drop_last() =~= old(self).state.pending@);
                    }
                    let a = self.save();
                    self.phase = Phase::SavingIntent { index };
                    a
                },
            },
            _ => self.unexpected(event),
        }
    }

    fn on_intent_saved(&mut self, index: usize, event: Event) -> (a: Action)
        requires
            wf(*old(self)),
            old(self).phase == (Phase::SavingIntent { index }),
        ensures
            transition(*old(self), event, *final(self), a),
            wf(*final(self)),
    {
        match event {
            Event::Completed => {
                self.confirm_saved();
                let request = {
                    let p = &self.state.pending[index];
                    p.connection.fork_request(p.parent_id.as_str(), p.cwd.as_str())
                };
                match request {
                    Err(e) => self.fail(SidebarError::ForkUnconfirmed { cause: Box::new(e) }),
                    Ok(command) => {
                        self.phase = Phase::Forking { index };
                        Action::Request { command, reply: Reply::Fork }
                    },
                }
            },
            _ => self.unexpected(event),
        }
    }

    /// Checks a fork answer for operation `index` and records the fork.
    fn record_fork(&mut self, index: usize, session: Session) -> (r: Result<String, SidebarError>)
        requires
            index < old(self).state.pending@.len(),
        ensures
            ({
                let c = ctx_of(*old(self));
                let p = c.pending[index as int];
                if !is_session_id(session.id@) {
                    r == Err::<String, SidebarError>(SidebarError::InvalidSessionId)
                } else if !crate::opencode::is_fork_of(session, p.parent_id@) {
                    r == Err::<String, SidebarError>(SidebarError::NotAFork { parent: p.parent_id })
                } else {
                    r == Ok::<String, SidebarError>(session.id) && ctx_of(*final(self)) == with_stage(
                        c,
                        index as int,
                        Stage::Forked { session_id: session.id },
                    )
                }
            }),
            final(self).phase == old(self).phase,
            r is Err ==> ctx_of(*final(self)) == ctx_of(*old(self)),
    {
        let checked = {
            let p = &self.state.pending[index];
            p.connection.fork(&p.parent_id, session)
        };
        match checked {
            Err(e) => Err(e),
            Ok(s) => {
                let id = s.id;
                self.state.set_stage(index, Stage::Forked { session_id: id.clone() });
                Ok(id)
            },
        }
    }

    fn on_forked(&mut self, index: usize, event: Event) -> (a: Action)
        requires
            wf(*old(self)),
            old(self).phase == (Phase::Forking { index }),
        ensures
            transition(*old(self), event, *final(self), a),
            wf(*final(self)),
    {
        match event {
            Event::SessionReply { session } => match self.record_fork(index, session) {
                Err(e) => self.fail(SidebarError::ForkUnconfirmed { cause: Box::new(e) }),
                Ok(fork) => {
                    let a = self.save();
                    self.phase = Phase::SavingFork { index, fork };
                    a
                },
            },
            Event::Failed { reason } => self.fail(
                SidebarError::ForkUnconfirmed { cause: Box::new(SidebarError::External { reason }) },
            ),
            _ => self.unexpected(event),
        }
    }

    fn on_fork_saved(&mut self, index: usize, fork: String, event: Event) -> (a: Action)
        requires
            wf(*old(self)),
            old(self).phase == (Phase::SavingFork { index, fork }),
        ensures
            transition(*old(self), event, *final(self), a),
            wf(*final(self)),
    {
        match event {
            Event::Completed => {
                self.confirm_saved();
                self.resume(index)
            },
            Event::Failed { reason } => self.fail(
                SidebarError::ForkNotSaved { fork, cause: Box::new(SidebarError::External { reason }) },
            ),
            _ => self.unexpected(event),
        }
    }

    fn on_retried_fork(&mut self, index: usize, event: Event) -> (a: Action)
        requires
            wf(*old(self)),
            old(self).phase == (Phase::RetryingFork { index }),
        ensures
            transition(*old(self), event, *final(self), a),
            wf(*final(self)),
    {
        match event {
            Event::SessionReply { session } => match self.record_fork(index, session) {
                Err(e) => self.fail(SidebarError::RetriedForkUnconfirmed { cause: Box::new(e) }),
                Ok(_fork) => {
                    let a = self.save();
                    self.phase = Phase::SavingRetriedFork { index };
                    a
                },
            },
            Event::Failed { reason } => self.fail(
                SidebarError::RetriedForkUnconfirmed {
                    cause: Box::new(SidebarError::External { reason }),
                },
            ),
            _ => self.unexpected(event),
        }
    }

    fn on_retried_fork_saved(&mut self, index: usize, event: Event) -> (a: Action)
        requires
            wf(*old(self)),
            old(self).phase == (Phase::SavingRetriedFork { index }),
        ensures
            transition(*old(self), event, *final(self), a),
            wf(*final(self)),
    {
        match event {
            Event::Completed => {
                self.confirm_saved();
                self.launch(index)
            },
            _ => self.unexpected(event),
        }
    }

    fn on_recovery(&mut self, index: usize, id: String, event: Event) -> (a: Action)
        requires
            wf(*old(self)),
            old(self).phase == (Phase::Recovering { index, session: id }),
        ensures
            transition(*old(self), event, *final(self), a),
            wf(*final(self)),
    {
        match event {
            Event::SessionReply { session } => {
                let verdict = {
                    let p = &self.state.pending[index];
                    match p.connection.get(id.as_str(), session) {
                        Err(e) => Err(e),
                        Ok(s) => if !crate::opencode::forked_from(&s, p.parent_id.as_str()) {
                            Err(SidebarError::RecoveryNotAFork { parent: p.parent_id.clone() })
                        } else if !same_text(s.location.directory.as_str(), p.cwd.as_str()) {
                            Err(SidebarError::RecoveryDirectoryDiffers)
                        } else {
                            Ok(())
                        },
                    }
                };
                match verdict {
                    Err(e) => self.fail(e),
                    Ok(()) => {
                        self.state.set_stage(index, Stage::Forked { session_id: id.clone() });
                        let a = self.save();
                        self.phase = Phase::SavingRecovery { index };
                        a
                    },
                }
            },
            _ => self.unexpected(event),
        }
    }

    fn on_recovery_saved(&mut self, index: usize, event: Event) -> (a: Action)
        requires
            wf(*old(self)),
            old(self).phase == (Phase::SavingRecovery { index }),
        ensures
            transition(*old(self), event, *final(self), a),
            wf(*final(self)),
    {
        match event {
            Event::Completed => {
                self.confirm_saved();
                self.launch(index)
            },
            _ => self.unexpected(event),
        }
    }

    fn on_launch_intent_saved(&mut self, index: usize, session: String, event: Event) -> (a: Action)
        requires
            wf(*old(self)),
            old(self).phase == (Phase::SavingLaunchIntent { index, session }),
        ensures
            transition(*old(self), event, *final(self), a),
            wf(*final(self)),
    {
        match event {
            Event::Completed => {
                self.confirm_saved();
                let args = {
                    let p = &self.state.pending[index];
                    open_args(self.setup.pane.as_str(), p.cwd.as_str(), session.as_str(), &p.connection)
                };
                self.phase = Phase::Launching { index, session };
                Action::OpenPane { args }
            },
            _ => self.unexpected(event),
        }
    }

    fn on_launched(&mut self, index: usize, session: String, event: Event) -> (a: Action)
        requires
            wf(*old(self)),
            old(self).phase == (Phase::Launching { index, session }),
        ensures
            transition(*old(self), event, *final(self), a),
            wf(*final(self)),
    {
        match event {
            Event::PaneOpened { pane } => self.attach(index, session, pane),
            Event::Failed { reason } => self.fail(
                SidebarError::LaunchFailed { session, cause: Box::new(SidebarError::External { reason }) },
            ),
            _ => self.unexpected(event),
        }
    }

    fn on_side_saved(&mut self, index: usize, session: String, side: PaneRef, event: Event) -> (a: Action)
        requires
            wf(*old(self)),
            old(self).phase == (Phase::SavingSide { index, session, side }),
        ensures
            transition(*old(self), event, *final(self), a),
            wf(*final(self)),
    {
        match event {
            Event::Completed => {
                self.confirm_saved();
                let a = Action::WaitReady { side: side.copy(), session: session.clone() };
                self.phase = Phase::AwaitReady { index, session, side };
                a
            },
            _ => self.unexpected(event),
        }
    }

    fn on_ready(&mut self, index: usize, session: String, side: PaneRef, event: Event) -> (a: Action)
        requires
            wf(*old(self)),
            old(self).phase == (Phase::AwaitReady { index, session, side }),
        ensures
            transition(*old(self), event, *final(self), a),
            wf(*final(self)),
    {
        match event {
            Event::Completed => {
                let link = Link {
                    socket: self.setup.socket.clone(),
                    source: self.state.pending[index].source.copy(),
                    side: side.copy(),
                    session_id: session.clone(),
                };
                self.state.links.push(link);
                self.state.pending.remove(index);
                let a = self.save();
                proof {
                    let n = self.state.links@.len() - 1;
                    assert(self.state.links@[n].side == side);
                }
                self.phase = Phase::SavingLink { side, session };
                a
            },
            Event::Failed { reason } => self.fail(
                SidebarError::NotAttached {
                    pane: side.pane_id,
                    session,
                    cause: Box::new(SidebarError::External { reason }),
                },
            ),
            _ => self.unexpected(event),
        }
    }

    fn on_link_saved(&mut self, side: PaneRef, session: String, event: Event) -> (a: Action)
        requires
            wf(*old(self)),
            old(self).phase == (Phase::SavingLink { side, session }),
        ensures
            transition(*old(self), event, *final(self), a),
            wf(*final(self)),
    {
        match event {
            Event::Completed => {
                self.confirm_saved();
                let a = Action::Focus { pane: side.pane_id.clone() };
                self.phase = Phase::FocusingSide { side, session };
                a
            },
            _ => self.unexpected(event),
        }
    }

    fn on_side_focused(&mut self, side: PaneRef, session: String, event: Event) -> (a: Action)
        requires
            wf(*old(self)),
            old(self).phase == (Phase::FocusingSide { side, session }),
        ensures
            transition(*old(self), event, *final(self), a),
            wf(*final(self)),
    {
        match event {
            Event::Completed => {
                self.phase = Phase::Finished;
                Action::Finish {
                    outcome: Outcome { action: CREATED, pane_id: side.pane_id, session_id: session },
                }
            },
            _ => self.unexpected(event),
        }
    }
}


impl Phase {
    /// A copy of this phase.
    pub fn copy(&self) -> (r: Phase)
        ensures
            r == *self,
    {
        match self {
            Phase::AwaitStore => Phase::AwaitStore,
            Phase::AwaitPanes => Phase::AwaitPanes,
            Phase::FocusingExisting { link } => Phase::FocusingExisting { link: link.copy() },
            Phase::SavingBeforeFocus { link } => Phase::SavingBeforeFocus { link: link.copy() },
            Phase::AwaitProcesses { parent, source } => Phase::AwaitProcesses {
                parent: parent.clone(),
                source: source.copy(),
            },
            Phase::AwaitParent { parent, source, connection } => Phase::AwaitParent {
                parent: parent.clone(),
                source: source.copy(),
                connection: connection.copy(),
            },
            Phase::AwaitHistory { parent, source, connection, cwd } => Phase::AwaitHistory {
                parent: parent.clone(),
                source: source.copy(),
                connection: connection.copy(),
                cwd: cwd.clone(),
            },
            Phase::SavingIntent { index } => Phase::SavingIntent { index: *index },
            Phase::Forking { index } => Phase::Forking { index: *index },
            Phase::SavingFork { index, fork } => Phase::SavingFork { index: *index, fork: fork.clone() },
            Phase::RetryingFork { index } => Phase::RetryingFork { index: *index },
            Phase::SavingRetriedFork { index } => Phase::SavingRetriedFork { index: *index },
            Phase::Recovering { index, session } => Phase::Recovering {
                index: *index,
                session: session.clone(),
            },
            Phase::SavingRecovery { index } => Phase::SavingRecovery { index: *index },
            Phase::SavingLaunchIntent { index, session } => Phase::SavingLaunchIntent {
                index: *index,
                session: session.clone(),
            },
            Phase::Launching { index, session } => Phase::Launching {
                index: *index,
                session: session.clone(),
            },
            Phase::SavingSide { index, session, side } => Phase::SavingSide {
                index: *index,
                session: session.clone(),
                side: side.copy(),
            },
            Phase::AwaitReady { index, session, side } => Phase::AwaitReady {
                index: *index,
                session: session.clone(),
                side: side.copy(),
            },
            Phase::SavingLink { side, session } => Phase::SavingLink {
                side: side.copy(),
                session: session.clone(),
            },
            Phase::FocusingSide { side, session } => Phase::FocusingSide {
                side: side.copy(),
                session: session.clone(),
            },
            Phase::Finished => Phase::Finished,
        }
    }
}

impl Workflow {
    /// Takes the outcome of the last action and gives the next action.
    pub fn step(&mut self, event: Event) -> (a: Action)
        requires
            wf(*old(self)),
            tracks(*old(self)),
        ensures
            transition(*old(self), event, *final(self), a),
            wf(*final(self)),
            tracks(*final(self)),
    {
        let ghost before = *self;
        let ghost ev = event;
        let phase = self.phase.copy();
        let a = match phase {
            Phase::AwaitStore => self.on_store(event),
            Phase::AwaitPanes => self.on_listed(event),
            Phase::FocusingExisting { link } => self.on_focused_existing(link, event),
            Phase::SavingBeforeFocus { link } => self.on_saved_before_focus(link, event),
            Phase::AwaitProcesses { parent, source } => self.on_processes(parent, source, event),
            Phase::AwaitParent { parent, source, connection } => self.on_parent(
                parent,
                source,
                connection,
                event,
            ),
            Phase::AwaitHistory { parent, source, connection, cwd } => self.on_history(
                parent,
                source,
                connection,
                cwd,
                event,
            ),
            Phase::SavingIntent { index } => self.on_intent_saved(index, event),
            Phase::Forking { index } => self.on_forked(index, event),
            Phase::SavingFork { index, fork } => self.on_fork_saved(index, fork, event),
            Phase::RetryingFork { index } => self.on_retried_fork(index, event),
            Phase::SavingRetriedFork { index } => self.on_retried_fork_saved(index, event),
            Phase::Recovering { index, session } => self.on_recovery(index, session, event),
            Phase::SavingRecovery { index } => self.on_recovery_saved(index, event),
            Phase::SavingLaunchIntent { index, session } => self.on_launch_intent_saved(
                index,
                session,
                event,
            ),
            Phase::Launching { index, session } => self.on_launched(index, session, event),
            Phase::SavingSide { index, session, side } => self.on_side_saved(index, session, side, event),
            Phase::AwaitReady { index, session, side } => self.on_ready(index, session, side, event),
            Phase::SavingLink { side, session } => self.on_link_saved(side, session, event),
            Phase::FocusingSide { side, session } => self.on_side_focused(side, session, event),
            Phase::Finished => self.fail(SidebarError::UnexpectedEvent),
        };
        proof {
            lemma_step_tracks(before, ev, *self, a);
        }
        a
    }
}


/// A fork is requested only while the stored record holds an operation at the forking
/// stage that belongs to this server and to the pane the invocation runs for, and the
/// request forks exactly that operation's parent, with its connection and in its directory.
pub proof fn lemma_fork_follows_recorded_intent(m: Workflow, e: Event, m2: Workflow, a: Action)
    requires
        wf(m),
        tracks(m),
        transition(m, e, m2, a),
        a is Request,
        a->reply is Fork,
    ensures
        exists|i: int|
            0 <= i < m2.durable@.pending.len() && (#[trigger] m2.durable@.pending[i]).stage is Forking
                && forks_parent(m2.durable@.pending[i], a->command) && m2.durable@.pending[i].socket@
                == m.setup.socket@ && listed_source(ctx_of(m2), m2.durable@.pending[i].source),
{
    match m.phase {
        Phase::SavingIntent { index } => {
            lemma_owns_saved(ctx_of(m), index as int);
            lemma_owns_belongs(saved(ctx_of(m)), index as int);
            assert(m2.durable@.pending[index as int].stage is Forking);
        },
        Phase::AwaitPanes => {
            if let Event::Panes { panes } = e {
                if let Some(k) = source_index(panes@, m.setup.pane@) {
                    let src = panes@[k].identity;
                    if let Some(i) = first_pending(m.state.pending@, m.setup.socket@, src) {
                        crate::state::lemma_first_pending(m.state.pending@, m.setup.socket@, src);
                        assert(m2.durable@.pending[i].stage is Forking);
                    }
                }
            }
        },
        Phase::SavingFork { index, .. } => {
            lemma_owns_saved(ctx_of(m), index as int);
            lemma_owns_belongs(saved(ctx_of(m)), index as int);
            assert(m2.durable@.pending[index as int].stage is Forking);
        },
        _ => {},
    }
}

/// The operation a context owns belongs to its server and to the pane the invocation runs
/// for.
pub proof fn lemma_owns_belongs(c: Ctx, i: int)
    requires
        owns(c, i),
    ensures
        c.pending[i].socket@ == c.setup.socket@,
        listed_source(c, c.pending[i].source),
{
    reveal(leads);
    crate::state::lemma_first_pending(c.pending, c.setup.socket@, c.pending[i].source);
}

/// Without `--retry-fork`, a fork is requested only right after this invocation recorded
/// a new intent, for a pane that had no operation in progress in the stored record.
pub proof fn lemma_fork_needs_new_intent_or_retry(m: Workflow, e: Event, m2: Workflow, a: Action)
    requires
        wf(m),
        transition(m, e, m2, a),
        a is Request,
        a->reply is Fork,
        !m.setup.retry_fork,
    ensures
        m.phase is SavingIntent,
        m.state.pending@.len() > 0,
        first_pending(m.durable@.pending, m.setup.socket@, m.state.pending@.last().source) is None,
{
}

/// A side pane is opened only after the stored record holds the intent to open it for
/// that operation's fork, the operation belongs to this server and to the pane the
/// invocation runs for, and Herdr is asked to open exactly that fork beside the source
/// pane, in the operation's directory.
pub proof fn lemma_launch_follows_recorded_intent(m: Workflow, e: Event, m2: Workflow, a: Action)
    requires
        wf(m),
        tracks(m),
        transition(m, e, m2, a),
        a is OpenPane,
    ensures
        m.phase is SavingLaunchIntent,
        ({
            let index = m.phase->SavingLaunchIntent_index as int;
            let session = m.phase->SavingLaunchIntent_session;
            let p = m2.durable@.pending[index];
            &&& 0 <= index < m2.durable@.pending.len()
            &&& p.stage == Stage::Opening { session_id: session, side: None }
            &&& texts(a->args@) == spec_open_args(m.setup.pane@, p.cwd@, session@, p.connection)
            &&& p.socket@ == m.setup.socket@
            &&& listed_source(ctx_of(m2), p.source)
        }),
{
    if let Phase::SavingLaunchIntent { index, .. } = m.phase {
        lemma_owns_saved(ctx_of(m), index as int);
        lemma_owns_belongs(saved(ctx_of(m)), index as int);
    }
}

/// A launch whose outcome is unknown (recorded as opening with no side pane) is not
/// started again unless `--retry-launch` is given.
pub proof fn lemma_unknown_launch_not_repeated(m: Workflow, e: Event, m2: Workflow, a: Action)
    requires
        wf(m),
        transition(m, e, m2, a),
        m.state.pending@.len() <= usize::MAX,
        m2.phase is SavingLaunchIntent,
        m2.phase->SavingLaunchIntent_index < m.state.pending@.len(),
        (m.state.pending@[m2.phase->SavingLaunchIntent_index as int].stage matches Stage::Opening {
            side: None,
            ..
        }),
    ensures
        m.setup.retry_launch,
{
    let c = ctx_of(m);
    match m.phase {
        Phase::AwaitPanes => {
            if let Event::Panes { panes } = e {
                if let Some(k) = source_index(panes@, m.setup.pane@) {
                    let src = panes@[k].identity;
                    let links = c.links.filter(keep_pred(c.setup.socket@, live_panes(panes@)));
                    let c1 = Ctx { panes: panes@, links, ..c };
                    if reused_link(links, c.setup.socket@, src) is None {
                        if let Some(i) = first_pending(m.state.pending@, m.setup.socket@, src) {
                            crate::state::lemma_first_pending(m.state.pending@, m.setup.socket@, src);
                            lemma_resume_keeps_unknown_launch(c1, i, m2, a);
                        }
                    }
                }
            }
        },
        Phase::SavingFork { index, .. } => {
            if e is Completed {
                lemma_resume_keeps_unknown_launch(saved(c), index as int, m2, a);
            }
        },
        Phase::SavingRetriedFork { index } => {
            if e is Completed {
                lemma_launch_keeps_unknown_launch(saved(c), index as int, m2, a);
            }
        },
        Phase::SavingRecovery { index } => {
            if e is Completed {
                lemma_launch_keeps_unknown_launch(saved(c), index as int, m2, a);
            }
        },
        _ => {},
    }
}

proof fn lemma_launch_keeps_unknown_launch(c: Ctx, i: int, m2: Workflow, a: Action)
    requires
        0 <= i < c.pending.len(),
        i <= usize::MAX,
        launch_spec(c, i, m2, a),
        m2.phase is SavingLaunchIntent,
    ensures
        m2.phase->SavingLaunchIntent_index as int == i,
        (c.pending[i].stage matches Stage::Opening { side: None, .. }) ==> c.setup.retry_launch,
{
}

proof fn lemma_resume_keeps_unknown_launch(c: Ctx, i: int, m2: Workflow, a: Action)
    requires
        0 <= i < c.pending.len(),
        i <= usize::MAX,
        resume_spec(c, i, m2, a),
        m2.phase is SavingLaunchIntent,
    ensures
        m2.phase->SavingLaunchIntent_index as int == i,
        (c.pending[i].stage matches Stage::Opening { side: None, .. }) ==> c.setup.retry_launch,
{
    if !(c.setup.retry_fork || c.setup.recover_session is Some) {
        lemma_launch_keeps_unknown_launch(c, i, m2, a);
    }
}

/// An operation whose recorded side pane is no longer listed, while no listed pane shows its
/// fork, has its fork opened again without `--retry-launch`: the invocation records the
/// launch as having no side pane, and once that is saved asks Herdr to open a pane for the
/// fork beside the source pane.  Only a launch recorded with no side pane needs the option.
pub proof fn lemma_closed_side_is_reopened(
    m: Workflow,
    panes: Vec<Pane>,
    m2: Workflow,
    a: Action,
    m3: Workflow,
    a3: Action,
)
    requires
        m.phase is AwaitPanes,
        transition(m, Event::Panes { panes }, m2, a),
        transition(m2, Event::Completed, m3, a3),
        m.setup.recover_session is None,
        !m.setup.retry_fork,
        source_index(panes@, m.setup.pane@) is Some,
        ({
            let socket = m.setup.socket@;
            let src = panes@[source_index(panes@, m.setup.pane@)->0].identity;
            &&& reused_link(m.state.links@.filter(keep_pred(socket, live_panes(panes@))), socket, src) is None
            &&& first_pending(m.state.pending@, socket, src) is Some
        }),
        ({
            let src = panes@[source_index(panes@, m.setup.pane@)->0].identity;
            let i = first_pending(m.state.pending@, m.setup.socket@, src)->0;
            let stage = m.state.pending@[i].stage;
            &&& stage matches Stage::Opening { side: Some(s), .. }
            &&& forall|j: int|
                0 <= j < panes@.len() ==> !(#[trigger] panes@[j]).identity.same(stage->Opening_side->0)
            &&& forall|j: int|
                0 <= j < panes@.len() ==> reported_session(#[trigger] panes@[j]) != Some(
                    stage->Opening_session_id@,
                )
        }),
    ensures
        ({
            let src = panes@[source_index(panes@, m.setup.pane@)->0].identity;
            let i = first_pending(m.state.pending@, m.setup.socket@, src)->0;
            let p = m.state.pending@[i];
            let session = p.stage->Opening_session_id;
            &&& a matches Action::Save { state } && state.pending@[i].stage == (Stage::Opening {
                session_id: session,
                side: None,
            })
            &&& a3 matches Action::OpenPane { args } && texts(args@) == spec_open_args(
                m.setup.pane@,
                p.cwd@,
                session@,
                p.connection,
            )
        }),
{
    let k = source_index(panes@, m.setup.pane@)->0;
    let src = panes@[k].identity;
    let i = first_pending(m.state.pending@, m.setup.socket@, src)->0;
    crate::state::lemma_first_pending(m.state.pending@, m.setup.socket@, src);
    let stage = m.state.pending@[i].stage;
    let session = stage->Opening_session_id;
    let side = stage->Opening_side->0;
    let pred = shows_fork(session@);
    #[allow(deprecated)]
    panes@.filter_lemma(pred);
    if panes_showing(panes@, session@).len() > 0 {
        let x = panes_showing(panes@, session@)[0];
        assert(pred(x));
        crate::state::lemma_filter_subset(panes@, pred, 0);
        let y = choose|y: int| 0 <= y < panes@.len() && panes@[y] == x;
        assert(reported_session(panes@[y]) != Some(session@));
    }
    assert(!is_live(live_panes(panes@), side)) by {
        if is_live(live_panes(panes@), side) {
            let y = choose|y: int| 0 <= y < live_panes(panes@).len() && (#[trigger] live_panes(panes@)[y]).same(side);
            assert(live_panes(panes@)[y] == panes@[y].identity);
            assert(!panes@[y].identity.same(side));
        }
    }
    assert(m.state.pending.len() == m.state.pending@.len());
    assert(panes_showing(panes@, session@).len() == 0);
    assert(single_pane(panes@, session@) is None);
    let c1 = Ctx {
        panes: panes@,
        links: m.state.links@.filter(keep_pred(m.setup.socket@, live_panes(panes@))),
        ..ctx_of(m)
    };
    assert(launch_spec(c1, i, m2, a));
    assert(m2.phase == Phase::SavingLaunchIntent { index: i as usize, session });
}

/// Continuing an operation is refused for an unknown launch outcome only when the
/// operation was recorded as opening with no side pane and `--retry-launch` was not given.
proof fn lemma_resume_unknown_launch(c: Ctx, i: int, m2: Workflow, a: Action)
    requires
        0 <= i < c.pending.len(),
        resume_spec(c, i, m2, a),
        a matches Action::Fail { error: SidebarError::LaunchOutcomeUnknown { .. } },
    ensures
        c.pending[i].stage matches Stage::Opening { side: None, .. },
        !c.setup.retry_launch,
{
    if !(c.setup.retry_fork || c.setup.recover_session is Some) {
        lemma_launch_unknown_launch(c, i, m2, a);
    }
}

/// Showing an operation's fork is refused for an unknown launch outcome only when the
/// operation was recorded as opening with no side pane and `--retry-launch` was not given.
proof fn lemma_launch_unknown_launch(c: Ctx, i: int, m2: Workflow, a: Action)
    requires
        0 <= i < c.pending.len(),
        launch_spec(c, i, m2, a),
        a matches Action::Fail { error: SidebarError::LaunchOutcomeUnknown { .. } },
    ensures
        c.pending[i].stage matches Stage::Opening { side: None, .. },
        !c.setup.retry_launch,
{
}

/// An invocation refuses because an earlier launch has no known outcome only when its
/// record holds an operation recorded as opening with no side pane, and `--retry-launch`
/// was not given.
pub proof fn lemma_unknown_launch_needs_unrecorded_side(m: Workflow, e: Event, m2: Workflow, a: Action)
    requires
        wf(m),
        tracks(m),
        transition(m, e, m2, a),
        a matches Action::Fail { error: SidebarError::LaunchOutcomeUnknown { .. } },
    ensures
        !m.setup.retry_launch,
        exists|i: int|
            0 <= i < m.state.pending@.len() && (#[trigger] m.state.pending@[i]).stage matches Stage::Opening {
                side: None,
                ..
            },
{
    let c = ctx_of(m);
    match m.phase {
        Phase::AwaitPanes => {
            if let Event::Panes { panes } = e {
                if let Some(k) = source_index(panes@, m.setup.pane@) {
                    let src = panes@[k].identity;
                    let links = c.links.filter(keep_pred(c.setup.socket@, live_panes(panes@)));
                    let c1 = Ctx { panes: panes@, links, ..c };
                    if reused_link(links, c.setup.socket@, src) is None {
                        if let Some(i) = first_pending(m.state.pending@, m.setup.socket@, src) {
                            crate::state::lemma_first_pending(m.state.pending@, m.setup.socket@, src);
                            lemma_resume_unknown_launch(c1, i, m2, a);
                            assert(m.state.pending@[i].stage is Opening);
                        }
                    }
                }
            }
        },
        Phase::SavingFork { index, .. } => {
            if e is Completed {
                lemma_resume_unknown_launch(saved(c), index as int, m2, a);
                assert(m.state.pending@[index as int].stage is Opening);
            }
        },
        Phase::SavingRetriedFork { index } => {
            if e is Completed {
                lemma_launch_unknown_launch(saved(c), index as int, m2, a);
                assert(m.state.pending@[index as int].stage is Opening);
            }
        },
        Phase::SavingRecovery { index } => {
            if e is Completed {
                lemma_launch_unknown_launch(saved(c), index as int, m2, a);
                assert(m.state.pending@[index as int].stage is Opening);
            }
        },
        Phase::AwaitProcesses { .. } => {
            if let Event::Processes { processes } = e {
                crate::opencode::lemma_discovered_errors(processes@);
            }
        },
        _ => {},
    }
}

/// A pane whose mapping survives pruning has that mapping's side pane focused; nothing is
/// forked or opened.
pub proof fn lemma_live_mapping_is_focused(m: Workflow, panes: Vec<Pane>, m2: Workflow, a: Action, k: int)
    requires
        transition(m, Event::Panes { panes }, m2, a),
        m.phase is AwaitPanes,
        source_index(panes@, m.setup.pane@) == Some(k),
        reused_link(
            m.state.links@.filter(keep_pred(m.setup.socket@, live_panes(panes@))),
            m.setup.socket@,
            panes@[k].identity,
        ) is Some,
    ensures
        ({
            let l = reused_link(
                m.state.links@.filter(keep_pred(m.setup.socket@, live_panes(panes@))),
                m.setup.socket@,
                panes@[k].identity,
            )->0;
            &&& a == Action::Focus { pane: l.side.pane_id }
            &&& m2.phase == Phase::FocusingExisting { link: l }
        }),
{
}

/// Once a mapping is being focused, the workflow only saves and reports it as focused:
/// it never requests a fork or opens a pane.
pub proof fn lemma_focus_path_stays_put(m: Workflow, e: Event, m2: Workflow, a: Action)
    requires
        transition(m, e, m2, a),
        m.phase is FocusingExisting || m.phase is SavingBeforeFocus,
    ensures
        !(a is Request),
        !(a is OpenPane),
        a is Finish ==> a->outcome.action == FOCUSED && m.phase is SavingBeforeFocus && a->outcome.pane_id
            == m.phase->SavingBeforeFocus_link.side.pane_id,
{
}

/// When the workflow reports a created side pane, the stored record links this server's
/// source pane to that side pane and that fork.
pub proof fn lemma_created_pane_is_recorded(m: Workflow, e: Event, m2: Workflow, a: Action)
    requires
        wf(m),
        transition(m, e, m2, a),
        a is Finish,
        a->outcome.action == CREATED,
    ensures
        exists|i: int|
            0 <= i < m2.durable@.links.len() && (#[trigger] m2.durable@.links[i]).socket@
                == m.setup.socket@ && m2.durable@.links[i].side.pane_id == a->outcome.pane_id
                && m2.durable@.links[i].session_id@ == a->outcome.session_id@,
{
    reveal_strlit("created");
    reveal_strlit("focused");
    assert(FOCUSED@[0] != CREATED@[0]);
}

/// A finished workflow answers every event with an error and does nothing else.
pub proof fn lemma_finished_is_final(m: Workflow, e: Event, m2: Workflow, a: Action)
    requires
        transition(m, e, m2, a),
        m.phase is Finished,
    ensures
        a == (Action::Fail { error: SidebarError::UnexpectedEvent }),
        m2.phase is Finished,
{
}


/// A failed action ends the workflow: nothing further is saved, requested or opened.
pub proof fn lemma_failure_ends_workflow(m: Workflow, e: Event, m2: Workflow, a: Action)
    requires
        transition(m, e, m2, a),
        e is Failed,
    ensures
        a is Fail,
        m2.phase is Finished,
        ctx_of(m2) == ctx_of(m),
{
}

/// A mapping is added to the record only once the side pane was seen showing the fork:
/// the only transition that adds a link is the one that follows a completed wait.
pub proof fn lemma_link_added_only_after_attach(m: Workflow, e: Event, m2: Workflow, a: Action)
    requires
        transition(m, e, m2, a),
        !(m.phase is AwaitStore),
        m2.state.links@.len() > m.state.links@.len(),
    ensures
        m.phase is AwaitReady,
        e is Completed,
{
    if m.phase is AwaitPanes {
        if let Event::Panes { panes } = e {
            let pred = keep_pred(m.setup.socket@, live_panes(panes@));
            #[allow(deprecated)]
            m.state.links@.filter_lemma(pred);
        }
    }
}

} // verus!
