//! Laws over two invocations: what one invocation leaves in the stored record decides what
//! the next one does.  The next invocation is followed from a fresh start, through loading
//! the record the first one stored and listing Herdr's panes, to its end.
use vstd::prelude::*;
use crate::error::SidebarError;
use crate::herdr::Pane;
use crate::state::{
    first_pending, is_live, keep_pred, lemma_first_link_none, lemma_last_link_is_reused,
    lemma_first_pending_agree, lemma_no_reused_link_after_pruning, lemma_reused_link_is_live, pending_matches,
    reused_link, Link, Stage, State,
};
use crate::workflow::{
    ctx_of, ends_with_link, leads, listed_source, live_panes, panes_showing, source_index, tracks, transition, wf, Action, Event, Outcome,
    Phase, Workflow, CREATED, FOCUSED,
};

verus! {

/// Once a side pane is saved for fork `session`, the workflow waits for it, records the
/// mapping, focuses the pane and reports it as created.
proof fn lemma_saved_side_runs_to_created(
    n2: Workflow,
    n3: Workflow,
    a3: Action,
    n4: Workflow,
    a4: Action,
    n5: Workflow,
    a5: Action,
    n6: Workflow,
    a6: Action,
)
    requires
        n2.phase is SavingSide,
        transition(n2, Event::Completed, n3, a3),
        transition(n3, Event::Completed, n4, a4),
        transition(n4, Event::Completed, n5, a5),
        transition(n5, Event::Completed, n6, a6),
    ensures
        ({
            let side = n2.phase->SavingSide_side;
            let session = n2.phase->SavingSide_session;
            &&& a3 == Action::WaitReady { side, session }
            &&& a4 is Save
            &&& a5 == Action::Focus { pane: side.pane_id }
            &&& a6 == Action::Finish {
                outcome: Outcome { action: CREATED, pane_id: side.pane_id, session_id: session },
            }
            &&& n6.phase is Finished
        }),
{
}

/// The next invocation, from a pane that is the same pane as `source`, finds operation `i`
/// of the stored record and no mapping of its pane, given that operation `i` led in the
/// record the first invocation worked on.
proof fn lemma_next_run_finds_operation(
    m: Workflow,
    i: int,
    n0: Workflow,
    state: State,
    n1: Workflow,
    a1: Action,
    panes: Vec<Pane>,
    k: int,
)
    requires
        0 <= i < m.state.pending@.len(),
        leads(ctx_of(m), i),
        n0.phase is AwaitStore,
        n0.setup.socket@ == m.setup.socket@,
        state.links@ == m.state.links@,
        state.pending@ == m.state.pending@,
        transition(n0, Event::StoreLoaded { state }, n1, a1),
        source_index(panes@, n0.setup.pane@) == Some(k),
        panes@[k].identity.same(m.state.pending@[i].source),
    ensures
        a1 == Action::ListPanes,
        n1.phase is AwaitPanes,
        ctx_of(n1).setup == n0.setup,
        n1.state.pending@ == m.state.pending@,
        reused_link(
            n1.state.links@.filter(keep_pred(n1.setup.socket@, live_panes(panes@))),
            n1.setup.socket@,
            panes@[k].identity,
        ) is None,
        first_pending(n1.state.pending@, n1.setup.socket@, panes@[k].identity) == Some(i),
{
    reveal(leads);
    let socket = m.setup.socket@;
    let p = m.state.pending@[i];
    let src = panes@[k].identity;
    lemma_no_reused_link_after_pruning(m.state.links@, socket, p.source, src, live_panes(panes@));
    assert forall|j: int| 0 <= j < m.state.pending@.len() implies pending_matches(
        #[trigger] m.state.pending@[j],
        socket,
        p.source,
    ) == pending_matches(m.state.pending@[j], socket, src) by {}
    lemma_first_pending_agree(m.state.pending@, m.state.pending@, socket, p.source, src);
}

/// A fork request whose reply is lost or fails leaves the intent to fork in the stored
/// record; the next invocation from the same pane, unless it retries the fork or recovers
/// it explicitly, refuses because the fork's outcome is unknown, and requests no fork and
/// opens no pane.
pub proof fn lemma_lost_fork_is_refused_next(
    m: Workflow,
    e: Event,
    m2: Workflow,
    a: Action,
    n0: Workflow,
    state: State,
    n1: Workflow,
    a1: Action,
    panes: Vec<Pane>,
    n2: Workflow,
    a2: Action,
)
    requires
        wf(m),
        tracks(m),
        m.phase is Forking,
        e is Failed,
        transition(m, e, m2, a),
        n0.phase is AwaitStore,
        n0.setup.socket@ == m.setup.socket@,
        n0.setup.recover_session is None,
        !n0.setup.retry_fork,
        state.links@ == m2.durable@.links,
        state.pending@ == m2.durable@.pending,
        transition(n0, Event::StoreLoaded { state }, n1, a1),
        transition(n1, Event::Panes { panes }, n2, a2),
        source_index(panes@, n0.setup.pane@) matches Some(k) && panes@[k].identity.same(
            m.state.pending@[m.phase->Forking_index as int].source,
        ),
    ensures
        a matches Action::Fail { error: SidebarError::ForkUnconfirmed { .. } },
        m2.durable@.pending[m.phase->Forking_index as int].stage is Forking,
        a1 == Action::ListPanes,
        a2 == (Action::Fail { error: SidebarError::ForkOutcomeUnknown }),
        n2.phase is Finished,
{
    let i = m.phase->Forking_index as int;
    let k = source_index(panes@, n0.setup.pane@)->0;
    lemma_next_run_finds_operation(m, i, n0, state, n1, a1, panes, k);
}

/// A pane launch whose reply is lost or fails leaves the intent to open a pane for the
/// saved fork in the stored record; once exactly one listed pane shows that fork, the next
/// invocation from the same pane, unless it retries the fork or recovers it explicitly,
/// adopts that pane: it records it, waits for it, maps it, focuses it and reports it as
/// created, without requesting a fork or opening another pane.
pub proof fn lemma_lost_launch_is_adopted_next(
    m: Workflow,
    e: Event,
    m2: Workflow,
    a: Action,
    n0: Workflow,
    state: State,
    n1: Workflow,
    a1: Action,
    panes: Vec<Pane>,
    n2: Workflow,
    a2: Action,
    n3: Workflow,
    a3: Action,
    n4: Workflow,
    a4: Action,
    n5: Workflow,
    a5: Action,
    n6: Workflow,
    a6: Action,
)
    requires
        wf(m),
        tracks(m),
        m.phase is Launching,
        e is Failed,
        transition(m, e, m2, a),
        n0.phase is AwaitStore,
        n0.setup.socket@ == m.setup.socket@,
        n0.setup.recover_session is None,
        !n0.setup.retry_fork,
        state.links@ == m2.durable@.links,
        state.pending@ == m2.durable@.pending,
        transition(n0, Event::StoreLoaded { state }, n1, a1),
        transition(n1, Event::Panes { panes }, n2, a2),
        transition(n2, Event::Completed, n3, a3),
        transition(n3, Event::Completed, n4, a4),
        transition(n4, Event::Completed, n5, a5),
        transition(n5, Event::Completed, n6, a6),
        source_index(panes@, n0.setup.pane@) matches Some(k) && panes@[k].identity.same(
            m.state.pending@[m.phase->Launching_index as int].source,
        ),
        panes_showing(panes@, m.phase->Launching_session@).len() == 1,
    ensures
        a matches Action::Fail { error: SidebarError::LaunchFailed { .. } },
        m2.durable@.pending[m.phase->Launching_index as int].stage == (Stage::Opening {
            session_id: m.phase->Launching_session,
            side: None,
        }),
        a1 == Action::ListPanes,
        ({
            let session = m.phase->Launching_session;
            let side = panes_showing(panes@, session@)[0].identity;
            &&& a2 is Save
            &&& a3 == Action::WaitReady { side, session }
            &&& a4 is Save
            &&& a5 == Action::Focus { pane: side.pane_id }
            &&& a6 == Action::Finish {
                outcome: Outcome { action: CREATED, pane_id: side.pane_id, session_id: session },
            }
        }),
{
    let i = m.phase->Launching_index as int;
    let k = source_index(panes@, n0.setup.pane@)->0;
    lemma_next_run_finds_operation(m, i, n0, state, n1, a1, panes, k);
    assert(n2.phase is SavingSide);
    lemma_saved_side_runs_to_created(n2, n3, a3, n4, a4, n5, a5, n6, a6);
}

/// A side pane that was saved for the fork but did not attach in time stays in the stored
/// record; once it is listed and no other pane shows the fork, the next invocation from the
/// same pane, unless it retries the fork or recovers it explicitly, reuses that side pane:
/// it waits for it, maps it, focuses it and reports it as created, without requesting a
/// fork or opening a pane.
pub proof fn lemma_unattached_side_is_reused_next(
    m: Workflow,
    e: Event,
    m2: Workflow,
    a: Action,
    n0: Workflow,
    state: State,
    n1: Workflow,
    a1: Action,
    panes: Vec<Pane>,
    n2: Workflow,
    a2: Action,
    n3: Workflow,
    a3: Action,
    n4: Workflow,
    a4: Action,
    n5: Workflow,
    a5: Action,
    n6: Workflow,
    a6: Action,
)
    requires
        wf(m),
        tracks(m),
        m.phase is AwaitReady,
        e is Failed,
        transition(m, e, m2, a),
        n0.phase is AwaitStore,
        n0.setup.socket@ == m.setup.socket@,
        n0.setup.recover_session is None,
        !n0.setup.retry_fork,
        state.links@ == m2.durable@.links,
        state.pending@ == m2.durable@.pending,
        transition(n0, Event::StoreLoaded { state }, n1, a1),
        transition(n1, Event::Panes { panes }, n2, a2),
        transition(n2, Event::Completed, n3, a3),
        transition(n3, Event::Completed, n4, a4),
        transition(n4, Event::Completed, n5, a5),
        transition(n5, Event::Completed, n6, a6),
        source_index(panes@, n0.setup.pane@) matches Some(k) && panes@[k].identity.same(
            m.state.pending@[m.phase->AwaitReady_index as int].source,
        ),
        is_live(live_panes(panes@), m.phase->AwaitReady_side),
        panes_showing(panes@, m.phase->AwaitReady_session@).len() <= 1,
    ensures
        a matches Action::Fail { error: SidebarError::NotAttached { .. } },
        m2.durable@.pending[m.phase->AwaitReady_index as int].stage == (Stage::Opening {
            session_id: m.phase->AwaitReady_session,
            side: Some(m.phase->AwaitReady_side),
        }),
        a1 == Action::ListPanes,
        ({
            let session = m.phase->AwaitReady_session;
            let side = m.phase->AwaitReady_side;
            &&& a2 is Save
            &&& a3 == Action::WaitReady { side, session }
            &&& a4 is Save
            &&& a5 == Action::Focus { pane: side.pane_id }
            &&& a6 == Action::Finish {
                outcome: Outcome { action: CREATED, pane_id: side.pane_id, session_id: session },
            }
        }),
{
    let i = m.phase->AwaitReady_index as int;
    let k = source_index(panes@, n0.setup.pane@)->0;
    lemma_next_run_finds_operation(m, i, n0, state, n1, a1, panes, k);
    assert(n2.phase is SavingSide);
    lemma_saved_side_runs_to_created(n2, n3, a3, n4, a4, n5, a5, n6, a6);
}

/// After an invocation reports a created side pane, the mapping it recorded is the last of
/// the stored record and shows that side pane and fork, and its source is the pane that
/// invocation ran for.  The next invocation focuses that side pane and reports it as
/// focused with the same fork, without requesting a fork or opening a pane, while the side
/// pane is listed: from the source pane always, and from the side pane unless an earlier
/// mapping of the server also shows it as its side pane.
pub proof fn lemma_created_pane_is_focused_next(
    m: Workflow,
    e: Event,
    m2: Workflow,
    a: Action,
    n0: Workflow,
    state: State,
    n1: Workflow,
    a1: Action,
    panes: Vec<Pane>,
    n2: Workflow,
    a2: Action,
    n3: Workflow,
    a3: Action,
    n4: Workflow,
    a4: Action,
)
    requires
        wf(m),
        tracks(m),
        transition(m, e, m2, a),
        a is Finish,
        a->outcome.action == CREATED,
        n0.phase is AwaitStore,
        n0.setup.socket@ == m.setup.socket@,
        state.links@ == m2.durable@.links,
        transition(n0, Event::StoreLoaded { state }, n1, a1),
        transition(n1, Event::Panes { panes }, n2, a2),
        transition(n2, Event::Completed, n3, a3),
        transition(n3, Event::Completed, n4, a4),
        ({
            let links = m2.durable@.links;
            let recorded = links.last();
            source_index(panes@, n0.setup.pane@) matches Some(k) && (panes@[k].identity.same(recorded.source)
                || (panes@[k].identity.same(recorded.side) && forall|i: int|
                0 <= i < links.len() - 1 && (#[trigger] links[i]).socket@ == m.setup.socket@
                    ==> !links[i].side.same(recorded.side)))
        }),
        is_live(live_panes(panes@), m2.durable@.links.last().side),
    ensures
        ({
            let recorded = m2.durable@.links.last();
            &&& m2.durable@.links.len() > 0
            &&& recorded.socket@ == m.setup.socket@
            &&& recorded.side.pane_id == a->outcome.pane_id
            &&& recorded.session_id == a->outcome.session_id
            &&& listed_source(ctx_of(m2), recorded.source)
            &&& a1 == Action::ListPanes
            &&& n2.phase == Phase::FocusingExisting { link: recorded }
            &&& a2 == Action::Focus { pane: a->outcome.pane_id }
            &&& a3 is Save
            &&& a4 == Action::Finish {
                outcome: Outcome { action: FOCUSED, pane_id: a->outcome.pane_id, session_id: a->outcome.session_id },
            }
            &&& n4.phase is Finished
        }),
{
    let links = m2.durable@.links;
    let k = source_index(panes@, n0.setup.pane@)->0;
    lemma_created_record(m, e, m2, a);
    lemma_last_link_is_reused(links, m.setup.socket@, panes@[k].identity, live_panes(panes@));
    lemma_mapping_is_focused(n0, state, n1, a1, panes, n2, a2, n3, a3, n4, a4, k, links.last());
}

/// The record a creating invocation leaves ends with the mapping it created.
proof fn lemma_created_record(m: Workflow, e: Event, m2: Workflow, a: Action)
    requires
        wf(m),
        tracks(m),
        transition(m, e, m2, a),
        a is Finish,
        a->outcome.action == CREATED,
    ensures
        m.phase is FocusingSide,
        ({
            let links = m2.durable@.links;
            let recorded = links.last();
            &&& links.len() > 0
            &&& recorded.socket@ == m.setup.socket@
            &&& recorded.side == m.phase->FocusingSide_side
            &&& recorded.side.pane_id == a->outcome.pane_id
            &&& recorded.session_id == a->outcome.session_id
            &&& reused_link(links.drop_last(), m.setup.socket@, recorded.source) is None
            &&& listed_source(ctx_of(m2), recorded.source)
        }),
{
    reveal_strlit("created");
    reveal_strlit("focused");
    assert(FOCUSED@[0] != CREATED@[0]);
    assert(m.phase is FocusingSide);
    reveal(ends_with_link);
}

/// An invocation whose pane listing makes it reuse mapping `l` focuses `l`'s side pane,
/// saves the record and reports the side pane as focused with `l`'s fork.
proof fn lemma_mapping_is_focused(
    n0: Workflow,
    state: State,
    n1: Workflow,
    a1: Action,
    panes: Vec<Pane>,
    n2: Workflow,
    a2: Action,
    n3: Workflow,
    a3: Action,
    n4: Workflow,
    a4: Action,
    k: int,
    l: Link,
)
    requires
        n0.phase is AwaitStore,
        transition(n0, Event::StoreLoaded { state }, n1, a1),
        transition(n1, Event::Panes { panes }, n2, a2),
        transition(n2, Event::Completed, n3, a3),
        transition(n3, Event::Completed, n4, a4),
        source_index(panes@, n0.setup.pane@) == Some(k),
        reused_link(
            state.links@.filter(keep_pred(n0.setup.socket@, live_panes(panes@))),
            n0.setup.socket@,
            panes@[k].identity,
        ) == Some(l),
    ensures
        a1 == Action::ListPanes,
        n2.phase == (Phase::FocusingExisting { link: l }),
        a2 == (Action::Focus { pane: l.side.pane_id }),
        a3 is Save,
        a4 == (Action::Finish {
            outcome: Outcome { action: FOCUSED, pane_id: l.side.pane_id, session_id: l.session_id },
        }),
        n4.phase is Finished,
{
}

} // verus!
