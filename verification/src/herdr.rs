//! Herdr's view of panes, and the decisions made on Herdr's answers.
use vstd::prelude::*;
use crate::error::SidebarError;
use crate::opencode::Connection;
use crate::text::{joined, opt_text, owned, same_text, texts};

verus! {

/// The name by which Herdr and this plugin know OpenCode.
pub const OPENCODE: &'static str = "opencode";

/// The kind of agent session that carries an OpenCode session identifier.
pub const SESSION_ID_KIND: &'static str = "id";

/// A pane as Herdr identifies it: the pane id can be reused, the terminal id cannot.
#[derive(Debug)]
pub struct PaneRef {
    pub pane_id: String,
    pub terminal_id: String,
}

impl PaneRef {
    /// Whether two references name the same pane.
    pub open spec fn same(self, other: PaneRef) -> bool {
        self.pane_id@ == other.pane_id@ && self.terminal_id@ == other.terminal_id@
    }

    /// Whether `self` and `other` name the same pane.
    pub fn same_pane(&self, other: &PaneRef) -> (r: bool)
        ensures
            r == self.same(*other),
    {
        self.pane_id == other.pane_id && self.terminal_id == other.terminal_id
    }

    /// A copy of this reference.
    pub fn copy(&self) -> (r: PaneRef)
        ensures
            r == *self,
    {
        PaneRef { pane_id: self.pane_id.clone(), terminal_id: self.terminal_id.clone() }
    }
}

impl PartialEq for PaneRef {
    fn eq(&self, other: &Self) -> (r: bool) {
        self.same_pane(other)
    }
}

impl vstd::std_specs::cmp::PartialEqSpecImpl for PaneRef {
    open spec fn obeys_eq_spec() -> bool {
        true
    }

    open spec fn eq_spec(&self, other: &PaneRef) -> bool {
        self.same(*other)
    }
}

impl Clone for PaneRef {
    fn clone(&self) -> (r: Self)
        ensures
            r == *self,
    {
        self.copy()
    }
}

/// The agent session Herdr reports for a pane.
#[derive(Debug)]
pub struct AgentSession {
    pub agent: String,
    pub kind: String,
    pub value: String,
}

/// A pane in Herdr's pane list.
#[derive(Debug)]
pub struct Pane {
    pub identity: PaneRef,
    pub agent: Option<String>,
    pub agent_session: Option<AgentSession>,
}

/// The OpenCode session a pane reports, if it reports one.
pub open spec fn reported_session(p: Pane) -> Option<Seq<char>> {
    match p.agent_session {
        Some(s) => if s.agent@ == OPENCODE@ && s.kind@ == SESSION_ID_KIND@ {
            Some(s.value@)
        } else {
            None
        },
        None => None,
    }
}

/// Whether Herdr reports OpenCode as the pane's agent.
pub open spec fn runs_opencode(p: Pane) -> bool {
    opt_text(p.agent) == Some(OPENCODE@)
}

impl Pane {
    /// The OpenCode session identifier of this pane: the value of its agent session when
    /// that session belongs to OpenCode and is of kind `id`.
    pub fn session(&self) -> (r: Option<&str>)
        ensures
            match r {
                Some(s) => reported_session(*self) == Some(s@),
                None => reported_session(*self) is None,
            },
    {
        match &self.agent_session {
            Some(s) => {
                if same_text(s.agent.as_str(), OPENCODE) && same_text(s.kind.as_str(), SESSION_ID_KIND) {
                    Some(s.value.as_str())
                } else {
                    None
                }
            },
            None => None,
        }
    }

    /// Whether Herdr reports OpenCode as this pane's agent.
    pub fn is_opencode(&self) -> (r: bool)
        ensures
            r == runs_opencode(*self),
    {
        match &self.agent {
            Some(a) => same_text(a.as_str(), OPENCODE),
            None => false,
        }
    }
}

/// A foreground process of a pane.
#[derive(Debug)]
pub struct Foreground {
    pub argv: Vec<String>,
    pub cwd: Option<String>,
}

/// The foreground processes of a pane.
#[derive(Debug)]
pub struct Processes {
    pub foreground_processes: Vec<Foreground>,
}


/// The plugin's identifier in Herdr.
pub const PLUGIN: &'static str = "herdr-sidebar";

pub const WORD_PANE: &'static str = "pane";
pub const WORD_LIST: &'static str = "list";
pub const WORD_PLUGIN: &'static str = "plugin";
pub const WORD_FOCUS: &'static str = "focus";
pub const WORD_OPEN: &'static str = "open";
pub const WORD_PROCESS_INFO: &'static str = "process-info";
pub const FLAG_PANE: &'static str = "--pane";
pub const FLAG_PLUGIN: &'static str = "--plugin";
pub const FLAG_ENTRYPOINT: &'static str = "--entrypoint";
pub const ENTRYPOINT_SESSION: &'static str = "session";
pub const FLAG_PLACEMENT: &'static str = "--placement";
pub const PLACEMENT_SPLIT: &'static str = "split";
pub const FLAG_DIRECTION: &'static str = "--direction";
pub const DIRECTION_RIGHT: &'static str = "right";
pub const FLAG_TARGET_PANE: &'static str = "--target-pane";
pub const FLAG_CWD: &'static str = "--cwd";
pub const FLAG_FOCUS: &'static str = "--focus";
pub const FLAG_ENV: &'static str = "--env";
pub const ENV_SESSION: &'static str = "HERDR_SIDEBAR_SESSION=";
pub const ENV_SERVER: &'static str = "HERDR_SIDEBAR_SERVER=";
pub const ENV_BIN: &'static str = "HERDR_SIDEBAR_BIN=";

fn texts_of(words: &[&str]) -> (r: Vec<String>)
    ensures
        r@.len() == words@.len(),
        forall|i: int| 0 <= i < words@.len() ==> (#[trigger] r@[i])@ == words@[i]@,
{
    let mut r: Vec<String> = Vec::new();
    let mut i: usize = 0;
    while i < words.len()
        invariant
            i <= words.len(),
            r@.len() == i,
            forall|k: int| 0 <= k < i ==> (#[trigger] r@[k])@ == words@[k]@,
        decreases words.len() - i,
    {
        r.push(owned(words[i]));
        i = i + 1;
    }
    r
}

/// The Herdr arguments that list the panes.
pub fn list_args() -> (r: Vec<String>)
    ensures
        texts(r@) == seq![WORD_PANE@, WORD_LIST@],
{
    let r = texts_of(&[WORD_PANE, WORD_LIST]);
    assert(texts(r@) =~= seq![WORD_PANE@, WORD_LIST@]);
    r
}

/// The Herdr arguments that report the processes of `pane`.
pub fn process_info_args(pane: &str) -> (r: Vec<String>)
    ensures
        texts(r@) == seq![WORD_PANE@, WORD_PROCESS_INFO@, FLAG_PANE@, pane@],
{
    let r = texts_of(&[WORD_PANE, WORD_PROCESS_INFO, FLAG_PANE, pane]);
    assert(texts(r@) =~= seq![WORD_PANE@, WORD_PROCESS_INFO@, FLAG_PANE@, pane@]);
    r
}

/// The Herdr arguments that focus plugin pane `pane`.
pub fn focus_args(pane: &str) -> (r: Vec<String>)
    ensures
        texts(r@) == seq![WORD_PLUGIN@, WORD_PANE@, WORD_FOCUS@, pane@],
{
    let r = texts_of(&[WORD_PLUGIN, WORD_PANE, WORD_FOCUS, pane]);
    assert(texts(r@) =~= seq![WORD_PLUGIN@, WORD_PANE@, WORD_FOCUS@, pane@]);
    r
}

/// The Herdr arguments that open the side pane: a split to the right of `source`, in
/// `cwd`, focused, whose environment names the fork, the server (empty when none) and the
/// OpenCode executable.
pub open spec fn spec_open_args(source: Seq<char>, cwd: Seq<char>, session: Seq<char>, connection: Connection) -> Seq<
    Seq<char>,
> {
    seq![
        WORD_PLUGIN@,
        WORD_PANE@,
        WORD_OPEN@,
        FLAG_PLUGIN@,
        PLUGIN@,
        FLAG_ENTRYPOINT@,
        ENTRYPOINT_SESSION@,
        FLAG_PLACEMENT@,
        PLACEMENT_SPLIT@,
        FLAG_DIRECTION@,
        DIRECTION_RIGHT@,
        FLAG_TARGET_PANE@,
        source,
        FLAG_CWD@,
        cwd,
        FLAG_FOCUS@,
        FLAG_ENV@,
        ENV_SESSION@ + session,
        FLAG_ENV@,
        ENV_SERVER@ + match opt_text(connection.server) {
            Some(s) => s,
            None => Seq::empty(),
        },
        FLAG_ENV@,
        ENV_BIN@ + connection.binary@,
    ]
}

/// The Herdr arguments that open the side pane for fork `session` beside `source`.
pub fn open_args(source: &str, cwd: &str, session: &str, connection: &Connection) -> (r: Vec<String>)
    ensures
        texts(r@) == spec_open_args(source@, cwd@, session@, *connection),
{
    let server: &str = match &connection.server {
        Some(s) => s.as_str(),
        None => "",
    };
    proof {
        reveal_strlit("");
    }
    let env_session = joined(ENV_SESSION, session);
    let env_server = joined(ENV_SERVER, server);
    let env_bin = joined(ENV_BIN, connection.binary.as_str());
    let r = texts_of(
        &[
            WORD_PLUGIN,
            WORD_PANE,
            WORD_OPEN,
            FLAG_PLUGIN,
            PLUGIN,
            FLAG_ENTRYPOINT,
            ENTRYPOINT_SESSION,
            FLAG_PLACEMENT,
            PLACEMENT_SPLIT,
            FLAG_DIRECTION,
            DIRECTION_RIGHT,
            FLAG_TARGET_PANE,
            source,
            FLAG_CWD,
            cwd,
            FLAG_FOCUS,
            FLAG_ENV,
            env_session.as_str(),
            FLAG_ENV,
            env_server.as_str(),
            FLAG_ENV,
            env_bin.as_str(),
        ],
    );
    assert(texts(r@) =~= spec_open_args(source@, cwd@, session@, *connection));
    r
}

/// How far the side pane got in attaching to its fork.
#[derive(Debug)]
pub enum Attachment {
    /// OpenCode runs in the pane and shows the fork.
    Ready,
    /// The pane exists but does not show the fork yet.
    Starting,
    /// The pane is gone.
    Closed,
}

/// Whether `p` is the side pane and shows fork `session` in OpenCode.
pub open spec fn shows_session(p: Pane, session: Seq<char>) -> bool {
    runs_opencode(p) && reported_session(p) == Some(session)
}

/// The first pane in the list that is `side`.
pub open spec fn first_pane(panes: Seq<Pane>, side: PaneRef) -> Option<int> {
    if exists|i: int| 0 <= i < panes.len() && (#[trigger] panes[i]).identity.same(side) {
        Some(
            choose|i: int|
                0 <= i < panes.len() && (#[trigger] panes[i]).identity.same(side) && (forall|j: int|
                    0 <= j < i ==> !(#[trigger] panes[j]).identity.same(side)),
        )
    } else {
        None
    }
}

/// Some pane is `side` at or before position `i`, so a first one exists.
proof fn lemma_min_pane(panes: Seq<Pane>, side: PaneRef, i: int)
    requires
        0 <= i < panes.len(),
        panes[i].identity.same(side),
    ensures
        exists|k: int|
            0 <= k < panes.len() && (#[trigger] panes[k]).identity.same(side) && (forall|j: int|
                0 <= j < k ==> !(#[trigger] panes[j]).identity.same(side)),
    decreases i,
{
    if exists|j: int| 0 <= j < i && (#[trigger] panes[j]).identity.same(side) {
        let j = choose|j: int| 0 <= j < i && (#[trigger] panes[j]).identity.same(side);
        lemma_min_pane(panes, side, j);
    } else {
        assert(forall|j: int| 0 <= j < i ==> !(#[trigger] panes[j]).identity.same(side));
    }
}

/// The side pane's entry is the first listed pane that is `side`, and there is none exactly
/// when no listed pane is `side`.
pub proof fn lemma_first_pane(panes: Seq<Pane>, side: PaneRef)
    ensures
        first_pane(panes, side) matches Some(k) ==> {
            &&& 0 <= k < panes.len()
            &&& panes[k].identity.same(side)
            &&& forall|j: int| 0 <= j < k ==> !(#[trigger] panes[j]).identity.same(side)
        },
        first_pane(panes, side) is None ==> forall|j: int|
            0 <= j < panes.len() ==> !(#[trigger] panes[j]).identity.same(side),
{
    if exists|i: int| 0 <= i < panes.len() && (#[trigger] panes[i]).identity.same(side) {
        let i = choose|i: int| 0 <= i < panes.len() && (#[trigger] panes[i]).identity.same(side);
        lemma_min_pane(panes, side, i);
    }
}

/// How far the side pane `side` got in showing fork `session`, judged from a pane list.
pub open spec fn attachment(panes: Seq<Pane>, side: PaneRef, session: Seq<char>) -> Attachment {
    match first_pane(panes, side) {
        None => Attachment::Closed,
        Some(i) => if shows_session(panes[i], session) {
            Attachment::Ready
        } else {
            Attachment::Starting
        },
    }
}

/// Judges from Herdr's pane list whether side pane `side` shows fork `session` yet.
pub fn attach_progress(panes: &Vec<Pane>, side: &PaneRef, session: &str) -> (r: Attachment)
    ensures
        r == attachment(panes@, *side, session@),
{
    let mut i: usize = 0;
    while i < panes.len()
        invariant
            i <= panes.len(),
            forall|j: int| 0 <= j < i ==> !(#[trigger] panes@[j]).identity.same(*side),
        decreases panes.len() - i,
    {
        let p = &panes[i];
        if p.identity.same_pane(side) {
            proof {
                let ghost ps = panes@;
                let k = choose|k: int|
                    0 <= k < ps.len() && (#[trigger] ps[k]).identity.same(*side) && (forall|j: int|
                        0 <= j < k ==> !(#[trigger] ps[j]).identity.same(*side));
                if k < i {
                } else if k > i {
                    assert(!ps[i as int].identity.same(*side));
                }
                assert(first_pane(ps, *side) == Some(i as int));
            }
            let shows = p.is_opencode() && match p.session() {
                Some(s) => same_text(s, session),
                None => false,
            };
            return if shows {
                Attachment::Ready
            } else {
                Attachment::Starting
            };
        }
        i = i + 1;
    }
    Attachment::Closed
}

/// Judges the wait for side pane `side` to show fork `session`, from the progress seen at
/// the last pane listing and the time left: done once it is ready (`Ok(true)`), refused
/// once it closed, refused when no time is left, and otherwise listed again (`Ok(false)`).
/// Before the first listing the progress is `Starting`.
pub fn attach_wait(remaining_ms: u64, progress: Attachment, side: &PaneRef, session: &String) -> (r: Result<
    bool,
    SidebarError,
>)
    ensures
        progress is Ready ==> r == Ok::<bool, SidebarError>(true),
        progress is Closed ==> r == Err::<bool, SidebarError>(SidebarError::SideClosed),
        progress is Starting && remaining_ms == 0 ==> r == Err::<bool, SidebarError>(
            SidebarError::AttachTimeout { pane: side.pane_id, session: *session },
        ),
        progress is Starting && remaining_ms > 0 ==> r == Ok::<bool, SidebarError>(false),
{
    match progress {
        Attachment::Ready => Ok(true),
        Attachment::Closed => Err(SidebarError::SideClosed),
        Attachment::Starting => if remaining_ms == 0 {
            Err(SidebarError::AttachTimeout { pane: side.pane_id.clone(), session: session.clone() })
        } else {
            Ok(false)
        },
    }
}

/// The side pane is judged by the first listed pane that is it: ready exactly when Herdr
/// reports `opencode` as that pane's agent and an OpenCode session of kind `id` whose value
/// is `session`; closed exactly when no listed pane is it; starting otherwise, so a pane
/// whose agent is not OpenCode is never ready.
pub proof fn lemma_attachment_fields(panes: Seq<Pane>, side: PaneRef, session: Seq<char>)
    ensures
        (attachment(panes, side, session) is Closed) <==> (forall|j: int|
            0 <= j < panes.len() ==> !(#[trigger] panes[j]).identity.same(side)),
        (attachment(panes, side, session) is Ready) <==> (exists|k: int|
            {
                &&& 0 <= k < panes.len()
                &&& (#[trigger] panes[k]).identity.same(side)
                &&& forall|j: int| 0 <= j < k ==> !(#[trigger] panes[j]).identity.same(side)
                &&& panes[k].agent matches Some(agent) && agent@ == "opencode"@
                &&& panes[k].agent_session matches Some(s) && s.agent@ == "opencode"@ && s.kind@ == "id"@
                    && s.value@ == session
            }),
{
    reveal_strlit("opencode");
    reveal_strlit("id");
    lemma_first_pane(panes, side);
    if let Some(k) = first_pane(panes, side) {
        assert forall|k2: int|
            {
                &&& 0 <= k2 < panes.len()
                &&& (#[trigger] panes[k2]).identity.same(side)
                &&& forall|j: int| 0 <= j < k2 ==> !(#[trigger] panes[j]).identity.same(side)
            } implies k2 == k by {
            if k2 < k {
                assert(panes[k2].identity.same(side));
            } else if k < k2 {
                assert(!panes[k].identity.same(side));
            }
        }
    }
}

} // verus!
