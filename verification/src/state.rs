//! The durable record of side panes and of operations in progress.
use vstd::prelude::*;
use crate::error::SidebarError;
use crate::herdr::PaneRef;
use crate::opencode::Connection;

verus! {

/// A source pane whose conversation has a fork shown in a side pane, on one Herdr server.
#[derive(Debug)]
pub struct Link {
    pub socket: String,
    pub source: PaneRef,
    pub side: PaneRef,
    pub session_id: String,
}

impl Link {
    /// A copy of this link.
    pub fn copy(&self) -> (r: Link)
        ensures
            r == *self,
    {
        Link {
            socket: self.socket.clone(),
            source: self.source.copy(),
            side: self.side.copy(),
            session_id: self.session_id.clone(),
        }
    }
}

impl Clone for Link {
    fn clone(&self) -> (r: Self)
        ensures
            r == *self,
    {
        self.copy()
    }
}

/// How far an operation in progress got.
#[derive(Debug)]
pub enum Stage {
    /// Written before the fork request: a lost answer must not cause another fork.
    Forking,
    /// The fork exists and is known.
    Forked { session_id: String },
    /// Written before the side pane is opened; the answer may be lost after the pane opened.
    Opening { session_id: String, side: Option<PaneRef> },
}

impl Stage {
    /// A copy of this stage.
    pub fn copy(&self) -> (r: Stage)
        ensures
            r == *self,
    {
        match self {
            Stage::Forking => Stage::Forking,
            Stage::Forked { session_id } => Stage::Forked { session_id: session_id.clone() },
            Stage::Opening { session_id, side } => Stage::Opening {
                session_id: session_id.clone(),
                side: match side {
                    Some(p) => Some(p.copy()),
                    None => None,
                },
            },
        }
    }
}

impl Clone for Stage {
    fn clone(&self) -> (r: Self)
        ensures
            r == *self,
    {
        self.copy()
    }
}

/// An operation in progress: forking the conversation of `source` and showing the fork
/// beside it.
#[derive(Debug)]
pub struct Pending {
    pub socket: String,
    pub source: PaneRef,
    pub parent_id: String,
    pub connection: Connection,
    pub cwd: String,
    pub stage: Stage,
}

impl Pending {
    /// A copy of this operation.
    pub fn copy(&self) -> (r: Pending)
        ensures
            r == *self,
    {
        Pending {
            socket: self.socket.clone(),
            source: self.source.copy(),
            parent_id: self.parent_id.clone(),
            connection: self.connection.copy(),
            cwd: self.cwd.clone(),
            stage: self.stage.copy(),
        }
    }
}

impl Clone for Pending {
    fn clone(&self) -> (r: Self)
        ensures
            r == *self,
    {
        self.copy()
    }
}

/// The version of the record that this program writes.
pub const CURRENT_VERSION: u32 = 2;

/// The version of a record written before records carried a version.
pub const LEGACY_VERSION: u32 = 1;

/// The version assumed for a record that does not name one.
pub fn legacy_version() -> (r: u32)
    ensures
        r == LEGACY_VERSION,
{
    LEGACY_VERSION
}

/// Judges one attempt to lock the store: locked, keep waiting (`Ok(false)`) while less than
/// `timeout_ms` milliseconds have passed, or give up because another invocation holds it.
pub fn lock_wait(locked: bool, elapsed_ms: u64, timeout_ms: u64) -> (r: Result<bool, SidebarError>)
    ensures
        locked ==> r == Ok::<bool, SidebarError>(true),
        !locked && elapsed_ms < timeout_ms ==> r == Ok::<bool, SidebarError>(false),
        !locked && elapsed_ms >= timeout_ms ==> r == Err::<bool, SidebarError>(SidebarError::StoreBusy),
{
    if locked {
        Ok(true)
    } else if elapsed_ms < timeout_ms {
        Ok(false)
    } else {
        Err(SidebarError::StoreBusy)
    }
}

/// All side panes and operations in progress.
#[derive(Debug)]
pub struct State {
    pub version: u32,
    pub links: Vec<Link>,
    pub pending: Vec<Pending>,
}

impl Default for State {
    fn default() -> (r: Self)
        ensures
            r.version == CURRENT_VERSION,
            r.links@.len() == 0,
            r.pending@.len() == 0,
    {
        State { version: CURRENT_VERSION, links: Vec::new(), pending: Vec::new() }
    }
}

/// Whether `p` is among the live panes.
pub open spec fn is_live(live: Seq<PaneRef>, p: PaneRef) -> bool {
    exists|i: int| 0 <= i < live.len() && (#[trigger] live[i]).same(p)
}

/// Whether a link survives pruning: it belongs to another server, or its side pane is live.
pub open spec fn keeps(link: Link, socket: Seq<char>, live: Seq<PaneRef>) -> bool {
    link.socket@ != socket || is_live(live, link.side)
}

/// The pruning predicate for one server and its live panes.
pub open spec fn keep_pred(socket: Seq<char>, live: Seq<PaneRef>) -> spec_fn(Link) -> bool {
    |l: Link| keeps(l, socket, live)
}

/// Whether a link of this server shows `current` as its side pane (`by_side`) or as its
/// source pane.
pub open spec fn link_matches(l: Link, socket: Seq<char>, current: PaneRef, by_side: bool) -> bool {
    l.socket@ == socket && (if by_side {
        l.side.same(current)
    } else {
        l.source.same(current)
    })
}

/// The first link from position `i` on that matches.
pub open spec fn first_link(
    ls: Seq<Link>,
    i: int,
    socket: Seq<char>,
    current: PaneRef,
    by_side: bool,
) -> Option<Link>
    decreases ls.len() - i,
{
    if i < 0 || i >= ls.len() {
        None
    } else if link_matches(ls[i], socket, current, by_side) {
        Some(ls[i])
    } else {
        first_link(ls, i + 1, socket, current, by_side)
    }
}

/// The link that `current` reuses among `ls`: the first whose side pane is `current`,
/// otherwise the first whose source pane is `current`.
pub open spec fn reused_link(ls: Seq<Link>, socket: Seq<char>, current: PaneRef) -> Option<Link> {
    match first_link(ls, 0, socket, current, true) {
        Some(l) => Some(l),
        None => first_link(ls, 0, socket, current, false),
    }
}

/// One step of a filter over a growing prefix.
pub proof fn lemma_filter_take<A>(s: Seq<A>, i: int, pred: spec_fn(A) -> bool)
    requires
        0 <= i < s.len(),
    ensures
        s.take(i + 1).filter(pred) == (if pred(s[i]) {
            s.take(i).filter(pred).push(s[i])
        } else {
            s.take(i).filter(pred)
        }),
{
    reveal(Seq::filter);
    assert(s.take(i + 1).drop_last() =~= s.take(i));
}

/// Filtering a sequence whose elements all satisfy the predicate leaves it unchanged.
pub proof fn lemma_filter_all<A>(s: Seq<A>, pred: spec_fn(A) -> bool)
    requires
        forall|i: int| 0 <= i < s.len() ==> pred(#[trigger] s[i]),
    ensures
        s.filter(pred) == s,
    decreases s.len(),
{
    reveal(Seq::filter);
    if s.len() > 0 {
        lemma_filter_all(s.drop_last(), pred);
        assert(s.drop_last().push(s.last()) =~= s);
    }
}

/// Whether some live pane is `p`.
fn live_contains(live: &[PaneRef], p: &PaneRef) -> (r: bool)
    ensures
        r == is_live(live@, *p),
{
    let mut i: usize = 0;
    while i < live.len()
        invariant
            i <= live.len(),
            forall|k: int| 0 <= k < i ==> !(#[trigger] live@[k]).same(*p),
        decreases live.len() - i,
    {
        if live[i].same_pane(p) {
            return true;
        }
        i = i + 1;
    }
    false
}

/// The position of the first link from position 0 on that matches.
fn find_link(ls: &Vec<Link>, socket: &str, current: &PaneRef, by_side: bool) -> (r: Option<usize>)
    ensures
        match r {
            Some(i) => i < ls@.len() && first_link(ls@, 0, socket@, *current, by_side) == Some(
                ls@[i as int],
            ),
            None => first_link(ls@, 0, socket@, *current, by_side) is None,
        },
{
    let mut i: usize = 0;
    while i < ls.len()
        invariant
            i <= ls.len(),
            first_link(ls@, 0, socket@, *current, by_side) == first_link(
                ls@,
                i as int,
                socket@,
                *current,
                by_side,
            ),
        decreases ls.len() - i,
    {
        let l = &ls[i];
        let pane_ok = if by_side {
            l.side.same_pane(current)
        } else {
            l.source.same_pane(current)
        };
        if crate::text::same_text(l.socket.as_str(), socket) && pane_ok {
            return Some(i);
        }
        i = i + 1;
    }
    None
}

impl State {
    /// The link that pane `current` of server `socket` already has.  First drops the
    /// links of this server whose side pane is no longer live; links of other servers
    /// are kept.  Then looks for a link whose side pane is `current`, which finds the
    /// mapping even after its source pane closed, and otherwise for one whose source pane
    /// is `current`.
    pub fn existing(&mut self, socket: &str, current: &PaneRef, live: &[PaneRef]) -> (r: Option<
        Link,
    >)
        ensures
            final(self).links@ == old(self).links@.filter(keep_pred(socket@, live@)),
            final(self).pending@ == old(self).pending@,
            final(self).version == old(self).version,
            r == reused_link(final(self).links@, socket@, *current),
    {
        let ghost pred = keep_pred(socket@, live@);
        let mut kept: Vec<Link> = Vec::new();
        let mut i: usize = 0;
        while i < self.links.len()
            invariant
                i <= self.links.len(),
                pred == keep_pred(socket@, live@),
                kept@ == self.links@.take(i as int).filter(pred),
            decreases self.links.len() - i,
        {
            proof {
                lemma_filter_take(self.links@, i as int, pred);
            }
            let l = &self.links[i];
            if !crate::text::same_text(l.socket.as_str(), socket) || live_contains(live, &l.side) {
                kept.push(l.copy());
            }
            i = i + 1;
        }
        assert(self.links@.take(self.links@.len() as int) =~= self.links@);
        self.links = kept;
        let found = match find_link(&self.links, socket, current, true) {
            Some(i) => Some(i),
            None => find_link(&self.links, socket, current, false),
        };
        match found {
            Some(i) => Some(self.links[i].copy()),
            None => None,
        }
    }
}


/// Whether an operation in progress belongs to pane `source` of server `socket`.
pub open spec fn pending_matches(p: Pending, socket: Seq<char>, source: PaneRef) -> bool {
    p.socket@ == socket && p.source.same(source)
}

/// The position of the first operation in progress of pane `source` of server `socket`.
pub open spec fn first_pending(ps: Seq<Pending>, socket: Seq<char>, source: PaneRef) -> Option<int> {
    if exists|i: int| 0 <= i < ps.len() && pending_matches(#[trigger] ps[i], socket, source) {
        Some(
            choose|i: int|
                0 <= i < ps.len() && pending_matches(#[trigger] ps[i], socket, source) && (forall|j: int|
                    0 <= j < i ==> !pending_matches(#[trigger] ps[j], socket, source)),
        )
    } else {
        None
    }
}

/// Whether the record's version is one this program reads.
pub open spec fn known_version(v: u32) -> bool {
    LEGACY_VERSION <= v <= CURRENT_VERSION
}

impl State {
    /// The position of the operation in progress of pane `source` of server `socket`.
    pub fn pending_position(&self, socket: &str, source: &PaneRef) -> (r: Option<usize>)
        ensures
            match r {
                Some(i) => i < self.pending@.len() && first_pending(self.pending@, socket@, *source)
                    == Some(i as int),
                None => first_pending(self.pending@, socket@, *source) is None,
            },
    {
        let mut i: usize = 0;
        while i < self.pending.len()
            invariant
                i <= self.pending.len(),
                forall|j: int|
                    0 <= j < i ==> !pending_matches(#[trigger] self.pending@[j], socket@, *source),
            decreases self.pending.len() - i,
        {
            let p = &self.pending[i];
            if crate::text::same_text(p.socket.as_str(), socket) && p.source.same_pane(source) {
                proof {
                    let ghost ps = self.pending@;
                    assert(pending_matches(ps[i as int], socket@, *source));
                    let k = choose|k: int|
                        0 <= k < ps.len() && pending_matches(#[trigger] ps[k], socket@, *source) && (
                        forall|j: int| 0 <= j < k ==> !pending_matches(#[trigger] ps[j], socket@, *source));
                    if k < i {
                    } else if k > i {
                        assert(!pending_matches(ps[i as int], socket@, *source));
                    }
                }
                return Some(i);
            }
            i = i + 1;
        }
        None
    }

    /// The record as this program keeps it: a record of a known version is carried to the
    /// current version with its links and operations unchanged; any other is refused.
    pub fn upgraded(self) -> (r: Result<State, SidebarError>)
        ensures
            known_version(self.version) ==> (r matches Ok(s) && s.version == CURRENT_VERSION
                && s.links == self.links && s.pending == self.pending),
            !known_version(self.version) ==> r == Err::<State, SidebarError>(
                SidebarError::UnsupportedVersion { version: self.version },
            ),
    {
        if LEGACY_VERSION <= self.version && self.version <= CURRENT_VERSION {
            Ok(State { version: CURRENT_VERSION, links: self.links, pending: self.pending })
        } else {
            Err(SidebarError::UnsupportedVersion { version: self.version })
        }
    }
}

/// The first matching link from position `i` on is one of the links, and it matches.
pub proof fn lemma_first_link(ls: Seq<Link>, i: int, socket: Seq<char>, current: PaneRef, by_side: bool)
    ensures
        first_link(ls, i, socket, current, by_side) matches Some(l) ==> (ls.contains(l)
            && link_matches(l, socket, current, by_side)),
    decreases ls.len() - i,
{
    if 0 <= i < ls.len() && !link_matches(ls[i], socket, current, by_side) {
        lemma_first_link(ls, i + 1, socket, current, by_side);
    }
}

/// A mapping that a pane reuses belongs to its server, shows that pane as its side or
/// its source, was already recorded, and its side pane is live.
pub proof fn lemma_reused_link_is_live(
    links: Seq<Link>,
    socket: Seq<char>,
    current: PaneRef,
    live: Seq<PaneRef>,
)
    ensures
        reused_link(links.filter(keep_pred(socket, live)), socket, current) matches Some(l) ==> {
            &&& links.contains(l)
            &&& l.socket@ == socket
            &&& (l.side.same(current) || l.source.same(current))
            &&& is_live(live, l.side)
        },
{
    let pred = keep_pred(socket, live);
    let kept = links.filter(pred);
    #[allow(deprecated)]
    links.filter_lemma(pred);
    lemma_first_link(kept, 0, socket, current, true);
    lemma_first_link(kept, 0, socket, current, false);
    if let Some(l) = reused_link(kept, socket, current) {
        let k = choose|k: int| 0 <= k < kept.len() && kept[k] == l;
        assert(pred(kept[k]));
        lemma_filter_subset(links, pred, k);
    }
}

/// Every element of a filtered sequence comes from the sequence.
pub proof fn lemma_filter_subset<A>(s: Seq<A>, pred: spec_fn(A) -> bool, k: int)
    requires
        0 <= k < s.filter(pred).len(),
    ensures
        s.contains(s.filter(pred)[k]),
    decreases s.len(),
{
    reveal(Seq::filter);
    if s.len() > 0 {
        let sub = s.drop_last().filter(pred);
        if k < sub.len() {
            lemma_filter_subset(s.drop_last(), pred, k);
            let j = choose|j: int| 0 <= j < s.drop_last().len() && s.drop_last()[j] == sub[k];
            assert(s[j] == s.filter(pred)[k]);
        } else {
            assert(s[s.len() - 1] == s.filter(pred)[k]);
        }
    }
}

/// Pruning never drops the links of other Herdr servers.
pub proof fn lemma_other_servers_kept(links: Seq<Link>, socket: Seq<char>, live: Seq<PaneRef>, i: int)
    requires
        0 <= i < links.len(),
        links[i].socket@ != socket,
    ensures
        links.filter(keep_pred(socket, live)).contains(links[i]),
{
    #[allow(deprecated)]
    links.filter_lemma(keep_pred(socket, live));
}

/// Pruning twice prunes nothing more, so looking a pane up again with the same live panes
/// changes nothing and finds the same mapping.
pub proof fn lemma_existing_settles(
    links: Seq<Link>,
    socket: Seq<char>,
    current: PaneRef,
    live: Seq<PaneRef>,
)
    ensures
        links.filter(keep_pred(socket, live)).filter(keep_pred(socket, live)) == links.filter(
            keep_pred(socket, live),
        ),
        reused_link(links.filter(keep_pred(socket, live)).filter(keep_pred(socket, live)), socket, current)
            == reused_link(links.filter(keep_pred(socket, live)), socket, current),
{
    let pred = keep_pred(socket, live);
    #[allow(deprecated)]
    links.filter_lemma(pred);
    lemma_filter_all(links.filter(pred), pred);
}


impl State {
    /// A copy of the record.
    pub fn copy(&self) -> (r: State)
        ensures
            r.version == self.version,
            r.links@ == self.links@,
            r.pending@ == self.pending@,
    {
        let mut links: Vec<Link> = Vec::new();
        let mut i: usize = 0;
        while i < self.links.len()
            invariant
                i <= self.links.len(),
                links@ == self.links@.take(i as int),
            decreases self.links.len() - i,
        {
            links.push(self.links[i].copy());
            assert(self.links@.take(i + 1) =~= self.links@.take(i as int).push(self.links@[i as int]));
            i = i + 1;
        }
        let mut pending: Vec<Pending> = Vec::new();
        let mut j: usize = 0;
        while j < self.pending.len()
            invariant
                j <= self.pending.len(),
                pending@ == self.pending@.take(j as int),
            decreases self.pending.len() - j,
        {
            pending.push(self.pending[j].copy());
            assert(self.pending@.take(j + 1) =~= self.pending@.take(j as int).push(self.pending@[j as int]));
            j = j + 1;
        }
        assert(links@ =~= self.links@);
        assert(pending@ =~= self.pending@);
        State { version: self.version, links, pending }
    }
}


impl State {
    /// Moves operation `i` to stage `stage`.
    pub fn set_stage(&mut self, i: usize, stage: Stage)
        requires
            i < old(self).pending@.len(),
        ensures
            final(self).pending@ == old(self).pending@.update(
                i as int,
                Pending { stage, ..old(self).pending@[i as int] },
            ),
            final(self).links@ == old(self).links@,
            final(self).version == old(self).version,
    {
        let p = self.pending[i].copy();
        let updated = Pending { stage, ..p };
        self.pending.set(i, updated);
    }
}


/// Some operation of pane `source` of server `socket` comes first.
proof fn lemma_min_pending(ps: Seq<Pending>, socket: Seq<char>, source: PaneRef, i: int)
    requires
        0 <= i < ps.len(),
        pending_matches(ps[i], socket, source),
    ensures
        exists|k: int|
            0 <= k < ps.len() && pending_matches(#[trigger] ps[k], socket, source) && (forall|j: int|
                0 <= j < k ==> !pending_matches(#[trigger] ps[j], socket, source)),
    decreases i,
{
    if exists|j: int| 0 <= j < i && pending_matches(#[trigger] ps[j], socket, source) {
        let j = choose|j: int| 0 <= j < i && pending_matches(#[trigger] ps[j], socket, source);
        lemma_min_pending(ps, socket, source, j);
    } else {
        assert(0 <= i < ps.len() && pending_matches(ps[i], socket, source) && (forall|j: int|
            0 <= j < i ==> !pending_matches(#[trigger] ps[j], socket, source)));
    }
}

/// The first operation of a pane is one of its operations, and no earlier one is.
pub proof fn lemma_first_pending(ps: Seq<Pending>, socket: Seq<char>, source: PaneRef)
    ensures
        first_pending(ps, socket, source) matches Some(i) ==> {
            &&& 0 <= i < ps.len()
            &&& pending_matches(ps[i], socket, source)
            &&& forall|j: int| 0 <= j < i ==> !pending_matches(#[trigger] ps[j], socket, source)
        },
{
    if exists|i: int| 0 <= i < ps.len() && pending_matches(#[trigger] ps[i], socket, source) {
        let i = choose|i: int| 0 <= i < ps.len() && pending_matches(#[trigger] ps[i], socket, source);
        lemma_min_pending(ps, socket, source, i);
    }
}

/// Two records whose operations match the same pane at the same positions find the same
/// first operation for it.
pub proof fn lemma_first_pending_agree(
    ps: Seq<Pending>,
    qs: Seq<Pending>,
    socket: Seq<char>,
    a: PaneRef,
    b: PaneRef,
)
    requires
        ps.len() == qs.len(),
        forall|j: int|
            0 <= j < ps.len() ==> pending_matches(#[trigger] ps[j], socket, a) == pending_matches(
                qs[j],
                socket,
                b,
            ),
    ensures
        first_pending(ps, socket, a) == first_pending(qs, socket, b),
{
    lemma_first_pending(ps, socket, a);
    lemma_first_pending(qs, socket, b);
    if let Some(i) = first_pending(ps, socket, a) {
        assert(pending_matches(qs[i], socket, b));
        let i2 = first_pending(qs, socket, b)->0;
        if i2 < i {
            assert(pending_matches(ps[i2], socket, a));
        } else if i < i2 {
            assert(!pending_matches(qs[i], socket, b));
        }
    } else if let Some(i2) = first_pending(qs, socket, b) {
        assert(pending_matches(ps[i2], socket, a));
    }
}

/// An operation added for a pane that had none is that pane's first.
pub proof fn lemma_first_pending_push(ps: Seq<Pending>, socket: Seq<char>, p: Pending)
    requires
        first_pending(ps, socket, p.source) is None,
        p.socket@ == socket,
    ensures
        first_pending(ps.push(p), socket, p.source) == Some(ps.len() as int),
{
    let qs = ps.push(p);
    assert(pending_matches(qs[ps.len() as int], socket, p.source));
    lemma_first_pending(qs, socket, p.source);
    let k = first_pending(qs, socket, p.source)->0;
    if k < ps.len() {
        assert(pending_matches(ps[k], socket, p.source));
    }
}

/// Changing an operation's stage changes no pane's first operation.
pub proof fn lemma_first_pending_stage(ps: Seq<Pending>, i: int, stage: Stage, socket: Seq<char>, a: PaneRef)
    requires
        0 <= i < ps.len(),
    ensures
        first_pending(ps.update(i, Pending { stage, ..ps[i] }), socket, a) == first_pending(ps, socket, a),
{
    let qs = ps.update(i, Pending { stage, ..ps[i] });
    assert forall|j: int| 0 <= j < qs.len() implies pending_matches(#[trigger] qs[j], socket, a) == pending_matches(
        ps[j],
        socket,
        a,
    ) by {}
    lemma_first_pending_agree(qs, ps, socket, a, a);
}

/// No link from position `i` on matches when none is found there.
pub proof fn lemma_first_link_none(ls: Seq<Link>, i: int, socket: Seq<char>, current: PaneRef, by_side: bool)
    requires
        0 <= i,
        first_link(ls, i, socket, current, by_side) is None,
    ensures
        forall|j: int| i <= j < ls.len() ==> !link_matches(#[trigger] ls[j], socket, current, by_side),
    decreases ls.len() - i,
{
    if i < ls.len() {
        lemma_first_link_none(ls, i + 1, socket, current, by_side);
    }
}

/// A mapping that no link names a pane for is not found once links are pruned, nor for
/// any reference to the same pane.
pub proof fn lemma_no_reused_link_after_pruning(
    links: Seq<Link>,
    socket: Seq<char>,
    a: PaneRef,
    b: PaneRef,
    live: Seq<PaneRef>,
)
    requires
        reused_link(links, socket, a) is None,
        a.same(b),
    ensures
        reused_link(links.filter(keep_pred(socket, live)), socket, b) is None,
{
    lemma_first_link_none(links, 0, socket, a, true);
    lemma_first_link_none(links, 0, socket, a, false);
    lemma_reused_link_is_live(links, socket, b, live);
    if let Some(l) = reused_link(links.filter(keep_pred(socket, live)), socket, b) {
        let j = choose|j: int| 0 <= j < links.len() && links[j] == l;
        assert(!link_matches(links[j], socket, a, true));
        assert(!link_matches(links[j], socket, a, false));
    }
}

/// Looking up a link depends only on which pane a reference names.
pub proof fn lemma_first_link_same(ls: Seq<Link>, i: int, socket: Seq<char>, a: PaneRef, b: PaneRef, by_side: bool)
    requires
        a.same(b),
    ensures
        first_link(ls, i, socket, a, by_side) == first_link(ls, i, socket, b, by_side),
    decreases ls.len() - i,
{
    if 0 <= i < ls.len() {
        lemma_first_link_same(ls, i + 1, socket, a, b, by_side);
    }
}

/// A pane reuses link `l` when `l` names it and every other link of its server that names
/// it the way the lookup tries first names it no differently: every link showing the pane
/// as its side pane is `l`, and, unless `l` shows it as its side pane, every link with the
/// pane as its source is `l`.
pub proof fn lemma_reused_link_unique(ls: Seq<Link>, socket: Seq<char>, current: PaneRef, l: Link)
    requires
        ls.contains(l),
        l.socket@ == socket,
        l.side.same(current) || l.source.same(current),
        forall|j: int|
            0 <= j < ls.len() && link_matches(#[trigger] ls[j], socket, current, true) ==> ls[j] == l,
        !l.side.same(current) ==> forall|j: int|
            0 <= j < ls.len() && link_matches(#[trigger] ls[j], socket, current, false) ==> ls[j] == l,
    ensures
        reused_link(ls, socket, current) == Some(l),
{
    let x = choose|x: int| 0 <= x < ls.len() && ls[x] == l;
    lemma_first_link(ls, 0, socket, current, true);
    lemma_first_link(ls, 0, socket, current, false);
    if let Some(f) = first_link(ls, 0, socket, current, true) {
        let y = choose|y: int| 0 <= y < ls.len() && ls[y] == f;
        assert(link_matches(ls[y], socket, current, true));
    } else {
        lemma_first_link_none(ls, 0, socket, current, true);
        assert(!link_matches(ls[x], socket, current, true));
        if let Some(f) = first_link(ls, 0, socket, current, false) {
            let y = choose|y: int| 0 <= y < ls.len() && ls[y] == f;
            assert(link_matches(ls[y], socket, current, false));
        } else {
            lemma_first_link_none(ls, 0, socket, current, false);
            assert(!link_matches(ls[x], socket, current, false));
        }
    }
}

/// When the last link is the only one of its server naming its source pane and its side
/// pane is live, pruning keeps it and a lookup finds it: from its source pane, and from its
/// side pane when no earlier link of the server shows that side pane.
pub proof fn lemma_last_link_is_reused(links: Seq<Link>, socket: Seq<char>, current: PaneRef, live: Seq<PaneRef>)
    requires
        links.len() > 0,
        links.last().socket@ == socket,
        reused_link(links.drop_last(), socket, links.last().source) is None,
        is_live(live, links.last().side),
        current.same(links.last().source) || (current.same(links.last().side) && forall|i: int|
            0 <= i < links.len() - 1 && (#[trigger] links[i]).socket@ == socket ==> !links[i].side.same(
                links.last().side,
            )),
    ensures
        reused_link(links.filter(keep_pred(socket, live)), socket, current) == Some(links.last()),
{
    let recorded = links.last();
    let old_links = links.drop_last();
    let pred = keep_pred(socket, live);
    let kept = links.filter(pred);
    assert(pred(recorded));
    #[allow(deprecated)]
    links.filter_lemma(pred);
    assert(links[links.len() - 1] == recorded);
    assert(kept.contains(recorded));
    let by_source = current.same(recorded.source);
    if by_source {
        lemma_first_link_same(old_links, 0, socket, recorded.source, current, true);
        lemma_first_link_same(old_links, 0, socket, recorded.source, current, false);
        lemma_first_link_none(old_links, 0, socket, current, true);
        lemma_first_link_none(old_links, 0, socket, current, false);
    }
    assert forall|j: int|
        0 <= j < kept.len() && link_matches(#[trigger] kept[j], socket, current, true) implies kept[j]
        == recorded by {
        lemma_filter_subset(links, pred, j);
        let y = choose|y: int| 0 <= y < links.len() && links[y] == kept[j];
        if y < links.len() - 1 {
            assert(old_links[y] == links[y]);
        }
    }
    assert forall|j: int|
        0 <= j < kept.len() && link_matches(#[trigger] kept[j], socket, current, false)
            && !recorded.side.same(current) implies kept[j] == recorded by {
        lemma_filter_subset(links, pred, j);
        let y = choose|y: int| 0 <= y < links.len() && links[y] == kept[j];
        if y < links.len() - 1 {
            assert(old_links[y] == links[y]);
        }
    }
    lemma_reused_link_unique(kept, socket, current, recorded);
}

} // verus!
