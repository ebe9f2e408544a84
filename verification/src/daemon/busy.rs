//! Servers being worked on. The daemon's turn and an update asked for in game never work
//! on one server at once: each claims the server first, and one that finds it claimed
//! stays away.

use vstd::prelude::*;
use crate::text::{clone_string, sviews};

verus! {

/// The servers claimed, each once.
pub struct BusySet {
    ids: Vec<String>,
}

impl View for BusySet {
    type V = Seq<Seq<char>>;

    closed spec fn view(&self) -> Seq<Seq<char>> {
        sviews(self.ids@)
    }
}

impl BusySet {
    pub open spec fn wf(&self) -> bool {
        self@.no_duplicates()
    }

    pub fn new() -> (r: BusySet)
        ensures
            r@.len() == 0,
            r.wf(),
    {
        let r = BusySet { ids: Vec::new() };
        assert(r@ =~= Seq::<Seq<char>>::empty());
        r
    }

    pub fn contains(&self, id: &str) -> (r: bool)
        ensures
            r == self@.contains(id@),
    {
        let mut i: usize = 0;
        while i < self.ids.len()
            invariant
                i <= self.ids@.len(),
                forall|j: int| 0 <= j < i ==> self@[j] != id@,
            decreases self.ids@.len() - i,
        {
            assert(self@[i as int] == self.ids@[i as int]@);
            if crate::lockfile::str_eq(self.ids[i].as_str(), id) {
                return true;
            }
            i = i + 1;
        }
        false
    }

    /// Claims a server unless it is claimed already; says whether it did.
    pub fn claim(&mut self, id: &str) -> (r: bool)
        requires
            old(self).wf(),
        ensures
            r == !old(self)@.contains(id@),
            final(self)@ == (if r { old(self)@.push(id@) } else { old(self)@ }),
            final(self).wf(),
    {
        if self.contains(id) {
            return false;
        }
        let ghost before = self@;
        self.ids.push(String::from_str(id));
        assert(self@ =~= before.push(id@));
        proof {
            assert forall|a: int, b: int| 0 <= a < b < self@.len() implies self@[a] != self@[b] by {
                if b == before.len() {
                    assert(before[a] == self@[a]);
                    assert(before.contains(before[a]));
                } else {
                    assert(before[a] == self@[a] && before[b] == self@[b]);
                }
            }
        }
        true
    }

    /// Gives a claim up.
    pub fn release(&mut self, id: &str)
        requires
            old(self).wf(),
        ensures
            final(self)@ == released(old(self)@, id@),
            !final(self)@.contains(id@),
            final(self).wf(),
    {
        let ghost s = self@;
        let mut kept: Vec<String> = Vec::new();
        let mut i: usize = 0;
        assert(s.take(0).filter(keep(id@)) =~= Seq::<Seq<char>>::empty());
        while i < self.ids.len()
            invariant
                i <= self.ids@.len(),
                s == sviews(self.ids@),
                s.no_duplicates(),
                sviews(kept@) == s.take(i as int).filter(keep(id@)),
            decreases self.ids@.len() - i,
        {
            assert(s.take(i + 1).drop_last() =~= s.take(i as int));
            assert(s.take(i + 1).last() == self.ids@[i as int]@);
            proof {
                reveal(Seq::filter);
            }
            if !crate::lockfile::str_eq(self.ids[i].as_str(), id) {
                let ghost before = sviews(kept@);
                kept.push(clone_string(&self.ids[i]));
                assert(sviews(kept@) =~= before.push(self.ids@[i as int]@));
            }
            i = i + 1;
        }
        assert(s.take(s.len() as int) =~= s);
        self.ids = kept;
        proof {
            lemma_released_lacks(s, id@);
            lemma_filter_no_dup(s, id@);
        }
    }
}

proof fn lemma_released_lacks(s: Seq<Seq<char>>, id: Seq<char>)
    ensures
        !s.filter(keep(id)).contains(id),
{
    let f = s.filter(keep(id));
    if f.contains(id) {
        let i = choose|i: int| 0 <= i < f.len() && f[i] == id;
        s.lemma_filter_pred(keep(id), i);
    }
}

proof fn lemma_filter_no_dup(s: Seq<Seq<char>>, id: Seq<char>)
    requires
        s.no_duplicates(),
    ensures
        s.filter(keep(id)).no_duplicates(),
    decreases s.len(),
{
    reveal(Seq::filter);
    if s.len() > 0 {
        let init = s.drop_last();
        assert(init.no_duplicates()) by {
            assert forall|a: int, b: int| 0 <= a < b < init.len() implies init[a] != init[b] by {
                assert(init[a] == s[a] && init[b] == s[b]);
            }
        }
        lemma_filter_no_dup(init, id);
        let f = init.filter(keep(id));
        if s.last() != id {
            assert(!f.contains(s.last())) by {
                if f.contains(s.last()) {
                    init.lemma_filter_contains_rev(keep(id), s.last());
                    let j = choose|j: int| 0 <= j < init.len() && init[j] == s.last();
                    assert(s[j] == s[s.len() - 1]);
                }
            }
            assert forall|a: int, b: int| 0 <= a < b < f.push(s.last()).len() implies f.push(s.last())[a] != f.push(s.last())[b] by {
                if b == f.len() {
                    assert(f.push(s.last())[a] == f[a]);
                }
            }
        }
    }
}

/// Where an update asked for in game stands.
#[derive(Debug, Clone, Copy, PartialEq, Eq, Structural)]
pub enum UpdateStage {
    Idle,
    /// Scanning and checking for updates.
    Checking,
    /// Building the plan.
    Planning,
    /// The plan is being applied in the background.
    Applying,
    Done,
}

/// An update asked for on one server, and whether it holds that server's claim.
pub struct UpdateRequest {
    pub server: String,
    pub stage: UpdateStage,
    pub holds: bool,
}

/// What the caller reports.
#[derive(Debug, Clone, Copy, PartialEq, Eq, Structural)]
pub enum UpdateEvent {
    Begin,
    /// The check found this many updates to apply.
    Checked { targets: usize },
    /// The plan came out empty or not.
    Planned { empty: bool },
    /// The step asked for failed.
    Failed,
    /// The background apply finished.
    ApplyFinished,
}

/// What to do next.
#[derive(Debug, Clone, Copy, PartialEq, Eq, Structural)]
pub enum UpdateAction {
    /// Answer that the server is busy; nothing was claimed.
    ReplyBusy,
    /// Scan and check the server.
    Check,
    /// Build the plan.
    Plan,
    /// Answer that there is nothing to update (claim given up).
    ReplyNothing,
    /// Answer with the plan's notes (claim given up).
    ReplyEmptyPlan,
    /// Start applying in the background and answer that it is under way; the claim goes
    /// with the apply.
    StartApply,
    /// Answer with the error (claim given up).
    ReplyError,
    /// Report how the apply went (claim given up).
    Finished,
    /// The event does not fit; nothing changes.
    Ignore,
}

pub open spec fn released(busy: Seq<Seq<char>>, id: Seq<char>) -> Seq<Seq<char>> {
    busy.filter(keep(id))
}

/// Every claim but this server's.
pub open spec fn keep(id: Seq<char>) -> spec_fn(Seq<char>) -> bool {
    |x: Seq<char>| x != id
}

/// One step of an update: the stage, whether the claim is held, the claims, the action.
pub open spec fn update_next(stage: UpdateStage, holds: bool, id: Seq<char>, busy: Seq<Seq<char>>, ev: UpdateEvent)
    -> (UpdateStage, bool, Seq<Seq<char>>, UpdateAction)
{
    match (stage, ev) {
        (UpdateStage::Idle, UpdateEvent::Begin) => if busy.contains(id) {
            (UpdateStage::Done, false, busy, UpdateAction::ReplyBusy)
        } else {
            (UpdateStage::Checking, true, busy.push(id), UpdateAction::Check)
        },
        (UpdateStage::Checking, UpdateEvent::Checked { targets }) => if targets == 0 {
            (UpdateStage::Done, false, released(busy, id), UpdateAction::ReplyNothing)
        } else {
            (UpdateStage::Planning, holds, busy, UpdateAction::Plan)
        },
        (UpdateStage::Planning, UpdateEvent::Planned { empty }) => if empty {
            (UpdateStage::Done, false, released(busy, id), UpdateAction::ReplyEmptyPlan)
        } else {
            (UpdateStage::Applying, holds, busy, UpdateAction::StartApply)
        },
        (UpdateStage::Checking, UpdateEvent::Failed) | (UpdateStage::Planning, UpdateEvent::Failed) => {
            (UpdateStage::Done, false, released(busy, id), UpdateAction::ReplyError)
        },
        (UpdateStage::Applying, UpdateEvent::ApplyFinished) | (UpdateStage::Applying, UpdateEvent::Failed) => {
            (UpdateStage::Done, false, released(busy, id), UpdateAction::Finished)
        },
        _ => (stage, holds, busy, UpdateAction::Ignore),
    }
}

impl UpdateRequest {
    pub fn new(server: &str) -> (r: UpdateRequest)
        ensures
            r.server@ == server@,
            r.stage == UpdateStage::Idle,
            !r.holds,
    {
        UpdateRequest { server: String::from_str(server), stage: UpdateStage::Idle, holds: false }
    }
}

/// One step of an update asked for in game: it claims the server before any work and
/// answers busy where the server is claimed already, and gives the claim up with every
/// answer but the one that hands it to the background apply, which gives it up when it
/// finishes.
pub fn update_step(st: &mut UpdateRequest, busy: &mut BusySet, ev: UpdateEvent) -> (a: UpdateAction)
    requires
        old(busy).wf(),
    ensures
        final(busy).wf(),
        final(st).server == old(st).server,
        final(st).stage == update_next(old(st).stage, old(st).holds, old(st).server@, old(busy)@, ev).0,
        final(st).holds == update_next(old(st).stage, old(st).holds, old(st).server@, old(busy)@, ev).1,
        final(busy)@ == update_next(old(st).stage, old(st).holds, old(st).server@, old(busy)@, ev).2,
        a == update_next(old(st).stage, old(st).holds, old(st).server@, old(busy)@, ev).3,
{
    match (st.stage, ev) {
        (UpdateStage::Idle, UpdateEvent::Begin) => {
            if busy.claim(st.server.as_str()) {
                st.stage = UpdateStage::Checking;
                st.holds = true;
                UpdateAction::Check
            } else {
                st.stage = UpdateStage::Done;
                st.holds = false;
                UpdateAction::ReplyBusy
            }
        },
        (UpdateStage::Checking, UpdateEvent::Checked { targets }) => {
            if targets == 0 {
                busy.release(st.server.as_str());
                st.stage = UpdateStage::Done;
                st.holds = false;
                UpdateAction::ReplyNothing
            } else {
                st.stage = UpdateStage::Planning;
                UpdateAction::Plan
            }
        },
        (UpdateStage::Planning, UpdateEvent::Planned { empty }) => {
            if empty {
                busy.release(st.server.as_str());
                st.stage = UpdateStage::Done;
                st.holds = false;
                UpdateAction::ReplyEmptyPlan
            } else {
                st.stage = UpdateStage::Applying;
                UpdateAction::StartApply
            }
        },
        (UpdateStage::Checking, UpdateEvent::Failed) | (UpdateStage::Planning, UpdateEvent::Failed) => {
            busy.release(st.server.as_str());
            st.stage = UpdateStage::Done;
            st.holds = false;
            UpdateAction::ReplyError
        },
        (UpdateStage::Applying, UpdateEvent::ApplyFinished) | (UpdateStage::Applying, UpdateEvent::Failed) => {
            busy.release(st.server.as_str());
            st.stage = UpdateStage::Done;
            st.holds = false;
            UpdateAction::Finished
        },
        _ => UpdateAction::Ignore,
    }
}

/// An update takes the server's claim only when nobody holds it, and answers busy where
/// somebody does, changing nothing; every answer releases the claim but the one that
/// hands it to the background apply, which keeps it held; and the claims never hold a
/// server twice.
pub proof fn lemma_update_claims(stage: UpdateStage, holds: bool, id: Seq<char>, busy: Seq<Seq<char>>, ev: UpdateEvent)
    requires
        busy.no_duplicates(),
    ensures
        ({
            let (s2, h2, b2, a) = update_next(stage, holds, id, busy, ev);
            &&& (a is Check ==> !busy.contains(id) && b2 == busy.push(id) && h2)
            &&& (stage == UpdateStage::Idle && ev == UpdateEvent::Begin && busy.contains(id) ==> a is ReplyBusy && b2 == busy)
            &&& (a is ReplyNothing || a is ReplyEmptyPlan || a is ReplyError || a is Finished ==> !b2.contains(id) && !h2)
            &&& (a is StartApply ==> b2 == busy && h2 == holds)
            &&& b2.no_duplicates()
        }),
{
    let (s2, h2, b2, a) = update_next(stage, holds, id, busy, ev);
    lemma_released_lacks(busy, id);
    lemma_filter_no_dup(busy, id);
    if a is Check {
        assert forall|x: int, y: int| 0 <= x < y < busy.push(id).len() implies busy.push(id)[x] != busy.push(id)[y] by {
            if y == busy.len() {
                assert(busy.push(id)[x] == busy[x]);
                assert(busy.contains(busy[x]));
            } else {
                assert(busy.push(id)[x] == busy[x] && busy.push(id)[y] == busy[y]);
            }
        }
    }
}

/// While an update holds its server's claim, the server stays in the busy set: the
/// update's own steps keep it there until they give the claim up, and another server's
/// claim being given back leaves it. So the daemon's tick, which claims a server before
/// working on it (`BusySet::claim` answers false for a server in the set), never works on
/// a server that an update holds.
pub proof fn lemma_held_claim_stays(
    stage: UpdateStage,
    holds: bool,
    id: Seq<char>,
    busy: Seq<Seq<char>>,
    ev: UpdateEvent,
    other: Seq<char>,
)
    requires
        busy.no_duplicates(),
        holds ==> busy.contains(id),
        other != id,
    ensures
        ({
            let (s2, h2, b2, a) = update_next(stage, holds, id, busy, ev);
            &&& h2 ==> b2.contains(id)
            &&& h2 ==> released(b2, other).contains(id)
        }),
{
    let (s2, h2, b2, a) = update_next(stage, holds, id, busy, ev);
    if h2 {
        assert(b2.contains(id)) by {
            if a is Check {
                assert(busy.push(id)[busy.len() as int] == id);
            }
        }
        let k = choose|k: int| 0 <= k < b2.len() && b2[k] == id;
        b2.lemma_filter_contains(keep(other), k);
    }
}

} // verus!
