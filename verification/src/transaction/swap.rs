//! The order of a transaction's steps: every download is verified before anything is
//! written, the rollback manifest is written before the first jar is swapped, the jars
//! are swapped one by one, and a failed swap is undone together with every swap before
//! it. Downloading, writing and renaming are the caller's; the order is decided here.

use vstd::prelude::*;

verus! {

/// Where a transaction stands.
#[derive(Debug, Clone, Copy, PartialEq, Eq, Structural)]
pub enum SwapPhase {
    /// Verifying the download of this item next.
    Verify(usize),
    /// Writing the rollback manifest next.
    Manifest,
    /// Swapping this item next.
    Swap(usize),
    /// Restoring this item next; the items before it follow, down to the first.
    Restore(usize),
    Committed,
    Aborted,
}

/// A transaction of `n` items: its phase, how many downloads were verified, whether the
/// manifest was written, how many items a swap has touched (the failing one included),
/// and how many of those were restored.
#[derive(Debug, Clone, Copy, PartialEq, Eq, Structural)]
pub struct SwapRun {
    pub n: usize,
    pub phase: SwapPhase,
    pub verified: usize,
    pub manifest: bool,
    pub touched: usize,
    pub restored: usize,
}

/// What the caller reports.
#[derive(Debug, Clone, Copy, PartialEq, Eq, Structural)]
pub enum SwapEvent {
    Begin,
    /// The download asked for was verified (`true`) or failed.
    Verified(bool),
    /// The manifest was written (`true`) or could not be.
    ManifestWritten(bool),
    /// The item asked for was swapped in (`true`), or its swap failed part way.
    Swapped(bool),
    /// The item asked for was put back.
    Restored,
}

/// What to do next.
#[derive(Debug, Clone, Copy, PartialEq, Eq, Structural)]
pub enum SwapAction {
    /// Download and verify this item.
    Verify(usize),
    WriteManifest,
    /// Move this item's old jar aside and its new jar in.
    Swap(usize),
    /// Remove this item's new jar and put its old jar back.
    Restore(usize),
    /// Mark the manifest complete, update the lockfile and the journal.
    Commit,
    /// Give up: clean the staging area and journal why.
    Abort,
}

impl SwapRun {
    /// The consistent states: the phase and the counts agree.
    pub open spec fn wf(self) -> bool {
        match self.phase {
            SwapPhase::Verify(k) => k == self.verified && (k < self.n || k == 0) && !self.manifest && self.touched == 0 && self.restored == 0,
            SwapPhase::Manifest => self.verified == self.n && !self.manifest && self.touched == 0 && self.restored == 0,
            SwapPhase::Swap(k) => k < self.n && self.verified == self.n && self.manifest && self.touched == k && self.restored == 0,
            SwapPhase::Restore(k) => k < self.n && self.verified == self.n && self.manifest && self.touched <= self.n
                && self.restored + k + 1 == self.touched,
            SwapPhase::Committed => self.verified == self.n && self.manifest && self.touched == self.n && self.restored == 0,
            SwapPhase::Aborted => self.touched <= self.n && self.restored == self.touched,
        }
    }

    /// A transaction of `n` items, before anything was done.
    pub open spec fn initial(n: usize) -> SwapRun {
        SwapRun { n, phase: SwapPhase::Verify(0), verified: 0, manifest: false, touched: 0, restored: 0 }
    }

    pub fn new(n: usize) -> (r: SwapRun)
        ensures
            r == SwapRun::initial(n),
            r.wf(),
    {
        SwapRun { n, phase: SwapPhase::Verify(0), verified: 0, manifest: false, touched: 0, restored: 0 }
    }
}

/// The action a state waits on.
pub open spec fn pending(st: SwapRun) -> SwapAction {
    match st.phase {
        SwapPhase::Verify(k) => SwapAction::Verify(k),
        SwapPhase::Manifest => SwapAction::WriteManifest,
        SwapPhase::Swap(k) => SwapAction::Swap(k),
        SwapPhase::Restore(k) => SwapAction::Restore(k),
        SwapPhase::Committed => SwapAction::Commit,
        SwapPhase::Aborted => SwapAction::Abort,
    }
}

/// One step: an event that does not answer what the state waits on leaves it as it is.
pub open spec fn swap_next(st: SwapRun, ev: SwapEvent) -> (SwapRun, SwapAction) {
    match (st.phase, ev) {
        (SwapPhase::Verify(k), SwapEvent::Begin) => if k == 0 && st.n == 0 {
            (SwapRun { phase: SwapPhase::Manifest, ..st }, SwapAction::WriteManifest)
        } else {
            (st, SwapAction::Verify(k))
        },
        (SwapPhase::Verify(k), SwapEvent::Verified(ok)) => if k >= st.n {
            (st, pending(st))
        } else if !ok {
            (SwapRun { phase: SwapPhase::Aborted, ..st }, SwapAction::Abort)
        } else if k + 1 < st.n {
            (SwapRun { phase: SwapPhase::Verify((k + 1) as usize), verified: (k + 1) as usize, ..st }, SwapAction::Verify((k + 1) as usize))
        } else {
            (SwapRun { phase: SwapPhase::Manifest, verified: (k + 1) as usize, ..st }, SwapAction::WriteManifest)
        },
        (SwapPhase::Manifest, SwapEvent::ManifestWritten(ok)) => if !ok {
            (SwapRun { phase: SwapPhase::Aborted, ..st }, SwapAction::Abort)
        } else if st.n > 0 {
            (SwapRun { phase: SwapPhase::Swap(0), manifest: true, ..st }, SwapAction::Swap(0))
        } else {
            (SwapRun { phase: SwapPhase::Committed, manifest: true, ..st }, SwapAction::Commit)
        },
        (SwapPhase::Swap(k), SwapEvent::Swapped(ok)) => if !ok {
            (SwapRun { phase: SwapPhase::Restore(k), touched: (k + 1) as usize, ..st }, SwapAction::Restore(k))
        } else if k + 1 < st.n {
            (SwapRun { phase: SwapPhase::Swap((k + 1) as usize), touched: (k + 1) as usize, ..st }, SwapAction::Swap((k + 1) as usize))
        } else {
            (SwapRun { phase: SwapPhase::Committed, touched: (k + 1) as usize, ..st }, SwapAction::Commit)
        },
        (SwapPhase::Restore(k), SwapEvent::Restored) => if k > 0 {
            (SwapRun { phase: SwapPhase::Restore((k - 1) as usize), restored: (st.restored + 1) as usize, ..st }, SwapAction::Restore((k - 1) as usize))
        } else {
            (SwapRun { phase: SwapPhase::Aborted, restored: (st.restored + 1) as usize, ..st }, SwapAction::Abort)
        },
        _ => (st, pending(st)),
    }
}

/// One step of a transaction: what the caller saw, and what it is to do next.
pub fn swap_step(st: &mut SwapRun, ev: SwapEvent) -> (a: SwapAction)
    requires
        old(st).wf(),
    ensures
        *final(st) == swap_next(*old(st), ev).0,
        a == swap_next(*old(st), ev).1,
        final(st).wf(),
{
    proof {
        lemma_swap_step(*old(st), ev);
    }
    match (st.phase, ev) {
        (SwapPhase::Verify(k), SwapEvent::Begin) => {
            if k == 0 && st.n == 0 {
                st.phase = SwapPhase::Manifest;
                SwapAction::WriteManifest
            } else {
                SwapAction::Verify(k)
            }
        },
        (SwapPhase::Verify(k), SwapEvent::Verified(ok)) => {
            if k >= st.n {
                SwapAction::Verify(k)
            } else if !ok {
                st.phase = SwapPhase::Aborted;
                SwapAction::Abort
            } else if k + 1 < st.n {
                st.phase = SwapPhase::Verify(k + 1);
                st.verified = k + 1;
                SwapAction::Verify(k + 1)
            } else {
                st.phase = SwapPhase::Manifest;
                st.verified = k + 1;
                SwapAction::WriteManifest
            }
        },
        (SwapPhase::Manifest, SwapEvent::ManifestWritten(ok)) => {
            if !ok {
                st.phase = SwapPhase::Aborted;
                SwapAction::Abort
            } else if st.n > 0 {
                st.phase = SwapPhase::Swap(0);
                st.manifest = true;
                SwapAction::Swap(0)
            } else {
                st.phase = SwapPhase::Committed;
                st.manifest = true;
                SwapAction::Commit
            }
        },
        (SwapPhase::Swap(k), SwapEvent::Swapped(ok)) => {
            if !ok {
                st.phase = SwapPhase::Restore(k);
                st.touched = k + 1;
                SwapAction::Restore(k)
            } else if k + 1 < st.n {
                st.phase = SwapPhase::Swap(k + 1);
                st.touched = k + 1;
                SwapAction::Swap(k + 1)
            } else {
                st.phase = SwapPhase::Committed;
                st.touched = k + 1;
                SwapAction::Commit
            }
        },
        (SwapPhase::Restore(k), SwapEvent::Restored) => {
            if k > 0 {
                st.phase = SwapPhase::Restore(k - 1);
                st.restored = st.restored + 1;
                SwapAction::Restore(k - 1)
            } else {
                st.phase = SwapPhase::Aborted;
                st.restored = st.restored + 1;
                SwapAction::Abort
            }
        },
        _ => match st.phase {
            SwapPhase::Verify(k) => SwapAction::Verify(k),
            SwapPhase::Manifest => SwapAction::WriteManifest,
            SwapPhase::Swap(k) => SwapAction::Swap(k),
            SwapPhase::Restore(k) => SwapAction::Restore(k),
            SwapPhase::Committed => SwapAction::Commit,
            SwapPhase::Aborted => SwapAction::Abort,
        },
    }
}

/// What every step keeps: a consistent state stays consistent; a swap is only asked for
/// once every download is verified and the manifest is written; a commit only once every
/// item is swapped; and a transaction is only given up once every item a swap touched,
/// the failing one included, is restored.
pub proof fn lemma_swap_step(st: SwapRun, ev: SwapEvent)
    requires
        st.wf(),
    ensures
        swap_next(st, ev).0.wf(),
        swap_next(st, ev).1 matches SwapAction::Swap(k) ==> {
            let s = swap_next(st, ev).0;
            &&& s.manifest
            &&& s.verified == s.n
            &&& k == s.touched
        },
        swap_next(st, ev).1 is Commit ==> {
            let s = swap_next(st, ev).0;
            &&& s.manifest
            &&& s.verified == s.n
            &&& s.touched == s.n
        },
        swap_next(st, ev).1 is Abort ==> swap_next(st, ev).0.restored == swap_next(st, ev).0.touched,
        swap_next(st, ev).0.n == st.n,
{
}

/// The state and the actions after a sequence of events.
pub open spec fn run(st: SwapRun, evs: Seq<SwapEvent>) -> (SwapRun, Seq<SwapAction>)
    decreases evs.len(),
{
    if evs.len() == 0 {
        (st, Seq::empty())
    } else {
        let (s, acts) = run(st, evs.drop_last());
        let (s2, a) = swap_next(s, evs.last());
        (s2, acts.push(a))
    }
}

/// Over any sequence of events from the start: no jar is swapped before every download
/// is verified and the manifest is written, and a transaction that is given up has
/// restored every item a swap touched, the failing one included.
pub proof fn lemma_swap_run(n: usize, evs: Seq<SwapEvent>)
    ensures
        run(SwapRun::initial(n), evs).0.wf(),
        forall|i: int| 0 <= i < evs.len() ==> {
            let s = #[trigger] run(SwapRun::initial(n), evs.take(i + 1)).0;
            let a = run(SwapRun::initial(n), evs).1[i];
            &&& (a is Swap ==> s.manifest && s.verified == n)
            &&& (a is Commit ==> s.manifest && s.verified == n && s.touched == n)
            &&& (a is Abort ==> s.restored == s.touched)
        },
    decreases evs.len(),
{
    if evs.len() > 0 {
        let init = evs.drop_last();
        lemma_swap_run(n, init);
        let s = run(SwapRun::initial(n), init).0;
        lemma_swap_step(s, evs.last());
        lemma_run_n(SwapRun::initial(n), init);
        assert forall|i: int| 0 <= i < evs.len() implies {
            let s = #[trigger] run(SwapRun::initial(n), evs.take(i + 1)).0;
            let a = run(SwapRun::initial(n), evs).1[i];
            &&& (a is Swap ==> s.manifest && s.verified == n)
            &&& (a is Commit ==> s.manifest && s.verified == n && s.touched == n)
            &&& (a is Abort ==> s.restored == s.touched)
        } by {
            if i < evs.len() - 1 {
                assert(evs.take(i + 1) =~= init.take(i + 1));
            } else {
                assert(evs.take(i + 1) =~= evs);
            }
        }
    }
}

proof fn lemma_run_n(st: SwapRun, evs: Seq<SwapEvent>)
    requires
        st.wf(),
    ensures
        run(st, evs).0.n == st.n,
        run(st, evs).0.wf(),
        run(st, evs).1.len() == evs.len(),
    decreases evs.len(),
{
    if evs.len() > 0 {
        lemma_run_n(st, evs.drop_last());
        lemma_swap_step(run(st, evs.drop_last()).0, evs.last());
    }
}

} // verus!
