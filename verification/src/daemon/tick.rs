//! One server's turn in a daemon tick, as a state machine. The caller discovers servers,
//! scans, checks, plans, applies and restarts; after each piece of work it hands the
//! outcome here and is told what to do next and what to record.

use vstd::prelude::*;
use crate::daemon::check_due_spec;
use crate::daemon::check_due;
use crate::sources::resolve::{update_views, CheckReport, UpdateCandidate, UpdateV};
use crate::text::{concat2, decimal, opt_view, push_decimal_u64, push_str, string_from_chars, sviews};

verus! {

/// What the daemon remembers of a server between ticks. Times are Unix seconds.
#[derive(Debug, Clone)]
pub struct ServerState {
    pub last_check: Option<i64>,
    pub last_result: Option<String>,
    pub updates_available: Vec<String>,
    pub pending_restart: Option<i64>,
    pub last_warning: Option<i64>,
}

#[verifier::ext_equal]
pub struct ServerStateV {
    pub last_check: Option<i64>,
    pub last_result: Option<Seq<char>>,
    pub updates_available: Seq<Seq<char>>,
    pub pending_restart: Option<i64>,
    pub last_warning: Option<i64>,
}

impl View for ServerState {
    type V = ServerStateV;

    open spec fn view(&self) -> ServerStateV {
        ServerStateV {
            last_check: self.last_check,
            last_result: opt_view(self.last_result),
            updates_available: sviews(self.updates_available@),
            pending_restart: self.pending_restart,
            last_warning: self.last_warning,
        }
    }
}

impl ServerState {
    /// A server the daemon has not seen before.
    pub fn new() -> (r: ServerState)
        ensures
            r@ == (ServerStateV { last_check: None, last_result: None, updates_available: Seq::empty(), pending_restart: None, last_warning: None }),
    {
        ServerState { last_check: None, last_result: None, updates_available: Vec::new(), pending_restart: None, last_warning: None }
    }
}

/// What holds for this server during the tick: the clock, its policy and whether its
/// plugin directory can be written.
#[derive(Debug, Clone)]
pub struct TickFacts {
    pub now: i64,
    pub enabled: bool,
    pub check_interval_secs: u64,
    pub quiet: bool,
    pub writable: bool,
    /// The policy's `auto_apply`; `none` applies nothing.
    pub auto_apply: String,
    /// The policy restarts at a set time of day after applying.
    pub scheduled_restart: bool,
}

/// The outcome of the work last asked for.
#[derive(Debug)]
pub enum TickEvent {
    /// The server's turn begins.
    Begin,
    /// The scheduled restart ran: `None`, or what went wrong.
    Restarted(Option<String>),
    /// The plugin scan ran; `false`: it failed.
    Scanned(bool),
    /// The update check ran.
    Checked(Result<CheckReport, String>),
    /// How many offered updates may be applied unattended.
    Selected(usize),
    /// The update plan was built (`Ok(true)`: it is empty), or failed.
    Planned(Result<bool, String>),
    /// The plan was applied (transaction id, number of plugins), or failed; with the
    /// next restart time and how it reads locally, where the policy schedules one.
    Applied(Result<(String, usize), String>, Option<(i64, String)>),
}

pub enum TickEventV {
    Begin,
    Restarted(Option<Seq<char>>),
    Scanned(bool),
    Checked(Result<Seq<UpdateV>, Seq<char>>),
    Selected(nat),
    Planned(Result<bool, Seq<char>>),
    Applied(Result<(Seq<char>, nat), Seq<char>>, Option<(i64, Seq<char>)>),
}

impl View for TickEvent {
    type V = TickEventV;

    open spec fn view(&self) -> TickEventV {
        match self {
            TickEvent::Begin => TickEventV::Begin,
            TickEvent::Restarted(e) => TickEventV::Restarted(opt_view(*e)),
            TickEvent::Scanned(ok) => TickEventV::Scanned(*ok),
            TickEvent::Checked(r) => TickEventV::Checked(match r {
                Ok(rep) => Ok(update_views(rep.updates@)),
                Err(e) => Err(e@),
            }),
            TickEvent::Selected(n) => TickEventV::Selected(*n as nat),
            TickEvent::Planned(r) => TickEventV::Planned(match r {
                Ok(empty) => Ok(*empty),
                Err(e) => Err(e@),
            }),
            TickEvent::Applied(r, at) => TickEventV::Applied(
                match r {
                    Ok((tx, n)) => Ok((tx@, *n as nat)),
                    Err(e) => Err(e@),
                },
                match at {
                    Some((t, text)) => Some((*t, text@)),
                    None => None,
                },
            ),
        }
    }
}

/// The work to do next.
#[derive(Debug, Clone, Copy, PartialEq, Eq, Structural)]
pub enum TickAction {
    /// Run the scheduled restart now.
    Restart,
    /// Warn that the plugin directory cannot be written; the turn ends.
    WarnUnwritable,
    Scan,
    Check,
    /// Count the updates that may be applied unattended.
    Select,
    Plan,
    Apply,
    /// The server's turn is over.
    Done,
}

/// The next action, and a journal note (action, outcome) to record first, if any.
#[derive(Debug, Clone)]
pub struct TickStep {
    pub action: TickAction,
    pub note: Option<(String, String)>,
}

pub open spec fn note_view(n: Option<(String, String)>) -> Option<(Seq<char>, Seq<char>)> {
    match n {
        Some((a, o)) => Some((a@, o@)),
        None => None,
    }
}

/// How an available update is remembered: `name installed→latest`.
pub open spec fn update_line(u: UpdateV) -> Seq<char> {
    u.name + " "@ + u.installed + "→"@ + u.latest.version_number
}

/// Once any restart is settled: stop unless a check is due; an unwritable directory is
/// warned about at most once a day; otherwise scan.
pub open spec fn due_step(st: ServerStateV, now: i64, interval: u64, writable: bool) -> (ServerStateV, TickAction) {
    if !check_due_spec(st.last_check, now, interval) {
        (st, TickAction::Done)
    } else if !writable {
        if st.last_warning matches Some(t) && now - t <= 86400 {
            (st, TickAction::Done)
        } else {
            (ServerStateV { last_warning: Some(now), ..st }, TickAction::WarnUnwritable)
        }
    } else {
        (st, TickAction::Scan)
    }
}

/// What one outcome does to the server's state, what comes next and what is noted.
pub open spec fn step_spec(
    st: ServerStateV,
    now: i64,
    enabled: bool,
    interval: u64,
    quiet: bool,
    writable: bool,
    auto_apply: Seq<char>,
    scheduled: bool,
    ev: TickEventV,
) -> (ServerStateV, TickAction, Option<(Seq<char>, Seq<char>)>) {
    match ev {
        TickEventV::Begin => if !enabled {
            (st, TickAction::Done, None)
        } else if st.pending_restart matches Some(at) && now >= at && !quiet {
            (st, TickAction::Restart, None)
        } else {
            let (s2, a) = due_step(st, now, interval, writable);
            (s2, a, None)
        },
        TickEventV::Restarted(err) => {
            let s1 = ServerStateV { pending_restart: None, ..st };
            let (s2, a) = due_step(s1, now, interval, writable);
            (s2, a, Some(("restart"@, match err {
                None => "restarted (scheduled)"@,
                Some(e) => "scheduled restart failed: "@ + e,
            })))
        },
        TickEventV::Scanned(ok) => if ok {
            (ServerStateV { last_check: Some(now), ..st }, TickAction::Check, None)
        } else {
            (st, TickAction::Done, None)
        },
        TickEventV::Checked(r) => match r {
            Err(e) => (ServerStateV { last_result: Some("check failed: "@ + e), ..st }, TickAction::Done, None),
            Ok(us) => (
                ServerStateV {
                    updates_available: us.map_values(|u: UpdateV| update_line(u)),
                    last_result: Some(decimal(us.len()) + " update(s) available"@),
                    ..st
                },
                if us.len() == 0 || auto_apply == "none"@ { TickAction::Done } else { TickAction::Select },
                None,
            ),
        },
        TickEventV::Selected(n) => if n == 0 {
            (st, TickAction::Done, None)
        } else if quiet {
            (ServerStateV { last_result: Some(decimal(n) + " update(s) deferred (quiet hours)"@), last_check: None, ..st }, TickAction::Done, None)
        } else {
            (st, TickAction::Plan, None)
        },
        TickEventV::Planned(r) => match r {
            Err(e) => (st, TickAction::Done, Some(("aborted"@, "auto-update plan failed: "@ + e))),
            Ok(empty) => (st, if empty { TickAction::Done } else { TickAction::Apply }, None),
        },
        TickEventV::Applied(r, at) => match r {
            Err(e) => (ServerStateV { last_result: Some("auto-update failed: "@ + e), ..st }, TickAction::Done, None),
            Ok((tx, n)) => {
                let s1 = ServerStateV {
                    last_result: Some("applied "@ + tx + " ("@ + decimal(n) + " plugin(s))"@),
                    updates_available: Seq::empty(),
                    ..st
                };
                match at {
                    Some((t, text)) if scheduled =>
                        (ServerStateV { pending_restart: Some(t), ..s1 }, TickAction::Done, Some(("restart"@, "scheduled for "@ + text))),
                    _ => (s1, TickAction::Done, None),
                }
            },
        },
    }
}

fn number_text(n: usize) -> (r: String)
    ensures
        r@ == decimal(n as nat),
{
    let mut out: Vec<char> = Vec::new();
    push_decimal_u64(&mut out, n as u64);
    string_from_chars(out.as_slice())
}

/// `step_spec` with the tick's facts.
pub open spec fn facts_step(st: ServerStateV, f: TickFacts, ev: TickEventV) -> (ServerStateV, TickAction, Option<(Seq<char>, Seq<char>)>) {
    step_spec(st, f.now, f.enabled, f.check_interval_secs, f.quiet, f.writable, f.auto_apply@, f.scheduled_restart, ev)
}

fn applied_text(tx: &str, n: usize) -> (r: String)
    ensures
        r@ == "applied "@ + tx@ + " ("@ + decimal(n as nat) + " plugin(s))"@,
{
    let mut out: Vec<char> = Vec::new();
    push_str(&mut out, "applied ");
    push_str(&mut out, tx);
    push_str(&mut out, " (");
    push_decimal_u64(&mut out, n as u64);
    push_str(&mut out, " plugin(s))");
    string_from_chars(out.as_slice())
}

/// The action once any restart is settled, and the warning time to record, if any.
fn due(st: &ServerState, facts: &TickFacts) -> (r: (TickAction, Option<i64>))
    ensures
        (match r.1 {
            Some(w) => ServerStateV { last_warning: Some(w), ..st@ },
            None => st@,
        }) == due_step(st@, facts.now, facts.check_interval_secs, facts.writable).0,
        r.0 == due_step(st@, facts.now, facts.check_interval_secs, facts.writable).1,
{
    if !check_due(st.last_check, facts.now, facts.check_interval_secs) {
        (TickAction::Done, None)
    } else if !facts.writable {
        let repeat = match st.last_warning {
            Some(t) => (facts.now as i128) - (t as i128) <= 86400,
            None => false,
        };
        if repeat {
            (TickAction::Done, None)
        } else {
            (TickAction::WarnUnwritable, Some(facts.now))
        }
    } else {
        (TickAction::Scan, None)
    }
}

fn update_lines(us: &Vec<UpdateCandidate>) -> (r: Vec<String>)
    ensures
        sviews(r@) == update_views(us@).map_values(|u: UpdateV| update_line(u)),
{
    proof {
        reveal_strlit(" ");
        reveal_strlit("→");
    }
    let mut out: Vec<String> = Vec::new();
    let mut i: usize = 0;
    while i < us.len()
        invariant
            i <= us@.len(),
            sviews(out@) == update_views(us@).take(i as int).map_values(|u: UpdateV| update_line(u)),
        decreases us@.len() - i,
    {
        let u = &us[i];
        let mut l: Vec<char> = Vec::new();
        push_str(&mut l, u.name.as_str());
        push_str(&mut l, " ");
        push_str(&mut l, u.installed.as_str());
        push_str(&mut l, "→");
        push_str(&mut l, u.latest.version_number.as_str());
        let s = string_from_chars(l.as_slice());
        let ghost before = out@;
        out.push(s);
        proof {
            assert(update_views(us@)[i as int] == us@[i as int]@);
            assert(s@ == update_line(update_views(us@)[i as int]));
            assert(sviews(out@) =~= sviews(before).push(s@));
            assert(update_views(us@).take(i + 1) =~= update_views(us@).take(i as int).push(update_views(us@)[i as int]));
        }
        i = i + 1;
    }
    assert(update_views(us@).take(us@.len() as int) =~= update_views(us@));
    out
}

/// Takes the outcome of the last piece of work, updates the server's state and says what
/// to do next.
pub fn step(st: &mut ServerState, facts: &TickFacts, ev: TickEvent) -> (r: TickStep)
    ensures
        final(st)@ == facts_step(old(st)@, *facts, ev@).0,
        r.action == facts_step(old(st)@, *facts, ev@).1,
        note_view(r.note) == facts_step(old(st)@, *facts, ev@).2,
{
    proof {
        reveal_strlit("restart");
        reveal_strlit("restarted (scheduled)");
        reveal_strlit("scheduled restart failed: ");
        reveal_strlit("check failed: ");
        reveal_strlit(" update(s) available");
        reveal_strlit("none");
        reveal_strlit(" update(s) deferred (quiet hours)");
        reveal_strlit("aborted");
        reveal_strlit("auto-update plan failed: ");
        reveal_strlit("auto-update failed: ");
        reveal_strlit("applied ");
        reveal_strlit(" (");
        reveal_strlit(" plugin(s))");
        reveal_strlit("scheduled for ");
    }
    match &ev {
        TickEvent::Begin => {
            let restart_now = match st.pending_restart {
                Some(at) => facts.now >= at && !facts.quiet,
                None => false,
            };
            if !facts.enabled {
                TickStep { action: TickAction::Done, note: None }
            } else if restart_now {
                TickStep { action: TickAction::Restart, note: None }
            } else {
                let (a, w) = due(st, facts);
                if let Some(w) = w {
                    st.last_warning = Some(w);
                }
                TickStep { action: a, note: None }
            }
        },
        TickEvent::Restarted(err) => {
            st.pending_restart = None;
            let (a, w) = due(st, facts);
            if let Some(w) = w {
                st.last_warning = Some(w);
            }
            let outcome = match err {
                None => String::from_str("restarted (scheduled)"),
                Some(e) => concat2("scheduled restart failed: ", e.as_str()),
            };
            TickStep { action: a, note: Some((String::from_str("restart"), outcome)) }
        },
        TickEvent::Scanned(ok) => {
            if *ok {
                st.last_check = Some(facts.now);
                TickStep { action: TickAction::Check, note: None }
            } else {
                TickStep { action: TickAction::Done, note: None }
            }
        },
        TickEvent::Checked(res) => match res {
            Err(e) => {
                st.last_result = Some(concat2("check failed: ", e.as_str()));
                TickStep { action: TickAction::Done, note: None }
            },
            Ok(rep) => {
                let n = rep.updates.len();
                st.updates_available = update_lines(&rep.updates);
                st.last_result = Some(concat2(number_text(n).as_str(), " update(s) available"));
                let none = crate::lockfile::str_eq(facts.auto_apply.as_str(), "none");
                let action = if n == 0 || none { TickAction::Done } else { TickAction::Select };
                TickStep { action, note: None }
            },
        },
        TickEvent::Selected(n) => {
            if *n == 0 {
                TickStep { action: TickAction::Done, note: None }
            } else if facts.quiet {
                st.last_result = Some(concat2(number_text(*n).as_str(), " update(s) deferred (quiet hours)"));
                st.last_check = None;
                TickStep { action: TickAction::Done, note: None }
            } else {
                TickStep { action: TickAction::Plan, note: None }
            }
        },
        TickEvent::Planned(res) => match res {
            Err(e) => {
                TickStep {
                    action: TickAction::Done,
                    note: Some((String::from_str("aborted"), concat2("auto-update plan failed: ", e.as_str()))),
                }
            },
            Ok(empty) => {
                TickStep { action: if *empty { TickAction::Done } else { TickAction::Apply }, note: None }
            },
        },
        TickEvent::Applied(res, at) => match res {
            Err(e) => {
                st.last_result = Some(concat2("auto-update failed: ", e.as_str()));
                TickStep { action: TickAction::Done, note: None }
            },
            Ok((tx, n)) => {
                st.last_result = Some(applied_text(tx.as_str(), *n));
                st.updates_available = Vec::new();
                let scheduled: Option<(i64, &String)> = match at {
                    Some((t, text)) => if facts.scheduled_restart { Some((*t, text)) } else { None },
                    None => None,
                };
                match scheduled {
                    Some((t, text)) => {
                        st.pending_restart = Some(t);
                        TickStep {
                            action: TickAction::Done,
                            note: Some((String::from_str("restart"), concat2("scheduled for ", text.as_str()))),
                        }
                    },
                    None => TickStep { action: TickAction::Done, note: None },
                }
            },
        },
    }
}

/// Updates deferred for quiet hours are checked again on the server's next turn, however
/// soon and whatever its check interval.
pub proof fn lemma_deferred_rechecked(
    st: ServerStateV,
    now: i64,
    enabled: bool,
    interval: u64,
    writable: bool,
    auto_apply: Seq<char>,
    scheduled: bool,
    n: nat,
    later: i64,
    later_interval: u64,
)
    requires
        n > 0,
    ensures
        check_due_spec(step_spec(st, now, enabled, interval, true, writable, auto_apply, scheduled, TickEventV::Selected(n)).0.last_check, later, later_interval),
{
}

/// After a successful scan the server is not checked again until its interval has passed.
pub proof fn lemma_scan_waits_interval(
    st: ServerStateV,
    now: i64,
    enabled: bool,
    interval: u64,
    quiet: bool,
    writable: bool,
    auto_apply: Seq<char>,
    scheduled: bool,
    later: i64,
)
    requires
        interval <= crate::daemon::MAX_INTERVAL_SECS,
    ensures
        check_due_spec(step_spec(st, now, enabled, interval, quiet, writable, auto_apply, scheduled, TickEventV::Scanned(true)).0.last_check, later, interval)
            <==> later - now >= interval,
{
}

} // verus!
