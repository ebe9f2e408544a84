//! Restart policies: how and when to bounce a server after an update. The waiting, the
//! announcements and the restart itself are the caller's; the decisions are here.

use vstd::prelude::*;
use crate::lockfile::str_eq;

verus! {

#[derive(Debug, Clone, Copy, PartialEq, Eq, Structural)]
pub enum RestartPolicy {
    /// Announce a countdown, then restart.
    Now { countdown_secs: u32 },
    /// Wait until nobody is online (polling), then a short countdown and restart.
    WhenEmpty { max_wait_secs: u64, countdown_secs: u32 },
    /// Leave the jars staged; the next restart picks them up.
    Never,
}

/// How long `when-empty` waits for players to leave: twelve hours.
pub const MAX_EMPTY_WAIT_SECS: u64 = 43200;

/// The countdown `when-empty` announces at most, once the server is empty.
pub const EMPTY_COUNTDOWN_CAP: u32 = 15;

/// `now`, `when-empty` (or `empty`), `never` (or `no`, `none`).
pub open spec fn parse_policy(s: Seq<char>, countdown_secs: u32) -> Option<RestartPolicy> {
    if s == "now"@ {
        Some(RestartPolicy::Now { countdown_secs })
    } else if s == "when-empty"@ || s == "empty"@ {
        Some(RestartPolicy::WhenEmpty { max_wait_secs: MAX_EMPTY_WAIT_SECS, countdown_secs })
    } else if s == "never"@ || s == "no"@ || s == "none"@ {
        Some(RestartPolicy::Never)
    } else {
        None
    }
}

impl RestartPolicy {
    pub fn parse(s: &str, countdown_secs: u32) -> (r: Option<RestartPolicy>)
        ensures
            r == parse_policy(s@, countdown_secs),
    {
        if str_eq(s, "now") {
            Some(RestartPolicy::Now { countdown_secs })
        } else if str_eq(s, "when-empty") || str_eq(s, "empty") {
            Some(RestartPolicy::WhenEmpty { max_wait_secs: MAX_EMPTY_WAIT_SECS, countdown_secs })
        } else if str_eq(s, "never") || str_eq(s, "no") || str_eq(s, "none") {
            Some(RestartPolicy::Never)
        } else {
            None
        }
    }
}

/// What to do after asking how many players are online, under `when-empty`.
#[derive(Debug, Clone, Copy, PartialEq, Eq, Structural)]
pub enum EmptyWait {
    /// Nobody online (or no way to tell): restart.
    Proceed,
    /// Still this many online, but the wait is over: restart anyway.
    GiveUp(u32),
    /// This many online: wait and ask again.
    Wait(u32),
}

pub fn empty_wait(players: Option<u32>, waited_secs: u64, max_wait_secs: u64) -> (r: EmptyWait)
    ensures
        r == match players {
            Some(n) if n > 0 => if waited_secs > max_wait_secs { EmptyWait::GiveUp(n) } else { EmptyWait::Wait(n) },
            _ => EmptyWait::Proceed,
        },
{
    match players {
        Some(n) if n > 0 => if waited_secs > max_wait_secs { EmptyWait::GiveUp(n) } else { EmptyWait::Wait(n) },
        _ => EmptyWait::Proceed,
    }
}

/// The countdown a policy announces before the restart (`None` for `never`).
pub open spec fn countdown_of(p: RestartPolicy) -> Option<u32> {
    match p {
        RestartPolicy::Never => None,
        RestartPolicy::Now { countdown_secs } => Some(countdown_secs),
        RestartPolicy::WhenEmpty { countdown_secs, .. } => Some(if countdown_secs < EMPTY_COUNTDOWN_CAP { countdown_secs } else { EMPTY_COUNTDOWN_CAP }),
    }
}

pub fn countdown_for(p: RestartPolicy) -> (r: Option<u32>)
    ensures
        r == countdown_of(p),
{
    match p {
        RestartPolicy::Never => None,
        RestartPolicy::Now { countdown_secs } => Some(countdown_secs),
        RestartPolicy::WhenEmpty { countdown_secs, .. } => Some(if countdown_secs < EMPTY_COUNTDOWN_CAP { countdown_secs } else { EMPTY_COUNTDOWN_CAP }),
    }
}

/// The seconds at which a countdown is announced again.
pub open spec fn all_marks() -> Seq<u32> {
    seq![60u32, 30u32, 10u32, 5u32, 3u32, 2u32, 1u32]
}

/// The marks not above the countdown, in order.
pub open spec fn marks_upto(ms: Seq<u32>, countdown: u32) -> Seq<u32>
    decreases ms.len(),
{
    if ms.len() == 0 {
        Seq::empty()
    } else {
        let r = marks_upto(ms.drop_last(), countdown);
        if ms.last() <= countdown { r.push(ms.last()) } else { r }
    }
}

/// The steps of a countdown that starts with `remaining` seconds: for each mark below
/// what remains, sleep until it and announce it; then sleep out the rest.
pub open spec fn schedule(ms: Seq<u32>, remaining: u32) -> (Seq<(u32, u32)>, u32)
    decreases ms.len(),
{
    if ms.len() == 0 {
        (Seq::empty(), remaining)
    } else if ms[0] < remaining {
        let (steps, last) = schedule(ms.drop_first(), ms[0]);
        (seq![((remaining - ms[0]) as u32, ms[0])] + steps, last)
    } else {
        schedule(ms.drop_first(), remaining)
    }
}

/// The whole countdown: announce `countdown` first, then these (sleep, announce) steps,
/// then sleep the final seconds and restart.
pub fn countdown_plan(countdown: u32) -> (r: (Vec<(u32, u32)>, u32))
    ensures
        (r.0@, r.1) == schedule(marks_upto(all_marks(), countdown), countdown),
{
    let all: [u32; 7] = [60, 30, 10, 5, 3, 2, 1];
    let mut ms: Vec<u32> = Vec::new();
    let mut i: usize = 0;
    assert(all@ =~= all_marks());
    assert(all@.take(0) =~= Seq::<u32>::empty());
    while i < 7
        invariant
            i <= 7,
            all@ == all_marks(),
            ms@ == marks_upto(all@.take(i as int), countdown),
        decreases 7 - i,
    {
        assert(all@.take(i + 1).drop_last() =~= all@.take(i as int));
        if all[i] <= countdown {
            ms.push(all[i]);
        }
        i = i + 1;
        assert(ms@ =~= marks_upto(all@.take(i as int), countdown));
    }
    assert(all@.take(7) =~= all@);
    let mut steps: Vec<(u32, u32)> = Vec::new();
    let mut remaining = countdown;
    let mut j: usize = 0;
    assert(ms@.skip(0) =~= ms@);
    while j < ms.len()
        invariant
            j <= ms@.len(),
            schedule(ms@, countdown) == ((steps@ + schedule(ms@.skip(j as int), remaining).0), schedule(ms@.skip(j as int), remaining).1),
        decreases ms@.len() - j,
    {
        let m = ms[j];
        assert(ms@.skip(j as int)[0] == m);
        assert(ms@.skip(j as int).drop_first() =~= ms@.skip(j + 1));
        if m < remaining {
            let ghost before = steps@;
            steps.push((remaining - m, m));
            let ghost tail = schedule(ms@.skip(j + 1), m);
            assert(steps@ + tail.0 =~= before + (seq![((remaining - m) as u32, m)] + tail.0));
            remaining = m;
        }
        j = j + 1;
    }
    assert(ms@.skip(j as int) =~= Seq::<u32>::empty());
    assert(steps@ + Seq::<(u32, u32)>::empty() =~= steps@);
    (steps, remaining)
}

pub open spec fn total_sleep(steps: Seq<(u32, u32)>) -> int
    decreases steps.len(),
{
    if steps.len() == 0 { 0 } else { steps[0].0 + total_sleep(steps.drop_first()) }
}

proof fn lemma_schedule(ms: Seq<u32>, remaining: u32)
    ensures
        total_sleep(schedule(ms, remaining).0) + schedule(ms, remaining).1 == remaining,
        schedule(ms, remaining).1 <= remaining,
        forall|i: int| 0 <= i < schedule(ms, remaining).0.len() ==> (#[trigger] schedule(ms, remaining).0[i]).1 < remaining,
        forall|i: int, j: int| 0 <= i < j < schedule(ms, remaining).0.len() ==>
            (#[trigger] schedule(ms, remaining).0[j]).1 < (#[trigger] schedule(ms, remaining).0[i]).1,
    decreases ms.len(),
{
    if ms.len() > 0 {
        if ms[0] < remaining {
            lemma_schedule(ms.drop_first(), ms[0]);
            let (steps, last) = schedule(ms.drop_first(), ms[0]);
            let all = seq![((remaining - ms[0]) as u32, ms[0])] + steps;
            assert(all.drop_first() =~= steps);
            assert forall|i: int, j: int| 0 <= i < j < all.len() implies (#[trigger] all[j]).1 < (#[trigger] all[i]).1 by {
                if i > 0 {
                    assert(all[i] == steps[i - 1] && all[j] == steps[j - 1]);
                } else {
                    assert(all[j] == steps[j - 1]);
                }
            }
            assert forall|i: int| 0 <= i < all.len() implies (#[trigger] all[i]).1 < remaining by {
                if i > 0 {
                    assert(all[i] == steps[i - 1]);
                }
            }
        } else {
            lemma_schedule(ms.drop_first(), remaining);
        }
    }
}

/// A countdown lasts exactly the announced seconds, and its announcements count down:
/// each step's mark is below the countdown and below the one before it.
pub proof fn lemma_countdown_exact(countdown: u32)
    ensures
        ({
            let (steps, last) = schedule(marks_upto(all_marks(), countdown), countdown);
            &&& total_sleep(steps) + last == countdown
            &&& forall|i: int| 0 <= i < steps.len() ==> (#[trigger] steps[i]).1 < countdown
            &&& forall|i: int, j: int| 0 <= i < j < steps.len() ==> (#[trigger] steps[j]).1 < (#[trigger] steps[i]).1
        }),
{
    lemma_schedule(marks_upto(all_marks(), countdown), countdown);
}

/// How long a restart waits for the server to come up (and to report running), in
/// seconds.
pub const READY_TIMEOUT_SECS: u64 = 300;

/// Where a restart stands: the countdown to announce, and whether the restart itself was
/// issued (as opposed to starting a stopped server).
#[derive(Debug, Clone, Copy, PartialEq, Eq, Structural)]
pub struct RestartRun {
    pub countdown: u32,
    pub restarted: bool,
}

/// What the caller reports back.
#[derive(Debug, Clone, Copy, PartialEq, Eq, Structural)]
pub enum RestartEvent {
    Begin,
    /// Players online (`None`: unknown), and seconds spent waiting for them so far.
    Players { count: Option<u32>, waited_secs: u64 },
    /// Whether the server is running.
    Status { running: bool },
    /// The countdown was announced and has run out.
    CountedDown,
    /// The server was started.
    Started,
    /// The restart was issued.
    Restarted,
    /// Whether the server reports running, and seconds spent waiting for that.
    RunningPoll { running: bool, waited_secs: u64 },
    /// Whether the server is ready, and seconds spent waiting for that.
    ReadyPoll { ready: bool, waited_secs: u64 },
}

/// The work to do next.
#[derive(Debug, Clone, Copy, PartialEq, Eq, Structural)]
pub enum RestartAction {
    /// Sleep this many seconds, then ask for the player count.
    AskPlayers { after_secs: u32 },
    AskStatus,
    /// Announce and run this countdown (see `countdown_plan`).
    CountDown(u32),
    Start,
    Restart,
    /// Sleep, then ask whether the server reports running.
    PollRunning { after_secs: u32 },
    /// Sleep, then ask whether the server is ready.
    PollReady { after_secs: u32 },
    /// Finished; `false`: it timed out (see `restart_timeout_message`).
    Finish { ok: bool },
}

/// The log line a step writes, if any.
#[derive(Debug, Clone)]
pub enum RestartLog {
    Skipped,
    StillOnline { players: u32, max_wait_secs: u64 },
    WaitingFor(u32),
    NotRunning,
    Restarting,
    ProcessStarted,
    Up,
}

pub open spec fn restart_step_spec(run: RestartRun, policy: RestartPolicy, can_console: bool, ev: RestartEvent)
    -> (RestartRun, RestartAction, Option<RestartLog>)
{
    match ev {
        RestartEvent::Begin => match policy {
            RestartPolicy::Never => (run, RestartAction::Finish { ok: true }, Some(RestartLog::Skipped)),
            RestartPolicy::Now { countdown_secs } => (RestartRun { countdown: countdown_secs, ..run }, RestartAction::AskStatus, None),
            RestartPolicy::WhenEmpty { .. } => (run, RestartAction::AskPlayers { after_secs: 0 }, None),
        },
        RestartEvent::Players { count, waited_secs } => {
            let (max_wait, c) = match policy {
                RestartPolicy::WhenEmpty { max_wait_secs, countdown_secs } => (max_wait_secs, countdown_secs),
                RestartPolicy::Now { countdown_secs } => (0u64, countdown_secs),
                RestartPolicy::Never => (0u64, 0u32),
            };
            let capped = RestartRun { countdown: if c < EMPTY_COUNTDOWN_CAP { c } else { EMPTY_COUNTDOWN_CAP }, ..run };
            match count {
                Some(n) if n > 0 => if waited_secs > max_wait {
                    (capped, RestartAction::AskStatus, Some(RestartLog::StillOnline { players: n, max_wait_secs: max_wait }))
                } else {
                    (run, RestartAction::AskPlayers { after_secs: 30 }, Some(RestartLog::WaitingFor(n)))
                },
                _ => (capped, RestartAction::AskStatus, None),
            }
        },
        RestartEvent::Status { running } => if !running {
            (run, RestartAction::Start, Some(RestartLog::NotRunning))
        } else if can_console && run.countdown > 0 {
            (run, RestartAction::CountDown(run.countdown), None)
        } else {
            (run, RestartAction::Restart, Some(RestartLog::Restarting))
        },
        RestartEvent::CountedDown => (run, RestartAction::Restart, Some(RestartLog::Restarting)),
        RestartEvent::Started => (RestartRun { restarted: false, ..run }, RestartAction::PollReady { after_secs: 0 }, None),
        RestartEvent::Restarted => (RestartRun { restarted: true, ..run }, RestartAction::PollRunning { after_secs: 5 }, None),
        RestartEvent::RunningPoll { running, waited_secs } => if running {
            (run, RestartAction::PollReady { after_secs: 0 }, Some(RestartLog::ProcessStarted))
        } else if waited_secs > READY_TIMEOUT_SECS {
            (run, RestartAction::Finish { ok: false }, None)
        } else {
            (run, RestartAction::PollRunning { after_secs: 2 }, None)
        },
        RestartEvent::ReadyPoll { ready, waited_secs } => if ready {
            (run, RestartAction::Finish { ok: true }, if run.restarted { Some(RestartLog::Up) } else { None })
        } else if waited_secs > READY_TIMEOUT_SECS {
            (run, RestartAction::Finish { ok: false }, None)
        } else {
            (run, RestartAction::PollReady { after_secs: 3 }, None)
        },
    }
}

/// One step of a restart: takes what the caller saw, says what to do next and what to
/// log. A `when-empty` restart waits (polling every 30 s) until nobody is online or its
/// limit has passed; a stopped server is started instead of restarted; the countdown is
/// only announced where there is a console.
pub fn restart_step(run: &mut RestartRun, policy: RestartPolicy, can_console: bool, ev: RestartEvent) -> (r: (RestartAction, Option<RestartLog>))
    ensures
        (*final(run), r.0, r.1) == restart_step_spec(*old(run), policy, can_console, ev),
{
    match ev {
        RestartEvent::Begin => match policy {
            RestartPolicy::Never => (RestartAction::Finish { ok: true }, Some(RestartLog::Skipped)),
            RestartPolicy::Now { countdown_secs } => {
                run.countdown = countdown_secs;
                (RestartAction::AskStatus, None)
            },
            RestartPolicy::WhenEmpty { .. } => (RestartAction::AskPlayers { after_secs: 0 }, None),
        },
        RestartEvent::Players { count, waited_secs } => {
            let (max_wait, c) = match policy {
                RestartPolicy::WhenEmpty { max_wait_secs, countdown_secs } => (max_wait_secs, countdown_secs),
                RestartPolicy::Now { countdown_secs } => (0u64, countdown_secs),
                RestartPolicy::Never => (0u64, 0u32),
            };
            let capped = if c < EMPTY_COUNTDOWN_CAP { c } else { EMPTY_COUNTDOWN_CAP };
            match empty_wait(count, waited_secs, max_wait) {
                EmptyWait::Proceed => {
                    run.countdown = capped;
                    (RestartAction::AskStatus, None)
                },
                EmptyWait::GiveUp(n) => {
                    run.countdown = capped;
                    (RestartAction::AskStatus, Some(RestartLog::StillOnline { players: n, max_wait_secs: max_wait }))
                },
                EmptyWait::Wait(n) => (RestartAction::AskPlayers { after_secs: 30 }, Some(RestartLog::WaitingFor(n))),
            }
        },
        RestartEvent::Status { running } => {
            if !running {
                (RestartAction::Start, Some(RestartLog::NotRunning))
            } else if can_console && run.countdown > 0 {
                (RestartAction::CountDown(run.countdown), None)
            } else {
                (RestartAction::Restart, Some(RestartLog::Restarting))
            }
        },
        RestartEvent::CountedDown => (RestartAction::Restart, Some(RestartLog::Restarting)),
        RestartEvent::Started => {
            run.restarted = false;
            (RestartAction::PollReady { after_secs: 0 }, None)
        },
        RestartEvent::Restarted => {
            run.restarted = true;
            (RestartAction::PollRunning { after_secs: 5 }, None)
        },
        RestartEvent::RunningPoll { running, waited_secs } => {
            if running {
                (RestartAction::PollReady { after_secs: 0 }, Some(RestartLog::ProcessStarted))
            } else if waited_secs > READY_TIMEOUT_SECS {
                (RestartAction::Finish { ok: false }, None)
            } else {
                (RestartAction::PollRunning { after_secs: 2 }, None)
            }
        },
        RestartEvent::ReadyPoll { ready, waited_secs } => {
            if ready {
                (RestartAction::Finish { ok: true }, if run.restarted { Some(RestartLog::Up) } else { None })
            } else if waited_secs > READY_TIMEOUT_SECS {
                (RestartAction::Finish { ok: false }, None)
            } else {
                (RestartAction::PollReady { after_secs: 3 }, None)
            }
        },
    }
}

/// The text of a log line, given how the waiting limit reads (`humantime`'s text of it).
pub open spec fn restart_log_text(l: RestartLog, max_wait_text: Seq<char>) -> Seq<char> {
    match l {
        RestartLog::Skipped => "restart: skipped (staged; takes effect on the next restart)"@,
        RestartLog::StillOnline { players, .. } => "restart: still "@ + crate::text::decimal(players as nat) + " online after "@ + max_wait_text + "; restarting anyway"@,
        RestartLog::WaitingFor(n) => "restart: waiting for "@ + crate::text::decimal(n as nat) + " player(s) to leave"@,
        RestartLog::NotRunning => "restart: server is not running; starting it"@,
        RestartLog::Restarting => "restart: restarting"@,
        RestartLog::ProcessStarted => "restart: process started, waiting for the server to finish loading"@,
        RestartLog::Up => "restart: server is up"@,
    }
}

pub fn restart_log(l: &RestartLog) -> (r: String)
    ensures
        r@ == restart_log_text(*l, match *l {
            RestartLog::StillOnline { max_wait_secs, .. } => crate::daemon::state::human_duration(max_wait_secs),
            _ => Seq::empty(),
        }),
{
    match l {
        RestartLog::Skipped => String::from_str("restart: skipped (staged; takes effect on the next restart)"),
        RestartLog::StillOnline { players, max_wait_secs } => {
            let mut out: Vec<char> = Vec::new();
            crate::text::push_str(&mut out, "restart: still ");
            crate::text::push_decimal(&mut out, *players);
            crate::text::push_str(&mut out, " online after ");
            let d = crate::daemon::state::format_secs(*max_wait_secs);
            crate::text::push_str(&mut out, d.as_str());
            crate::text::push_str(&mut out, "; restarting anyway");
            crate::text::string_from_chars(out.as_slice())
        },
        RestartLog::WaitingFor(n) => {
            let mut out: Vec<char> = Vec::new();
            crate::text::push_str(&mut out, "restart: waiting for ");
            crate::text::push_decimal(&mut out, *n);
            crate::text::push_str(&mut out, " player(s) to leave");
            crate::text::string_from_chars(out.as_slice())
        },
        RestartLog::NotRunning => String::from_str("restart: server is not running; starting it"),
        RestartLog::Restarting => String::from_str("restart: restarting"),
        RestartLog::ProcessStarted => String::from_str("restart: process started, waiting for the server to finish loading"),
        RestartLog::Up => String::from_str("restart: server is up"),
    }
}

/// The error of a restart that timed out: waiting for the process to report running
/// after the restart, or for the server to finish starting.
pub fn restart_timeout_message(waiting_for_running: bool) -> (r: &'static str)
    ensures
        r@ == (if waiting_for_running { "timed out waiting for server to be Running"@ } else { "timed out waiting for the server to finish starting"@ }),
{
    if waiting_for_running {
        "timed out waiting for server to be Running"
    } else {
        "timed out waiting for the server to finish starting"
    }
}

} // verus!
