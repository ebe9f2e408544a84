//! The background daemon: periodic checks and policy-driven automatic updates. The loop,
//! its clock and its work are the caller's; each decision is made here.

pub mod api;
pub mod busy;
pub mod state;
pub mod tick;

use vstd::prelude::*;
use crate::config::policy::EffectivePolicy;
use crate::control::restart::RestartPolicy;
use crate::lockfile::{first_named, Channel, LockFile};
use crate::sources::resolve::{CheckReport, UpdateCandidate};
use crate::text::{find_char, find_char_exec, has_sub, lower, skip_chars, take_chars, to_chars, trim, trim_chars, contains, lowercase};

verus! {

/// Whether an offered update may be applied without asking: a checksummed release that
/// declares the server's Minecraft version, not Geyser or Floodgate unless the policy
/// allows it, under a policy that applies anything by itself.
pub open spec fn auto_selectable_spec(u: UpdateCandidate, ps: Seq<crate::lockfile::PluginEntry>, auto_apply: Seq<char>, geyser_auto: bool) -> bool {
    let is_geyser = (match first_named(ps, u.name@) {
        Some(i) => ps[i].source@ is GeyserMc,
        None => false,
    }) || has_sub(lower(u.name@), "geyser"@);
    if u.unverified || u.latest.channel != Channel::Release {
        false
    } else if is_geyser && !geyser_auto {
        false
    } else if auto_apply == "all"@ || auto_apply == "same-mc-release"@ {
        !u.untested
    } else {
        false
    }
}

pub fn auto_selectable(u: &UpdateCandidate, lock: &LockFile, policy: &EffectivePolicy) -> (r: bool)
    ensures
        r == auto_selectable_spec(*u, lock.plugins@, policy.auto_apply@, policy.geyser_auto),
{
    proof {
        reveal_strlit("geyser");
        reveal_strlit("all");
        reveal_strlit("same-mc-release");
    }
    if u.unverified || u.latest.channel != Channel::Release {
        return false;
    }
    let by_source = match lock.get(u.name.as_str()) {
        Some(e) => match &e.source {
            crate::lockfile::SourceRef::GeyserMc { .. } => true,
            _ => false,
        },
        None => false,
    };
    let lname = lowercase(u.name.as_str());
    let ln = to_chars(lname.as_str());
    let g = to_chars("geyser");
    let is_geyser = by_source || contains(ln.as_slice(), g.as_slice());
    if is_geyser && !policy.geyser_auto {
        return false;
    }
    if crate::lockfile::str_eq(policy.auto_apply.as_str(), "all") || crate::lockfile::str_eq(policy.auto_apply.as_str(), "same-mc-release") {
        !u.untested
    } else {
        false
    }
}

/// The updates the daemon applies by itself, in report order.
pub open spec fn selected_spec(us: Seq<UpdateCandidate>, ps: Seq<crate::lockfile::PluginEntry>, auto_apply: Seq<char>, geyser_auto: bool) -> Seq<UpdateCandidate>
    decreases us.len(),
{
    if us.len() == 0 {
        Seq::empty()
    } else {
        let r = selected_spec(us.drop_last(), ps, auto_apply, geyser_auto);
        if auto_selectable_spec(us.last(), ps, auto_apply, geyser_auto) { r.push(us.last()) } else { r }
    }
}

/// What the daemon applies by itself is never a pre-release, never a file without a
/// checksum and never a version that does not declare the server's Minecraft version;
/// under any other policy than `all` and `same-mc-release` it applies nothing.
pub proof fn lemma_auto_selection_is_safe(us: Seq<UpdateCandidate>, ps: Seq<crate::lockfile::PluginEntry>, auto_apply: Seq<char>, geyser_auto: bool)
    ensures
        forall|i: int| 0 <= i < selected_spec(us, ps, auto_apply, geyser_auto).len() ==> {
            let u = #[trigger] selected_spec(us, ps, auto_apply, geyser_auto)[i];
            &&& !u.unverified
            &&& u.latest.channel == Channel::Release
            &&& !u.untested
        },
        auto_apply != "all"@ && auto_apply != "same-mc-release"@ ==> selected_spec(us, ps, auto_apply, geyser_auto).len() == 0,
    decreases us.len(),
{
    if us.len() > 0 {
        lemma_auto_selection_is_safe(us.drop_last(), ps, auto_apply, geyser_auto);
    }
}

/// The names of the updates the daemon applies by itself.
pub fn select_updates(report: &CheckReport, lock: &LockFile, policy: &EffectivePolicy) -> (r: Vec<String>)
    ensures
        crate::text::sviews(r@) == selected_spec(report.updates@, lock.plugins@, policy.auto_apply@, policy.geyser_auto).map_values(|u: UpdateCandidate| u.name@),
{
    let ghost us = report.updates@;
    let mut out: Vec<String> = Vec::new();
    let mut i: usize = 0;
    assert(us.take(0) =~= Seq::<UpdateCandidate>::empty());
    while i < report.updates.len()
        invariant
            i <= us.len(),
            us == report.updates@,
            crate::text::sviews(out@) == selected_spec(us.take(i as int), lock.plugins@, policy.auto_apply@, policy.geyser_auto).map_values(|u: UpdateCandidate| u.name@),
        decreases us.len() - i,
    {
        assert(us.take(i + 1).drop_last() =~= us.take(i as int));
        assert(us.take(i + 1).last() == us[i as int]);
        let ghost before = crate::text::sviews(out@);
        if auto_selectable(&report.updates[i], lock, policy) {
            out.push(crate::text::clone_string(&report.updates[i].name));
            assert(crate::text::sviews(out@) =~= before.push(us[i as int].name@));
        }
        i = i + 1;
        assert(crate::text::sviews(out@) =~= selected_spec(us.take(i as int), lock.plugins@, policy.auto_apply@, policy.geyser_auto).map_values(|u: UpdateCandidate| u.name@));
    }
    assert(us.take(us.len() as int) =~= us);
    out
}

/// The longest check interval a time delta holds; beyond it the daemon checks every six
/// hours.
pub const MAX_INTERVAL_SECS: u64 = 9223372036854775;

/// A server is due for a check when it was never checked, or its interval has passed.
pub open spec fn check_due_spec(last_check: Option<i64>, now: i64, interval_secs: u64) -> bool {
    match last_check {
        None => true,
        Some(t) => now - t >= (if interval_secs <= MAX_INTERVAL_SECS { interval_secs as int } else { 21600 }),
    }
}

pub fn check_due(last_check: Option<i64>, now: i64, interval_secs: u64) -> (r: bool)
    ensures
        r == check_due_spec(last_check, now, interval_secs),
{
    match last_check {
        None => true,
        Some(t) => {
            let age: i128 = now as i128 - t as i128;
            let interval: i128 = if interval_secs <= MAX_INTERVAL_SECS { interval_secs as i128 } else { 21600 };
            age >= interval
        },
    }
}

/// A warning about an unwritable plugin directory is repeated at most once a day.
pub fn warning_due(last_warning: Option<i64>, now: i64) -> (r: bool)
    ensures
        r == match last_warning {
            None => true,
            Some(t) => now - t > 86400,
        },
{
    match last_warning {
        None => true,
        Some(t) => now as i128 - t as i128 > 86400,
    }
}

/// The restart an automatic update asks for: the policy's, but never one the server's
/// control cannot carry out.
pub open spec fn daemon_restart_spec(restart: Seq<char>, countdown: u32, can_restart: bool) -> RestartPolicy {
    let p = if restart == "now"@ {
        RestartPolicy::Now { countdown_secs: countdown }
    } else if restart == "when-empty"@ {
        RestartPolicy::WhenEmpty { max_wait_secs: 14400, countdown_secs: countdown }
    } else {
        RestartPolicy::Never
    };
    if p != RestartPolicy::Never && !can_restart { RestartPolicy::Never } else { p }
}

pub fn daemon_restart(policy: &EffectivePolicy, can_restart: bool) -> (r: RestartPolicy)
    ensures
        r == daemon_restart_spec(policy.restart@, policy.countdown, can_restart),
{
    proof {
        reveal_strlit("now");
        reveal_strlit("when-empty");
    }
    let p = if crate::lockfile::str_eq(policy.restart.as_str(), "now") {
        RestartPolicy::Now { countdown_secs: policy.countdown }
    } else if crate::lockfile::str_eq(policy.restart.as_str(), "when-empty") {
        RestartPolicy::WhenEmpty { max_wait_secs: 14400, countdown_secs: policy.countdown }
    } else {
        RestartPolicy::Never
    };
    let never = match p {
        RestartPolicy::Never => true,
        _ => false,
    };
    if !never && !can_restart { RestartPolicy::Never } else { p }
}

/// A local time of day, `HH:MM`, as chrono's `%H:%M` reads it.
pub uninterp spec fn hhmm_time(s: Seq<char>) -> Option<(u32, u32)>;

/// `chrono::NaiveTime::parse_from_str(s, "%H:%M")`, as hour and minute.
#[verifier::external_body]
fn parse_hhmm(s: &str) -> (r: Option<(u32, u32)>)
    ensures
        r == hhmm_time(s@),
        r matches Some((h, m)) ==> h < 24 && m < 60,
{
    let t = chrono::NaiveTime::parse_from_str(s, "%H:%M").ok()?;
    Some((chrono::Timelike::hour(&t), chrono::Timelike::minute(&t)))
}

/// The seconds since midnight a range `a-b` (trimmed on both sides of the `-`) covers:
/// `[a, b)`, wrapping past midnight when `a` is after `b`.
pub open spec fn in_range_spec(range: Seq<char>, now_secs: int) -> bool {
    match find_char(range, '-') {
        Some(i) => match (hhmm_time(trim(range.take(i))), hhmm_time(trim(range.skip(i + 1)))) {
            (Some((ah, am)), Some((bh, bm))) => {
                let a = ah * 3600 + am * 60;
                let b = bh * 3600 + bm * 60;
                if a <= b { a <= now_secs && now_secs < b } else { now_secs >= a || now_secs < b }
            },
            _ => false,
        },
        None => false,
    }
}

/// The two ends of a range `a-b`, in seconds since midnight, when both read as `HH:MM`.
pub open spec fn range_ends(range: Seq<char>) -> Option<(int, int)> {
    match find_char(range, '-') {
        Some(i) => match (hhmm_time(trim(range.take(i))), hhmm_time(trim(range.skip(i + 1)))) {
            (Some((ah, am)), Some((bh, bm))) => Some((ah * 3600 + am * 60, bh * 3600 + bm * 60)),
            _ => None,
        },
        None => None,
    }
}

/// A range covers its start and not its end, and the range the other way round covers
/// exactly the rest of the day: `22:00-06:00` holds every time that `06:00-22:00` does
/// not (23:00 and 01:00 among them). A range whose ends do not read covers nothing.
pub proof fn lemma_quiet_range(r1: Seq<char>, r2: Seq<char>, a: int, b: int, t: int)
    requires
        range_ends(r1) == Some((a, b)),
        range_ends(r2) == Some((b, a)),
        a != b,
        0 <= t < 86400,
    ensures
        in_range_spec(r1, a),
        !in_range_spec(r1, b),
        in_range_spec(r1, t) == !in_range_spec(r2, t),
        a > b ==> (in_range_spec(r1, t) <==> (t >= a || t < b)),
        forall|r: Seq<char>, x: int| range_ends(r) is None ==> !#[trigger] in_range_spec(r, x),
{
}

/// A range that starts where it ends covers no time at all.
pub proof fn lemma_empty_range(r: Seq<char>, a: int, t: int)
    requires
        range_ends(r) == Some((a, a)),
    ensures
        !in_range_spec(r, t),
{
}

fn in_range(range: &str, now_secs: u32) -> (r: bool)
    ensures
        r == in_range_spec(range@, now_secs as int),
{
    let cs = to_chars(range);
    let n = cs.len();
    match find_char_exec(cs.as_slice(), '-') {
        Some(i) => {
            let a = trim_chars(take_chars(cs.as_slice(), i).as_slice());
            let b = trim_chars(skip_chars(cs.as_slice(), i + 1).as_slice());
            let sa = crate::text::string_from_chars(a.as_slice());
            let sb = crate::text::string_from_chars(b.as_slice());
            match (parse_hhmm(sa.as_str()), parse_hhmm(sb.as_str())) {
                (Some((ah, am)), Some((bh, bm))) => {
                    let x = ah * 3600 + am * 60;
                    let y = bh * 3600 + bm * 60;
                    if x <= y { x <= now_secs && now_secs < y } else { now_secs >= x || now_secs < y }
                },
                _ => false,
            }
        },
        None => false,
    }
}

/// Whether the local time of day (seconds since midnight) falls in one of the policy's
/// quiet hours.
pub fn in_quiet_hours(policy: &EffectivePolicy, now_secs: u32) -> (r: bool)
    ensures
        r == exists|i: int| 0 <= i < policy.quiet_hours@.len() && in_range_spec(#[trigger] policy.quiet_hours@[i]@, now_secs as int),
{
    let mut i: usize = 0;
    while i < policy.quiet_hours.len()
        invariant
            i <= policy.quiet_hours@.len(),
            forall|j: int| 0 <= j < i ==> !in_range_spec(#[trigger] policy.quiet_hours@[j]@, now_secs as int),
        decreases policy.quiet_hours@.len() - i,
    {
        if in_range(policy.quiet_hours[i].as_str(), now_secs) {
            return true;
        }
        i = i + 1;
    }
    false
}

/// A scheduled restart at `HH:MM` is today unless that time has come (or it is that very
/// minute); an unreadable time means 04:30. Gives the day offset (0 or 1) and the time.
pub open spec fn next_restart_spec(hhmm: Seq<char>, now_secs: int) -> (int, u32, u32) {
    let (h, m) = match hhmm_time(hhmm) {
        Some((h, m)) => (h, m),
        None => (4u32, 30u32),
    };
    let t = h * 3600 + m * 60;
    let tomorrow = t <= now_secs || (now_secs / 3600 == h && (now_secs % 3600) / 60 >= m);
    (if tomorrow { 1 } else { 0 }, h, m)
}

pub fn next_restart(hhmm: &str, now_secs: u32) -> (r: (u32, u32, u32))
    requires
        now_secs < 86400,
    ensures
        (r.0 as int, r.1, r.2) == next_restart_spec(hhmm@, now_secs as int),
{
    let (h, m) = match parse_hhmm(hhmm) {
        Some((h, m)) => (h, m),
        None => (4u32, 30u32),
    };
    let t = h * 3600 + m * 60;
    let tomorrow = t <= now_secs || (now_secs / 3600 == h && (now_secs % 3600) / 60 >= m);
    (if tomorrow { 1 } else { 0 }, h, m)
}

} // verus!
