//! The daemon's localhost endpoint for McplugBridge's `/mcplug` command: a minimal
//! HTTP/1.1 exchange, one route, JSON in and out. The socket is the caller's; reading the
//! request and writing the response are here.
//!
//! Each server's bridge has its own token; a request's token selects the server it may act
//! on, and there is no way to name another server.

use vstd::prelude::*;
use crate::json::{command_fields, command_json, json_object, json_object_text};
use crate::lockfile::{LockFile, PluginEntry};
use crate::sources::resolve::{CheckReport, UpdateCandidate};
use crate::text::{concat2, concat3, decimal, find_char, find_char_exec, is_prefix, join_with, lines, lines_of, lower, lower_chars, push_decimal, push_str, skip_chars, starts_with, string_from_chars, sviews, take_chars, to_chars, trim, trim_chars, views};

verus! {

/// The most header bytes read before giving up.
pub const MAX_HEAD: usize = 16384;
/// The largest body accepted.
pub const MAX_BODY: usize = 65536;

/// Where the request head ends: just after the first blank line (`\r\n\r\n`).
pub fn head_end(b: &[u8]) -> (r: Option<usize>)
    ensures
        match r {
            Some(e) => 4 <= e <= b@.len() && b@.subrange(e - 4, e as int) == seq![13u8, 10u8, 13u8, 10u8]
                && forall|j: int| 0 <= j < e - 4 ==> #[trigger] b@.subrange(j, j + 4) != seq![13u8, 10u8, 13u8, 10u8],
            None => forall|j: int| 0 <= j && j + 4 <= b@.len() ==> #[trigger] b@.subrange(j, j + 4) != seq![13u8, 10u8, 13u8, 10u8],
        },
{
    let n = b.len();
    let mut i: usize = 0;
    while n >= 4 && i <= n - 4
        invariant
            n == b@.len(),
            forall|j: int| 0 <= j < i ==> #[trigger] b@.subrange(j, j + 4) != seq![13u8, 10u8, 13u8, 10u8],
        decreases n - i,
    {
        if b[i] == 13 && b[i + 1] == 10 && b[i + 2] == 13 && b[i + 3] == 10 {
            assert(b@.subrange(i as int, i + 4) =~= seq![13u8, 10u8, 13u8, 10u8]);
            return Some(i + 4);
        }
        assert(b@.subrange(i as int, i + 4) != seq![13u8, 10u8, 13u8, 10u8]) by {
            if b@.subrange(i as int, i + 4) == seq![13u8, 10u8, 13u8, 10u8] {
                assert(b@.subrange(i as int, i + 4)[0] == b@[i as int]);
                assert(b@.subrange(i as int, i + 4)[1] == b@[i + 1]);
                assert(b@.subrange(i as int, i + 4)[2] == b@[i + 2]);
                assert(b@.subrange(i as int, i + 4)[3] == b@[i + 3]);
            }
        }
        i = i + 1;
    }
    None
}

/// What the handler reads from the request head.
#[derive(Debug, Clone)]
pub struct RequestHead {
    pub request_line: String,
    /// The bearer token, when an `Authorization: Bearer …` header is present.
    pub token: Option<String>,
    pub content_length: usize,
}

/// One header line's effect on the token: the last `authorization` header wins, and one
/// that is not a bearer token clears it.
pub open spec fn header_name(l: Seq<char>) -> Option<Seq<char>> {
    match find_char(l, ':') {
        Some(i) => Some(lower(trim(l.take(i)))),
        None => None,
    }
}

pub open spec fn header_value(l: Seq<char>) -> Seq<char> {
    match find_char(l, ':') {
        Some(i) => trim(l.skip(i + 1)),
        None => Seq::empty(),
    }
}

/// `usize::from_str` of decimal digits (with an optional `+`), or 0 when it does not read.
pub open spec fn length_value(v: Seq<char>) -> nat {
    match crate::text::parse_usize_spec(v) {
        Some(n) => n as nat,
        None => 0,
    }
}

/// The token and content length after the header lines `ls`.
pub open spec fn headers_spec(ls: Seq<Seq<char>>) -> (Option<Seq<char>>, nat)
    decreases ls.len(),
{
    if ls.len() == 0 {
        (None, 0)
    } else {
        let (tok, len) = headers_spec(ls.drop_last());
        let l = ls.last();
        match header_name(l) {
            Some(n) => if n == "authorization"@ {
                (if is_prefix("Bearer "@, header_value(l)) { Some(header_value(l).skip(7)) } else { None }, len)
            } else if n == "content-length"@ {
                (tok, length_value(header_value(l)))
            } else {
                (tok, len)
            },
            None => (tok, len),
        }
    }
}

/// The head's request line (its first line) and the token and length its headers give.
pub open spec fn parse_head_spec(head: Seq<char>) -> (Seq<char>, Option<Seq<char>>, nat) {
    let ls = lines_of(head);
    if ls.len() == 0 {
        (Seq::empty(), None, 0)
    } else {
        let (t, n) = headers_spec(ls.drop_first());
        (ls[0], t, n)
    }
}

/// Reads the request head (the text up to and including the blank line).
pub fn parse_head(head: &str) -> (r: RequestHead)
    ensures
        ({
            let (l, t, n) = parse_head_spec(head@);
            r.request_line@ == l && crate::text::opt_view(r.token) == t && r.content_length as nat == n
        }),
{
    proof {
        reveal_strlit("authorization");
        reveal_strlit("content-length");
        reveal_strlit("Bearer ");
    }
    let cs = to_chars(head);
    let ls = lines(cs.as_slice());
    let ghost lv = views(ls@);
    if ls.len() == 0 {
        return RequestHead { request_line: String::new(), token: None, content_length: 0 };
    }
    let request_line = string_from_chars(ls[0].as_slice());
    let auth_name = to_chars("authorization");
    let len_name = to_chars("content-length");
    let bearer = to_chars("Bearer ");
    let mut token: Option<String> = None;
    let mut len: usize = 0;
    let mut i: usize = 1;
    assert(lv.drop_first().take(0) =~= Seq::<Seq<char>>::empty());
    while i < ls.len()
        invariant
            1 <= i <= ls@.len(),
            lv == views(ls@),
            auth_name@ == "authorization"@,
            len_name@ == "content-length"@,
            bearer@ == "Bearer "@,
            ({
                let (t, n) = headers_spec(lv.drop_first().take(i - 1));
                crate::text::opt_view(token) == t && len as nat == n
            }),
        decreases ls@.len() - i,
    {
        let ghost hs = lv.drop_first().take(i - 1);
        assert(lv.drop_first().take(i as int).drop_last() =~= hs);
        assert(lv.drop_first().take(i as int).last() == ls@[i as int]@);
        let l = &ls[i];
        match find_char_exec(l.as_slice(), ':') {
            Some(c) => {
                let ll = l.len();
                let k = trim_chars(take_chars(l.as_slice(), c).as_slice());
                let k = lower_chars(k.as_slice());
                let v = trim_chars(skip_chars(l.as_slice(), c + 1).as_slice());
                if crate::text::eq_chars(k.as_slice(), auth_name.as_slice()) {
                    if starts_with(v.as_slice(), bearer.as_slice()) {
                        proof {
                            reveal_strlit("Bearer ");
                        }
                        assert(bearer@.len() == 7);
                        let t = skip_chars(v.as_slice(), 7);
                        token = Some(string_from_chars(t.as_slice()));
                    } else {
                        token = None;
                    }
                } else if crate::text::eq_chars(k.as_slice(), len_name.as_slice()) {
                    len = match crate::text::parse_usize(v.as_slice()) {
                        Some(n) => n,
                        None => 0,
                    };
                }
            },
            None => {},
        }
        i = i + 1;
    }
    assert(lv.drop_first().take(ls@.len() - 1) =~= lv.drop_first());
    RequestHead { request_line, token, content_length: len }
}

/// The reason phrase of a status code.
pub open spec fn reason_spec(code: u16) -> Seq<char> {
    if code == 200 {
        "OK"@
    } else if code == 401 {
        "Unauthorized"@
    } else if code == 404 {
        "Not Found"@
    } else if code == 413 {
        "Payload Too Large"@
    } else if code == 431 {
        "Request Header Fields Too Large"@
    } else {
        "Error"@
    }
}

/// A whole response: status line, JSON content type, length, `Connection: close`, body.
pub open spec fn response_spec(code: u16, body: Seq<char>, body_bytes: nat) -> Seq<char> {
    "HTTP/1.1 "@ + decimal(code as nat) + " "@ + reason_spec(code) + "\r\nContent-Type: application/json\r\nContent-Length: "@
        + decimal(body_bytes) + "\r\nConnection: close\r\n\r\n"@ + body
}

/// The response text; `body_bytes` is the body's length in UTF-8 bytes.
pub fn response(code: u16, body: &str, body_bytes: u32) -> (r: String)
    ensures
        r@ == response_spec(code, body@, body_bytes as nat),
{
    proof {
        reveal_strlit("HTTP/1.1 ");
        reveal_strlit(" ");
        reveal_strlit("\r\nContent-Type: application/json\r\nContent-Length: ");
        reveal_strlit("\r\nConnection: close\r\n\r\n");
        reveal_strlit("OK");
        reveal_strlit("Unauthorized");
        reveal_strlit("Not Found");
        reveal_strlit("Payload Too Large");
        reveal_strlit("Request Header Fields Too Large");
        reveal_strlit("Error");
    }
    let reason = if code == 200 {
        "OK"
    } else if code == 401 {
        "Unauthorized"
    } else if code == 404 {
        "Not Found"
    } else if code == 413 {
        "Payload Too Large"
    } else if code == 431 {
        "Request Header Fields Too Large"
    } else {
        "Error"
    };
    let mut out: Vec<char> = Vec::new();
    push_str(&mut out, "HTTP/1.1 ");
    push_decimal(&mut out, code as u32);
    push_str(&mut out, " ");
    push_str(&mut out, reason);
    push_str(&mut out, "\r\nContent-Type: application/json\r\nContent-Length: ");
    push_decimal(&mut out, body_bytes);
    push_str(&mut out, "\r\nConnection: close\r\n\r\n");
    push_str(&mut out, body);
    string_from_chars(out.as_slice())
}

/// What the handler does with a request before acting on it.
#[derive(Debug, Clone, Copy, PartialEq, Eq, Structural)]
pub enum Gate {
    /// Act on it: find the server by token and run the command.
    Proceed,
    BodyTooLarge,
    NotFound,
    MissingToken,
}

/// Too large a body is refused first, then anything but the command route, then a request
/// without a token.
pub fn gate(head: &RequestHead) -> (r: Gate)
    ensures
        r == (if head.content_length > MAX_BODY {
            Gate::BodyTooLarge
        } else if !is_prefix("POST /v1/command"@, head.request_line@) {
            Gate::NotFound
        } else if head.token is None {
            Gate::MissingToken
        } else {
            Gate::Proceed
        }),
{
    if head.content_length > MAX_BODY {
        return Gate::BodyTooLarge;
    }
    let l = to_chars(head.request_line.as_str());
    let p = to_chars("POST /v1/command");
    proof {
        reveal_strlit("POST /v1/command");
    }
    if !starts_with(l.as_slice(), p.as_slice()) {
        return Gate::NotFound;
    }
    if head.token.is_none() {
        return Gate::MissingToken;
    }
    Gate::Proceed
}

/// The plugins an `update` command names: every tested update for `all` (or nothing
/// named), else the lock's plugins called `target` ignoring ASCII case.
pub open spec fn named_plugins(ps: Seq<PluginEntry>, t: Seq<char>) -> Seq<Seq<char>>
    decreases ps.len(),
{
    if ps.len() == 0 {
        Seq::empty()
    } else {
        let r = named_plugins(ps.drop_last(), t);
        if lower(ps.last().name@) == lower(t) { r.push(ps.last().name@) } else { r }
    }
}

pub open spec fn tested_names(us: Seq<UpdateCandidate>) -> Seq<Seq<char>>
    decreases us.len(),
{
    if us.len() == 0 {
        Seq::empty()
    } else {
        let r = tested_names(us.drop_last());
        if us.last().untested { r } else { r.push(us.last().name@) }
    }
}

pub open spec fn update_targets_spec(us: Seq<UpdateCandidate>, ps: Seq<PluginEntry>, target: Seq<char>) -> Seq<Seq<char>> {
    if target.len() == 0 || target == "all"@ { tested_names(us) } else { named_plugins(ps, target) }
}

pub fn update_targets(report: &CheckReport, lock: &LockFile, target: &str) -> (r: Vec<String>)
    ensures
        sviews(r@) == update_targets_spec(report.updates@, lock.plugins@, target@),
{
    let t = to_chars(target);
    proof {
        reveal_strlit("all");
    }
    let mut out: Vec<String> = Vec::new();
    if t.len() == 0 || crate::lockfile::str_eq(target, "all") {
        let ghost us = report.updates@;
        let mut i: usize = 0;
        assert(us.take(0) =~= Seq::<UpdateCandidate>::empty());
        while i < report.updates.len()
            invariant
                i <= us.len(),
                us == report.updates@,
                sviews(out@) == tested_names(us.take(i as int)),
            decreases us.len() - i,
        {
            assert(us.take(i + 1).drop_last() =~= us.take(i as int));
            assert(us.take(i + 1).last() == us[i as int]);
            let ghost before = sviews(out@);
            if !report.updates[i].untested {
                out.push(crate::text::clone_string(&report.updates[i].name));
                assert(sviews(out@) =~= before.push(us[i as int].name@));
            }
            i = i + 1;
        }
        assert(us.take(us.len() as int) =~= us);
    } else {
        let ghost ps = lock.plugins@;
        let mut i: usize = 0;
        assert(ps.take(0) =~= Seq::<PluginEntry>::empty());
        while i < lock.plugins.len()
            invariant
                i <= ps.len(),
                ps == lock.plugins@,
                t@ == target@,
                sviews(out@) == named_plugins(ps.take(i as int), target@),
            decreases ps.len() - i,
        {
            assert(ps.take(i + 1).drop_last() =~= ps.take(i as int));
            assert(ps.take(i + 1).last() == ps[i as int]);
            let n = to_chars(lock.plugins[i].name.as_str());
            let ghost before = sviews(out@);
            if crate::text::eq_ignore_case(n.as_slice(), t.as_slice()) {
                out.push(crate::text::clone_string(&lock.plugins[i].name));
                assert(sviews(out@) =~= before.push(ps[i as int].name@));
            }
            i = i + 1;
        }
        assert(ps.take(ps.len() as int) =~= ps);
    }
    out
}

/// How an update shows in a `check` answer: `  ↑ name installed → latest`, marked when
/// untested.
pub open spec fn check_line(u: UpdateCandidate) -> Seq<char> {
    "  ↑ "@ + u.name@ + " "@ + u.installed@ + " → "@ + u.latest.version_number@ + if u.untested { " (untested)"@ } else { ""@ }
}

/// The answer to `check`: all up to date, or the count and one line per update.
pub open spec fn check_message_spec(r: CheckReport) -> Seq<char> {
    if r.updates@.len() == 0 {
        "all "@ + decimal(r.up_to_date@.len()) + " managed plugins are up to date"@
    } else {
        join_with(seq![decimal(r.updates@.len()) + " update(s) available — /mcplug update all, or /mcplug update <plugin>"@]
            + r.updates@.map_values(|u: UpdateCandidate| check_line(u)), "\n"@)
    }
}

pub fn check_message(report: &CheckReport) -> (r: String)
    requires
        report.updates@.len() <= u32::MAX,
        report.up_to_date@.len() <= u32::MAX,
    ensures
        r@ == check_message_spec(*report),
{
    proof {
        reveal_strlit("all ");
        reveal_strlit(" managed plugins are up to date");
        reveal_strlit(" update(s) available — /mcplug update all, or /mcplug update <plugin>");
        reveal_strlit("  ↑ ");
        reveal_strlit(" ");
        reveal_strlit(" → ");
        reveal_strlit(" (untested)");
        reveal_strlit("");
        reveal_strlit("\n");
    }
    if report.updates.len() == 0 {
        let mut out: Vec<char> = Vec::new();
        push_str(&mut out, "all ");
        push_decimal(&mut out, report.up_to_date.len() as u32);
        push_str(&mut out, " managed plugins are up to date");
        return string_from_chars(out.as_slice());
    }
    let mut parts: Vec<Vec<char>> = Vec::new();
    let mut first: Vec<char> = Vec::new();
    push_decimal(&mut first, report.updates.len() as u32);
    push_str(&mut first, " update(s) available — /mcplug update all, or /mcplug update <plugin>");
    parts.push(first);
    let ghost us = report.updates@;
    let mut i: usize = 0;
    while i < report.updates.len()
        invariant
            i <= us.len(),
            us == report.updates@,
            views(parts@) == seq![decimal(us.len() as nat) + " update(s) available — /mcplug update all, or /mcplug update <plugin>"@]
                + us.take(i as int).map_values(|u: UpdateCandidate| check_line(u)),
        decreases us.len() - i,
    {
        let u = &report.updates[i];
        let mut l: Vec<char> = Vec::new();
        push_str(&mut l, "  ↑ ");
        push_str(&mut l, u.name.as_str());
        push_str(&mut l, " ");
        push_str(&mut l, u.installed.as_str());
        push_str(&mut l, " → ");
        push_str(&mut l, u.latest.version_number.as_str());
        push_str(&mut l, if u.untested { " (untested)" } else { "" });
        let ghost before = views(parts@);
        assert(l@ == check_line(us[i as int]));
        parts.push(l);
        assert(views(parts@) =~= before.push(check_line(us[i as int])));
        i = i + 1;
        assert(views(parts@) =~= seq![decimal(us.len() as nat) + " update(s) available — /mcplug update all, or /mcplug update <plugin>"@]
            + us.take(i as int).map_values(|u: UpdateCandidate| check_line(u)));
    }
    assert(us.take(us.len() as int) =~= us);
    let sep = to_chars("\n");
    let j = crate::text::join_chars(&parts, sep.as_slice());
    string_from_chars(j.as_slice())
}

/// The answer when nothing can be updated.
pub fn nothing_message(target: &str) -> (r: String)
    ensures
        r@ == (if target@.len() == 0 || target@ == "all"@ {
            "nothing to update"@
        } else {
            "no managed plugin called "@ + crate::cli::update::debug_quoted(target@)
        }),
{
    proof {
        reveal_strlit("all");
        reveal_strlit("nothing to update");
        reveal_strlit("no managed plugin called ");
    }
    let t = to_chars(target);
    if t.len() == 0 || crate::lockfile::str_eq(target, "all") {
        String::from_str("nothing to update")
    } else {
        let q = crate::cli::update::debug_str(target);
        concat2("no managed plugin called ", q.as_str())
    }
}

/// How long a `restart` command counts down: the policy's countdown, at most a minute.
pub fn restart_countdown(countdown: u32) -> (r: u32)
    ensures
        r == (if countdown < 60 { countdown } else { 60 }),
{
    if countdown < 60 { countdown } else { 60 }
}

/// How long an `update` command's restart counts down once the server is empty: at most
/// thirty seconds.
pub fn update_countdown(countdown: u32) -> (r: u32)
    ensures
        r == (if countdown < 30 { countdown } else { 30 }),
{
    if countdown < 30 { countdown } else { 30 }
}


/// How long ago something happened, to the minute (`3h 12m ago`); a time in the future
/// reads as now.
pub open spec fn ago_spec(age_secs: i64) -> Seq<char> {
    let s: int = if age_secs < 0 { 0 } else { age_secs as int };
    crate::daemon::state::human_duration((s - s % 60) as u64) + " ago"@
}

pub fn ago_text(age_secs: i64) -> (r: String)
    ensures
        r@ == ago_spec(age_secs),
{
    let s: u64 = if age_secs < 0 { 0 } else { age_secs as u64 };
    let h = crate::daemon::state::format_secs(s - s % 60);
    proof {
        reveal_strlit(" ago");
    }
    concat2(h.as_str(), " ago")
}

/// The plugins mcplug manages.
pub open spec fn managed_count(ps: Seq<PluginEntry>) -> nat
    decreases ps.len(),
{
    if ps.len() == 0 {
        0
    } else {
        managed_count(ps.drop_last()) + if crate::lockfile::managed(ps.last().source) { 1nat } else { 0nat }
    }
}

/// The answer to `status`: the managed count, when the last check was and what it found
/// (`ago` and `result`), up to eight of the updates it offered, and a scheduled restart.
pub open spec fn status_spec(name: Seq<char>, managed: nat, last: Option<(Seq<char>, Seq<char>)>, updates: Seq<Seq<char>>, restart_at: Option<Seq<char>>) -> Seq<char> {
    let head = seq![name + ": "@ + decimal(managed) + " plugins managed by mcplug"@];
    let checked = match last {
        Some((ago, result)) => seq!["last check "@ + ago + " — "@ + result],
        None => seq!["not checked yet — /mcplug check"@],
    };
    let ups = updates.take(if updates.len() < 8 { updates.len() as int } else { 8 }).map_values(|u: Seq<char>| "  ↑ "@ + u);
    let rs = match restart_at {
        Some(t) => seq!["restart scheduled for "@ + t],
        None => Seq::<Seq<char>>::empty(),
    };
    join_with(head + checked + ups + rs, "\n"@)
}

pub fn status_message(name: &str, lock: &LockFile, last: Option<(String, String)>, updates: &Vec<String>, restart_at: Option<String>) -> (r: String)
    requires
        lock.plugins@.len() <= u32::MAX,
    ensures
        r@ == status_spec(name@, managed_count(lock.plugins@), match last {
            Some((a, b)) => Some((a@, b@)),
            None => None,
        }, sviews(updates@), crate::text::opt_view(restart_at)),
{
    proof {
        reveal_strlit(": ");
        reveal_strlit(" plugins managed by mcplug");
        reveal_strlit("last check ");
        reveal_strlit(" — ");
        reveal_strlit("not checked yet — /mcplug check");
        reveal_strlit("  ↑ ");
        reveal_strlit("restart scheduled for ");
        reveal_strlit("\n");
    }
    let mut count: u32 = 0;
    let mut i: usize = 0;
    assert(lock.plugins@.take(0) =~= Seq::<PluginEntry>::empty());
    while i < lock.plugins.len()
        invariant
            i <= lock.plugins@.len(),
            lock.plugins@.len() <= u32::MAX,
            count == managed_count(lock.plugins@.take(i as int)),
            count <= i,
        decreases lock.plugins@.len() - i,
    {
        assert(lock.plugins@.take(i + 1).drop_last() =~= lock.plugins@.take(i as int));
        if lock.plugins[i].source.is_managed() {
            count = count + 1;
        }
        i = i + 1;
    }
    assert(lock.plugins@.take(lock.plugins@.len() as int) =~= lock.plugins@);
    let mut parts: Vec<Vec<char>> = Vec::new();
    let mut head: Vec<char> = Vec::new();
    push_str(&mut head, name);
    push_str(&mut head, ": ");
    push_decimal(&mut head, count);
    push_str(&mut head, " plugins managed by mcplug");
    let ghost hv = head@;
    parts.push(head);
    assert(views(parts@) =~= seq![hv]);
    let mut checked: Vec<char> = Vec::new();
    match &last {
        Some((a, b)) => {
            push_str(&mut checked, "last check ");
            push_str(&mut checked, a.as_str());
            push_str(&mut checked, " — ");
            push_str(&mut checked, b.as_str());
        },
        None => push_str(&mut checked, "not checked yet — /mcplug check"),
    }
    let ghost cv = checked@;
    assert(cv == (match last {
        Some((a, b)) => "last check "@ + a@ + " — "@ + b@,
        None => "not checked yet — /mcplug check"@,
    }));
    parts.push(checked);
    assert(views(parts@) =~= seq![hv, cv]);
    let ghost base = views(parts@);
    let keep: usize = if updates.len() < 8 { updates.len() } else { 8 };
    let ghost uv = sviews(updates@);
    let mut k: usize = 0;
    while k < keep
        invariant
            k <= keep,
            keep <= updates@.len(),
            uv == sviews(updates@),
            views(parts@) == base + uv.take(k as int).map_values(|u: Seq<char>| "  ↑ "@ + u),
        decreases keep - k,
    {
        let mut l: Vec<char> = Vec::new();
        push_str(&mut l, "  ↑ ");
        push_str(&mut l, updates[k].as_str());
        let ghost before = views(parts@);
        parts.push(l);
        assert(views(parts@) =~= before.push("  ↑ "@ + uv[k as int]));
        k = k + 1;
        assert(views(parts@) =~= base + uv.take(k as int).map_values(|u: Seq<char>| "  ↑ "@ + u));
    }
    let ghost mid = views(parts@);
    match &restart_at {
        Some(t) => {
            let mut l: Vec<char> = Vec::new();
            push_str(&mut l, "restart scheduled for ");
            push_str(&mut l, t.as_str());
            parts.push(l);
            assert(views(parts@) =~= mid + seq!["restart scheduled for "@ + t@]);
        },
        None => {
            assert(views(parts@) =~= mid + Seq::<Seq<char>>::empty());
        },
    }
    assert(views(parts@) =~= seq![name@ + ": "@ + decimal(count as nat) + " plugins managed by mcplug"@]
        + (match last {
            Some((a, b)) => seq!["last check "@ + a@ + " — "@ + b@],
            None => seq!["not checked yet — /mcplug check"@],
        })
        + uv.take(keep as int).map_values(|u: Seq<char>| "  ↑ "@ + u)
        + (match restart_at {
            Some(t) => seq!["restart scheduled for "@ + t@],
            None => Seq::<Seq<char>>::empty(),
        }));
    let sep = to_chars("\n");
    let j = crate::text::join_chars(&parts, sep.as_slice());
    string_from_chars(j.as_slice())
}

/// What a bridge asks for: an action (`status` when it names none), its target (empty
/// when none) and who asked (`someone` when unsaid).
#[derive(Debug, Clone)]
pub struct CommandRequest {
    pub action: String,
    pub target: String,
    pub by: String,
}

pub open spec fn or_text(s: Option<Seq<char>>, d: Seq<char>) -> Seq<char> {
    match s {
        Some(t) => t,
        None => d,
    }
}

fn text_or(s: Option<String>, d: &str) -> (r: String)
    ensures
        r@ == or_text(crate::text::opt_view(s), d@),
{
    match s {
        Some(t) => t,
        None => String::from_str(d),
    }
}

/// Reads a request body; members that are missing, not strings, or a body that is not
/// JSON at all, take their defaults.
pub fn parse_request(body: &[u8]) -> (r: CommandRequest)
    ensures
        r.action@ == or_text(command_fields(body@).0, "status"@),
        r.target@ == or_text(command_fields(body@).1, ""@),
        r.by@ == or_text(command_fields(body@).2, "someone"@),
{
    let (a, t, b) = command_json(body);
    CommandRequest { action: text_or(a, "status"), target: text_or(t, ""), by: text_or(b, "someone") }
}

/// The server a token belongs to: the first whose bridge holds it.
pub open spec fn token_owner(tokens: Seq<Option<String>>, token: Seq<char>) -> Option<int>
    decreases tokens.len(),
{
    if tokens.len() == 0 {
        None
    } else {
        match token_owner(tokens.drop_last(), token) {
            Some(i) => Some(i),
            None => if crate::text::opt_view(tokens.last()) == Some(token) { Some(tokens.len() - 1) } else { None },
        }
    }
}

/// `tokens[i]`: the token of the i-th server's bridge, if it has one.
pub fn server_for_token(tokens: &Vec<Option<String>>, token: &str) -> (r: Option<usize>)
    ensures
        match r {
            Some(i) => token_owner(tokens@, token@) == Some(i as int),
            None => token_owner(tokens@, token@) is None,
        },
{
    let mut i: usize = 0;
    while i < tokens.len()
        invariant
            i <= tokens@.len(),
            token_owner(tokens@.take(i as int), token@) is None,
        decreases tokens@.len() - i,
    {
        assert(tokens@.take(i + 1).drop_last() =~= tokens@.take(i as int));
        let hit = match &tokens[i] {
            Some(t) => crate::lockfile::str_eq(t.as_str(), token),
            None => false,
        };
        if hit {
            assert(tokens@.take(i + 1).last() == tokens@[i as int]);
            proof {
                lemma_token_owner_prefix(tokens@, token@, i as int + 1);
            }
            return Some(i);
        }
        i = i + 1;
    }
    assert(tokens@.take(tokens@.len() as int) =~= tokens@);
    None
}

proof fn lemma_token_owner_prefix(tokens: Seq<Option<String>>, token: Seq<char>, n: int)
    requires
        0 <= n <= tokens.len(),
        token_owner(tokens.take(n), token) is Some,
    ensures
        token_owner(tokens, token) == token_owner(tokens.take(n), token),
    decreases tokens.len(),
{
    if n < tokens.len() {
        assert(tokens.drop_last().take(n) =~= tokens.take(n));
        lemma_token_owner_prefix(tokens.drop_last(), token, n);
    } else {
        assert(tokens.take(n) =~= tokens);
    }
}

/// The body of a successful answer.
pub fn message_body(msg: &str) -> (r: String)
    ensures
        r@ == json_object_text("message"@, msg@),
{
    json_object("message", msg)
}

/// The body of a failed answer.
pub fn error_body(err: &str) -> (r: String)
    ensures
        r@ == json_object_text("error"@, err@),
{
    json_object("error", err)
}

/// The commands a bridge may send.
#[derive(Debug, Clone, Copy, PartialEq, Eq, Structural)]
pub enum Command {
    Status,
    Check,
    Update,
    Restart,
    Unknown,
}

pub fn command_of(action: &str) -> (r: Command)
    ensures
        r == (if action@ == "status"@ {
            Command::Status
        } else if action@ == "check"@ {
            Command::Check
        } else if action@ == "update"@ {
            Command::Update
        } else if action@ == "restart"@ {
            Command::Restart
        } else {
            Command::Unknown
        }),
{
    proof {
        reveal_strlit("status");
        reveal_strlit("check");
        reveal_strlit("update");
        reveal_strlit("restart");
    }
    if crate::lockfile::str_eq(action, "status") {
        Command::Status
    } else if crate::lockfile::str_eq(action, "check") {
        Command::Check
    } else if crate::lockfile::str_eq(action, "update") {
        Command::Update
    } else if crate::lockfile::str_eq(action, "restart") {
        Command::Restart
    } else {
        Command::Unknown
    }
}

/// The answer to an action the daemon does not know.
pub fn unknown_action(action: &str) -> (r: String)
    ensures
        r@ == "unknown action "@ + crate::cli::update::debug_quoted(action@),
{
    let q = crate::cli::update::debug_str(action);
    concat2("unknown action ", q.as_str())
}

/// The answer while another update of the same server is under way.
pub fn busy_reply() -> (r: &'static str)
    ensures
        r@ == "mcplug is already working on this server; try again in a minute"@,
{
    "mcplug is already working on this server; try again in a minute"
}

/// The answer when the plan came out empty: its first note, else `nothing to update`.
pub fn empty_plan_reply(notes: &Vec<String>) -> (r: String)
    ensures
        r@ == (if notes@.len() > 0 { notes@[0]@ } else { "nothing to update"@ }),
{
    if notes.len() > 0 {
        crate::text::clone_string(&notes[0])
    } else {
        String::from_str("nothing to update")
    }
}

/// The answer once an update has been started in the background.
pub fn updating_reply(summary: &str) -> (r: String)
    ensures
        r@ == "updating "@ + summary@ + ". The server restarts once nobody is online (you'll be told)."@,
{
    concat3("updating ", summary, ". The server restarts once nobody is online (you'll be told).")
}

/// What operators are told when a background update ends.
pub fn update_outcome(by: &str, outcome: &Result<(String, usize), String>) -> (r: String)
    ensures
        r@ == match outcome {
            Ok((tx, n)) => "update by "@ + by@ + " done: "@ + tx@ + " ("@ + decimal(*n as nat) + " plugin(s))"@,
            Err(e) => "update by "@ + by@ + " failed: "@ + e@,
        },
{
    let mut out: Vec<char> = Vec::new();
    push_str(&mut out, "update by ");
    push_str(&mut out, by);
    match outcome {
        Ok((tx, n)) => {
            push_str(&mut out, " done: ");
            push_str(&mut out, tx.as_str());
            push_str(&mut out, " (");
            crate::text::push_decimal_u64(&mut out, *n as u64);
            push_str(&mut out, " plugin(s))");
        },
        Err(e) => {
            push_str(&mut out, " failed: ");
            push_str(&mut out, e.as_str());
        },
    }
    string_from_chars(out.as_slice())
}

/// The answer to `restart`, and the countdown to run (`None`: the server cannot be
/// restarted from here).
pub fn restart_reply(can_restart: bool, countdown: u32) -> (r: (String, Option<u32>))
    ensures
        if can_restart {
            r.1 == Some(if countdown < 60 { countdown } else { 60u32 })
                && r.0@ == "restarting in "@ + decimal(r.1->0 as nat) + "s"@
        } else {
            r.1 is None && r.0@ == "mcplug cannot restart this server (no panel or restart command configured)"@
        },
{
    if !can_restart {
        return (String::from_str("mcplug cannot restart this server (no panel or restart command configured)"), None);
    }
    let secs = restart_countdown(countdown);
    let mut out: Vec<char> = Vec::new();
    push_str(&mut out, "restarting in ");
    push_decimal(&mut out, secs);
    push_str(&mut out, "s");
    (string_from_chars(out.as_slice()), Some(secs))
}

} // verus!
