use mcplug::daemon::busy::{update_step, BusySet, UpdateAction, UpdateEvent, UpdateRequest};
use mcplug::daemon::api::{
    busy_reply, command_of, empty_plan_reply, error_body, gate, head_end, message_body, nothing_message, parse_head, parse_request,
    response, restart_reply, server_for_token, unknown_action, update_outcome, updating_reply, Command, Gate, MAX_BODY,
};
use mcplug::daemon::state::describe;
use mcplug::daemon::tick::{step, ServerState, TickAction, TickEvent, TickFacts};
use mcplug::config::policy::EffectivePolicy;
use mcplug::daemon::{check_due, select_updates, warning_due};
use mcplug::lockfile::LockFile;
use mcplug::lockfile::Channel;
use mcplug::sources::model::{ResolvedVersion, SourceKind};
use mcplug::sources::resolve::{record_bulk_error, CheckReport, UpdateCandidate};

fn facts(now: i64) -> TickFacts {
    TickFacts {
        now,
        enabled: true,
        check_interval_secs: 3600,
        quiet: false,
        writable: true,
        auto_apply: "safe".to_string(),
        scheduled_restart: false,
    }
}

fn candidate(name: &str, from: &str, to: &str) -> UpdateCandidate {
    UpdateCandidate {
        name: name.to_string(),
        installed: from.to_string(),
        latest: ResolvedVersion {
            source: SourceKind::Modrinth,
            project_id: "p".to_string(),
            version_id: "v".to_string(),
            version_number: to.to_string(),
            channel: Channel::Release,
            game_versions: vec![],
            loaders: vec![],
            published: 0,
            files: vec![],
            dependencies: vec![],
            changelog: None,
        },
        compat: "exact".to_string(),
        untested: false,
        unverified: false,
    }
}

#[test]
fn tick_full_turn() {
    let mut st = ServerState::new();
    let f = facts(10_000);
    assert_eq!(step(&mut st, &f, TickEvent::Begin).action, TickAction::Scan);
    assert_eq!(step(&mut st, &f, TickEvent::Scanned(true)).action, TickAction::Check);
    assert_eq!(st.last_check, Some(10_000));
    let mut report = CheckReport::default();
    report.updates.push(candidate("LuckPerms", "5.5.70", "5.5.71"));
    assert_eq!(step(&mut st, &f, TickEvent::Checked(Ok(report))).action, TickAction::Select);
    assert_eq!(st.updates_available, vec!["LuckPerms 5.5.70→5.5.71".to_string()]);
    assert_eq!(st.last_result.as_deref(), Some("1 update(s) available"));
    assert_eq!(step(&mut st, &f, TickEvent::Selected(1)).action, TickAction::Plan);
    assert_eq!(step(&mut st, &f, TickEvent::Planned(Ok(false))).action, TickAction::Apply);
    let s = step(&mut st, &f, TickEvent::Applied(Ok(("tx1".to_string(), 1)), None));
    assert_eq!(s.action, TickAction::Done);
    assert!(s.note.is_none());
    assert_eq!(st.last_result.as_deref(), Some("applied tx1 (1 plugin(s))"));
    assert!(st.updates_available.is_empty());
    // checked a moment ago: nothing to do on the next turn
    assert_eq!(step(&mut st, &facts(10_060), TickEvent::Begin).action, TickAction::Done);
}

#[test]
fn tick_quiet_hours_defer() {
    let mut st = ServerState::new();
    st.last_check = Some(5);
    let mut f = facts(10);
    f.quiet = true;
    assert_eq!(step(&mut st, &f, TickEvent::Selected(2)).action, TickAction::Done);
    assert_eq!(st.last_result.as_deref(), Some("2 update(s) deferred (quiet hours)"));
    assert_eq!(st.last_check, None);
    f.quiet = false;
    assert_eq!(step(&mut st, &f, TickEvent::Begin).action, TickAction::Scan);
}

#[test]
fn tick_scheduled_restart() {
    let mut st = ServerState::new();
    let mut f = facts(100);
    f.scheduled_restart = true;
    let s = step(&mut st, &f, TickEvent::Applied(Ok(("tx2".to_string(), 3)), Some((500, "2026-05-01 04:30".to_string()))));
    assert_eq!(st.pending_restart, Some(500));
    let (a, o) = s.note.unwrap();
    assert_eq!(a, "restart");
    assert_eq!(o, "scheduled for 2026-05-01 04:30");
    // not yet due
    st.last_check = Some(100);
    assert_eq!(step(&mut st, &facts(200), TickEvent::Begin).action, TickAction::Done);
    // due, outside quiet hours
    assert_eq!(step(&mut st, &facts(600), TickEvent::Begin).action, TickAction::Restart);
    let s = step(&mut st, &facts(600), TickEvent::Restarted(Some("timeout".to_string())));
    assert_eq!(s.note.unwrap().1, "scheduled restart failed: timeout");
    assert_eq!(st.pending_restart, None);
}

#[test]
fn tick_unwritable_warns_once_a_day() {
    let mut st = ServerState::new();
    let mut f = facts(1000);
    f.writable = false;
    assert_eq!(step(&mut st, &f, TickEvent::Begin).action, TickAction::WarnUnwritable);
    assert_eq!(st.last_warning, Some(1000));
    f.now = 2000;
    assert_eq!(step(&mut st, &f, TickEvent::Begin).action, TickAction::Done);
    f.now = 1000 + 86_401;
    assert_eq!(step(&mut st, &f, TickEvent::Begin).action, TickAction::WarnUnwritable);
}

#[test]
fn tick_failures() {
    let mut st = ServerState::new();
    let f = facts(1);
    assert_eq!(step(&mut st, &f, TickEvent::Checked(Err("boom".to_string()))).action, TickAction::Done);
    assert_eq!(st.last_result.as_deref(), Some("check failed: boom"));
    let s = step(&mut st, &f, TickEvent::Planned(Err("no route".to_string())));
    assert_eq!(s.note.unwrap(), ("aborted".to_string(), "auto-update plan failed: no route".to_string()));
    step(&mut st, &f, TickEvent::Applied(Err("disk full".to_string()), None));
    assert_eq!(st.last_result.as_deref(), Some("auto-update failed: disk full"));
    let mut g = facts(1);
    g.enabled = false;
    assert_eq!(step(&mut st, &g, TickEvent::Begin).action, TickAction::Done);
    let mut h = facts(1);
    h.auto_apply = "none".to_string();
    let mut report = CheckReport::default();
    report.updates.push(candidate("A", "1", "2"));
    assert_eq!(step(&mut st, &h, TickEvent::Checked(Ok(report))).action, TickAction::Done);
}

#[test]
fn due_and_warning_intervals() {
    assert!(check_due(None, 0, 10));
    assert!(!check_due(Some(100), 105, 10));
    assert!(check_due(Some(100), 110, 10));
    assert!(check_due(Some(0), 21_600, u64::MAX));
    assert!(!check_due(Some(0), 21_599, u64::MAX));
    assert!(warning_due(None, 0));
    assert!(!warning_due(Some(0), 86_400));
    assert!(warning_due(Some(0), 86_401));
}

#[test]
fn http_head() {
    let raw = b"POST /v1/command HTTP/1.1\r\nAuthorization: Bearer tok\r\nContent-Length: 12\r\n\r\n{\"a\":1}";
    let end = head_end(raw).unwrap();
    assert_eq!(&raw[end..], b"{\"a\":1}");
    let head = parse_head(std::str::from_utf8(&raw[..end]).unwrap());
    assert_eq!(head.request_line, "POST /v1/command HTTP/1.1");
    assert_eq!(head.token.as_deref(), Some("tok"));
    assert_eq!(head.content_length, 12);
    assert_eq!(gate(&head), Gate::Proceed);
    assert_eq!(head_end(b"GET / HTTP/1.1\r\n"), None);
}

#[test]
fn http_gate_refusals() {
    let h = parse_head("GET /x HTTP/1.1\r\n\r\n");
    assert_eq!(gate(&h), Gate::NotFound);
    let h = parse_head("POST /v1/command HTTP/1.1\r\n\r\n");
    assert_eq!(gate(&h), Gate::MissingToken);
    let h = parse_head(&format!("POST /v1/command HTTP/1.1\r\ncontent-length: {}\r\n\r\n", MAX_BODY + 1));
    assert_eq!(gate(&h), Gate::BodyTooLarge);
}

#[test]
fn http_response_text() {
    let r = response(200, "{}", 2);
    assert_eq!(r, "HTTP/1.1 200 OK\r\nContent-Type: application/json\r\nContent-Length: 2\r\nConnection: close\r\n\r\n{}");
    assert!(response(431, "x", 1).starts_with("HTTP/1.1 431 Request Header Fields Too Large\r\n"));
    assert!(response(500, "x", 1).starts_with("HTTP/1.1 500 Error\r\n"));
}

#[test]
fn command_requests() {
    let r = parse_request(br#"{"action":"update","target":"all","by":"Steve"}"#);
    assert_eq!((r.action.as_str(), r.target.as_str(), r.by.as_str()), ("update", "all", "Steve"));
    let r = parse_request(b"not json");
    assert_eq!((r.action.as_str(), r.target.as_str(), r.by.as_str()), ("status", "", "someone"));
    let r = parse_request(br#"{"action":5}"#);
    assert_eq!(r.action, "status");
    assert_eq!(command_of("check"), Command::Check);
    assert_eq!(command_of("restart"), Command::Restart);
    assert_eq!(command_of("dance"), Command::Unknown);
    assert_eq!(unknown_action("dance"), "unknown action \"dance\"");
    assert_eq!(message_body("hi \"x\""), r#"{"message":"hi \"x\""}"#);
    assert_eq!(error_body("bad"), r#"{"error":"bad"}"#);
    assert_eq!(error_body("a\\b\n\tc\u{1}é"), r#"{"error":"a\\b\n\tc\u0001é"}"#);
}

#[test]
fn command_answers() {
    let tokens = vec![None, Some("a".to_string()), Some("b".to_string()), Some("a".to_string())];
    assert_eq!(server_for_token(&tokens, "a"), Some(1));
    assert_eq!(server_for_token(&tokens, "c"), None);
    assert_eq!(restart_reply(true, 120), ("restarting in 60s".to_string(), Some(60)));
    assert_eq!(restart_reply(true, 5), ("restarting in 5s".to_string(), Some(5)));
    assert_eq!(restart_reply(false, 5).1, None);
    assert_eq!(update_outcome("Steve", &Ok(("tx9".to_string(), 2))), "update by Steve done: tx9 (2 plugin(s))");
    assert_eq!(update_outcome("Steve", &Err("nope".to_string())), "update by Steve failed: nope");
    assert_eq!(updating_reply("LuckPerms 1→2"), "updating LuckPerms 1→2. The server restarts once nobody is online (you'll be told).");
    assert_eq!(empty_plan_reply(&vec![]), "nothing to update");
    assert_eq!(empty_plan_reply(&vec!["x is pinned".to_string()]), "x is pinned");
    assert_eq!(nothing_message("all"), "nothing to update");
    assert_eq!(nothing_message("Foo"), "no managed plugin called \"Foo\"");
    assert!(busy_reply().starts_with("mcplug is already working"));
}

#[test]
fn daemon_description() {
    assert_eq!(describe(None), "daemon: not running");
    assert_eq!(describe(Some(40)), "daemon: running (tick 40s ago)");
    assert_eq!(describe(Some(3600)), "daemon: stale (last tick 1h ago)");
}

#[test]
fn daemon_never_auto_applies_risky_versions() {
    let mut beta = candidate("Beta", "1.0", "1.1-beta");
    beta.latest.channel = Channel::Beta;
    let mut unverified = candidate("NoSum", "1.0", "1.1");
    unverified.unverified = true;
    let mut untested = candidate("Untested", "1.0", "1.1");
    untested.untested = true;
    let fine = candidate("Fine", "1.0", "1.1");
    let geyser = candidate("Geyser-Spigot", "2.0", "2.1");
    let report = CheckReport {
        updates: vec![beta, unverified, untested, fine, geyser],
        up_to_date: vec![],
        pinned: vec![],
        unmanaged: vec![],
        errors: vec![],
    };
    let lock = LockFile::new();
    let mut policy = EffectivePolicy::default();
    assert!(select_updates(&report, &lock, &policy).is_empty());
    policy.auto_apply = "same-mc-release".to_string();
    assert_eq!(select_updates(&report, &lock, &policy), vec!["Fine".to_string()]);
    policy.auto_apply = "all".to_string();
    assert_eq!(select_updates(&report, &lock, &policy), vec!["Fine".to_string()]);
    policy.geyser_auto = true;
    assert_eq!(
        select_updates(&report, &lock, &policy),
        vec!["Fine".to_string(), "Geyser-Spigot".to_string()]
    );
}

#[test]
fn update_requests_claim_the_server() {
    let mut busy = BusySet::new();
    assert!(busy.claim("lobby"));
    let mut other = UpdateRequest::new("lobby");
    assert_eq!(update_step(&mut other, &mut busy, UpdateEvent::Begin), UpdateAction::ReplyBusy);
    assert!(busy.contains("lobby"));
    busy.release("lobby");
    let mut req = UpdateRequest::new("lobby");
    assert_eq!(update_step(&mut req, &mut busy, UpdateEvent::Begin), UpdateAction::Check);
    assert!(busy.contains("lobby") && req.holds);
    assert!(!busy.claim("lobby"));
    assert_eq!(update_step(&mut req, &mut busy, UpdateEvent::Checked { targets: 2 }), UpdateAction::Plan);
    assert_eq!(update_step(&mut req, &mut busy, UpdateEvent::Planned { empty: false }), UpdateAction::StartApply);
    assert!(busy.contains("lobby"));
    assert_eq!(update_step(&mut req, &mut busy, UpdateEvent::ApplyFinished), UpdateAction::Finished);
    assert!(!busy.contains("lobby") && !req.holds);
}

#[test]
fn update_requests_give_the_claim_back() {
    let mut busy = BusySet::new();
    let mut req = UpdateRequest::new("s");
    update_step(&mut req, &mut busy, UpdateEvent::Begin);
    assert_eq!(update_step(&mut req, &mut busy, UpdateEvent::Checked { targets: 0 }), UpdateAction::ReplyNothing);
    assert!(!busy.contains("s"));
    let mut req = UpdateRequest::new("s");
    update_step(&mut req, &mut busy, UpdateEvent::Begin);
    update_step(&mut req, &mut busy, UpdateEvent::Checked { targets: 1 });
    assert_eq!(update_step(&mut req, &mut busy, UpdateEvent::Planned { empty: true }), UpdateAction::ReplyEmptyPlan);
    assert!(!busy.contains("s"));
    let mut req = UpdateRequest::new("s");
    update_step(&mut req, &mut busy, UpdateEvent::Begin);
    assert_eq!(update_step(&mut req, &mut busy, UpdateEvent::Failed), UpdateAction::ReplyError);
    assert!(!busy.contains("s"));
}

#[test]
fn a_failed_bulk_check_is_reported_first() {
    let mut report = CheckReport {
        updates: vec![],
        up_to_date: vec!["Vault".to_string()],
        pinned: vec![],
        unmanaged: vec![],
        errors: vec!["Shop: source hangar is disabled".to_string()],
    };
    record_bulk_error(&mut report, "HTTP 503");
    assert_eq!(report.errors, vec!["modrinth bulk check: HTTP 503".to_string(), "Shop: source hangar is disabled".to_string()]);
    assert_eq!(report.up_to_date, vec!["Vault".to_string()]);
}

#[test]
fn a_tick_cannot_claim_a_server_an_update_holds() {
    let mut busy = BusySet::new();
    let mut req = UpdateRequest::new("s1");
    assert_eq!(update_step(&mut req, &mut busy, UpdateEvent::Begin), UpdateAction::Check);
    assert!(!busy.claim("s1"));
    assert!(busy.claim("s2"));
    busy.release("s2");
    assert!(busy.contains("s1"));
    assert_eq!(update_step(&mut req, &mut busy, UpdateEvent::Checked { targets: 1 }), UpdateAction::Plan);
    assert!(!busy.claim("s1"));
    assert_eq!(update_step(&mut req, &mut busy, UpdateEvent::Planned { empty: false }), UpdateAction::StartApply);
    assert!(!busy.claim("s1"));
    assert_eq!(update_step(&mut req, &mut busy, UpdateEvent::ApplyFinished), UpdateAction::Finished);
    assert!(busy.claim("s1"));
}
