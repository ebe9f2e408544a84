use mcplug::control::companion::{
    bridge_entry, bridge_port_token, config_text, free_port, is_bridge_jar, jar_file_name, stale_bridge_jars, token_text, BridgeConfig, FIRST_PORT,
};
use mcplug::control::ping::{handshake, packet, read_varint, status_request, varint};
use mcplug::control::rcon::{body_length, decode_body, encode_packet, players_from_list};
use mcplug::control::restart::{
    countdown_for, countdown_plan, empty_wait, restart_log, restart_step, restart_timeout_message, EmptyWait, RestartAction,
    RestartEvent, RestartLog, RestartPolicy, RestartRun, MAX_EMPTY_WAIT_SECS, READY_TIMEOUT_SECS,
};
use mcplug::control::command::{CommandControl, NoControl};
use mcplug::control::rcon::RconControl;
use mcplug::control::{players_by_ping, status_from_ping, ControlChoice, ControlOp, ServerStatus};

#[test]
fn rcon_packet_round_trip() {
    let p = encode_packet(7, 2, b"list");
    assert_eq!(p.len(), 4 + 10 + 4);
    assert_eq!(&p[0..4], &14i32.to_le_bytes());
    assert_eq!(body_length(&p[0..4]), 14);
    let (id, kind, payload) = decode_body(&p[4..]);
    assert_eq!((id, kind), (7, 2));
    assert_eq!(payload, b"list".to_vec());
    assert_eq!(&p[p.len() - 2..], &[0u8, 0u8]);
}

#[test]
fn rcon_short_length_reads_as_empty_packet() {
    assert_eq!(body_length(&3i32.to_le_bytes()), 10);
    assert_eq!(body_length(&(-5i32).to_le_bytes()), 10);
    assert_eq!(body_length(&100i32.to_le_bytes()), 100);
}

#[test]
fn rcon_player_count() {
    assert_eq!(players_from_list("There are 3 of a max of 20 players online: a, b, c"), Some(3));
    assert_eq!(players_from_list("There are 0 of a max of 20 players online:"), Some(0));
    assert_eq!(players_from_list("Unknown command"), None);
}

#[test]
fn varint_round_trip() {
    for n in [0u32, 1, 127, 128, 255, 300, 25565, 2_097_151, u32::MAX] {
        let v = varint(n);
        assert_eq!(read_varint(&v), Some((n, v.len())));
    }
    assert_eq!(varint(300), vec![0xAC, 0x02]);
    assert_eq!(read_varint(&[0x80]), None);
    assert_eq!(read_varint(&[0x80, 0x80, 0x80, 0x80, 0x80, 0x01]), None);
}

#[test]
fn ping_packets() {
    assert_eq!(packet(&[0x00]), vec![0x01, 0x00]);
    assert_eq!(status_request(), vec![0x01, 0x00]);
    let h = handshake(25565);
    assert_eq!(h[0] as usize, h.len() - 1);
    assert_eq!(h[1], 0x00);
    assert_eq!(&h[h.len() - 3..], &[0x63, 0xDD, 0x01]);
}

#[test]
fn ping_status() {
    assert_eq!(status_from_ping(None, None), ServerStatus::Unknown);
    assert_eq!(status_from_ping(Some(25565), Some(3)), ServerStatus::Running);
    assert_eq!(status_from_ping(Some(25565), None), ServerStatus::Stopped);
}

#[test]
fn restart_policies() {
    assert_eq!(RestartPolicy::parse("now", 30), Some(RestartPolicy::Now { countdown_secs: 30 }));
    assert_eq!(
        RestartPolicy::parse("when-empty", 30),
        Some(RestartPolicy::WhenEmpty { max_wait_secs: MAX_EMPTY_WAIT_SECS, countdown_secs: 30 })
    );
    assert_eq!(RestartPolicy::parse("none", 30), Some(RestartPolicy::Never));
    assert_eq!(RestartPolicy::parse("later", 30), None);
    assert_eq!(countdown_for(RestartPolicy::WhenEmpty { max_wait_secs: 10, countdown_secs: 60 }), Some(15));
    assert_eq!(countdown_for(RestartPolicy::Now { countdown_secs: 60 }), Some(60));
    assert_eq!(countdown_for(RestartPolicy::Never), None);
}

#[test]
fn countdown_plan_adds_up() {
    let (steps, last) = countdown_plan(90);
    assert_eq!(steps, vec![(30, 60), (30, 30), (20, 10), (5, 5), (2, 3), (1, 2), (1, 1)]);
    assert_eq!(last, 1);
    let total: u32 = steps.iter().map(|(s, _)| *s).sum::<u32>() + last;
    assert_eq!(total, 90);
    let (steps, last) = countdown_plan(0);
    assert!(steps.is_empty());
    assert_eq!(last, 0);
}

#[test]
fn waiting_for_empty_server() {
    assert_eq!(empty_wait(Some(0), 10, 100), EmptyWait::Proceed);
    assert_eq!(empty_wait(None, 10, 100), EmptyWait::Proceed);
    assert_eq!(empty_wait(Some(2), 10, 100), EmptyWait::Wait(2));
    assert_eq!(empty_wait(Some(2), 101, 100), EmptyWait::GiveUp(2));
}

#[test]
fn bridge_files() {
    assert_eq!(free_port(&[]), FIRST_PORT);
    assert_eq!(free_port(&[FIRST_PORT, FIRST_PORT + 1]), FIRST_PORT + 2);
    assert_eq!(free_port(&[FIRST_PORT + 1]), FIRST_PORT);
    assert!(is_bridge_jar(&jar_file_name()));
    assert!(!is_bridge_jar("LuckPerms.jar"));
    let t = config_text(25581, "abc", 8765);
    assert!(t.contains("25581"));
    assert!(t.contains("abc"));
    assert!(t.contains("8765"));
}

#[test]
fn bridge_tokens() {
    let r: Vec<u8> = (1..=32).collect();
    let t = token_text(&r, 0);
    assert_eq!(t.len(), 64);
    assert!(t.starts_with("0102030405"));
    let z = token_text(&[0u8; 32], 0);
    assert_eq!(z.len(), 64);
    assert_ne!(z, "0".repeat(64));
    assert_eq!(&z[0..4], "001f");
}

#[test]
fn restart_now_with_console_counts_down_then_restarts() {
    let policy = RestartPolicy::Now { countdown_secs: 30 };
    let mut run = RestartRun { countdown: 0, restarted: false };
    let (a, l) = restart_step(&mut run, policy, true, RestartEvent::Begin);
    assert_eq!(a, RestartAction::AskStatus);
    assert!(l.is_none());
    assert_eq!(run.countdown, 30);
    let (a, _) = restart_step(&mut run, policy, true, RestartEvent::Status { running: true });
    assert_eq!(a, RestartAction::CountDown(30));
    let (a, l) = restart_step(&mut run, policy, true, RestartEvent::CountedDown);
    assert_eq!(a, RestartAction::Restart);
    assert_eq!(restart_log(&l.unwrap()), "restart: restarting");
    let (a, _) = restart_step(&mut run, policy, true, RestartEvent::Restarted);
    assert_eq!(a, RestartAction::PollRunning { after_secs: 5 });
    assert!(run.restarted);
    let (a, l) = restart_step(&mut run, policy, true, RestartEvent::RunningPoll { running: true, waited_secs: 5 });
    assert_eq!(a, RestartAction::PollReady { after_secs: 0 });
    assert!(matches!(l, Some(RestartLog::ProcessStarted)));
    let (a, l) = restart_step(&mut run, policy, true, RestartEvent::ReadyPoll { ready: true, waited_secs: 9 });
    assert_eq!(a, RestartAction::Finish { ok: true });
    assert_eq!(restart_log(&l.unwrap()), "restart: server is up");
}

#[test]
fn restart_without_console_skips_the_countdown() {
    let policy = RestartPolicy::Now { countdown_secs: 30 };
    let mut run = RestartRun { countdown: 30, restarted: false };
    let (a, _) = restart_step(&mut run, policy, false, RestartEvent::Status { running: true });
    assert_eq!(a, RestartAction::Restart);
}

#[test]
fn restart_of_a_stopped_server_starts_it() {
    let policy = RestartPolicy::Now { countdown_secs: 30 };
    let mut run = RestartRun { countdown: 30, restarted: true };
    let (a, l) = restart_step(&mut run, policy, true, RestartEvent::Status { running: false });
    assert_eq!(a, RestartAction::Start);
    assert_eq!(restart_log(&l.unwrap()), "restart: server is not running; starting it");
    let (a, _) = restart_step(&mut run, policy, true, RestartEvent::Started);
    assert_eq!(a, RestartAction::PollReady { after_secs: 0 });
    assert!(!run.restarted);
    let (a, l) = restart_step(&mut run, policy, true, RestartEvent::ReadyPoll { ready: true, waited_secs: 3 });
    assert_eq!(a, RestartAction::Finish { ok: true });
    assert!(l.is_none());
}

#[test]
fn restart_never_is_skipped() {
    let mut run = RestartRun { countdown: 0, restarted: false };
    let (a, l) = restart_step(&mut run, RestartPolicy::Never, true, RestartEvent::Begin);
    assert_eq!(a, RestartAction::Finish { ok: true });
    assert_eq!(restart_log(&l.unwrap()), "restart: skipped (staged; takes effect on the next restart)");
}

#[test]
fn restart_when_empty_waits_then_gives_up() {
    let policy = RestartPolicy::WhenEmpty { max_wait_secs: 60, countdown_secs: 120 };
    let mut run = RestartRun { countdown: 0, restarted: false };
    let (a, _) = restart_step(&mut run, policy, true, RestartEvent::Begin);
    assert_eq!(a, RestartAction::AskPlayers { after_secs: 0 });
    let (a, l) = restart_step(&mut run, policy, true, RestartEvent::Players { count: Some(3), waited_secs: 30 });
    assert_eq!(a, RestartAction::AskPlayers { after_secs: 30 });
    assert_eq!(restart_log(&l.unwrap()), "restart: waiting for 3 player(s) to leave");
    assert_eq!(run.countdown, 0);
    let (a, l) = restart_step(&mut run, policy, true, RestartEvent::Players { count: Some(2), waited_secs: 61 });
    assert_eq!(a, RestartAction::AskStatus);
    assert_eq!(run.countdown, 15);
    assert_eq!(restart_log(&l.unwrap()), "restart: still 2 online after 1m; restarting anyway");
    let mut run = RestartRun { countdown: 0, restarted: false };
    let (a, l) = restart_step(&mut run, policy, true, RestartEvent::Players { count: Some(0), waited_secs: 0 });
    assert_eq!(a, RestartAction::AskStatus);
    assert!(l.is_none());
    assert_eq!(run.countdown, 15);
}

#[test]
fn restart_times_out() {
    let policy = RestartPolicy::Now { countdown_secs: 0 };
    let mut run = RestartRun { countdown: 0, restarted: true };
    let (a, _) = restart_step(&mut run, policy, true, RestartEvent::RunningPoll { running: false, waited_secs: READY_TIMEOUT_SECS });
    assert_eq!(a, RestartAction::PollRunning { after_secs: 2 });
    let (a, _) = restart_step(&mut run, policy, true, RestartEvent::RunningPoll { running: false, waited_secs: READY_TIMEOUT_SECS + 1 });
    assert_eq!(a, RestartAction::Finish { ok: false });
    let (a, _) = restart_step(&mut run, policy, true, RestartEvent::ReadyPoll { ready: false, waited_secs: 10 });
    assert_eq!(a, RestartAction::PollReady { after_secs: 3 });
    let (a, _) = restart_step(&mut run, policy, true, RestartEvent::ReadyPoll { ready: false, waited_secs: READY_TIMEOUT_SECS + 1 });
    assert_eq!(a, RestartAction::Finish { ok: false });
    assert_eq!(restart_timeout_message(true), "timed out waiting for server to be Running");
    assert_eq!(restart_timeout_message(false), "timed out waiting for the server to finish starting");
}

#[test]
fn bridge_install_decisions() {
    let existing = Some(BridgeConfig { port: 25583, token: "tok".to_string(), daemon_url: String::new() });
    assert_eq!(bridge_port_token(&existing, &[FIRST_PORT], &[7u8; 32], 0), (25583, "tok".to_string()));
    let (port, token) = bridge_port_token(&None, &[FIRST_PORT], &[0xab; 4], 0);
    assert_eq!(port, FIRST_PORT + 1);
    assert_eq!(token, "abababab");
    let names: Vec<String> = ["McplugBridge-0.0.9.jar", &jar_file_name(), "LuckPerms.jar", "McplugBridge"].iter().map(|s| s.to_string()).collect();
    assert_eq!(stale_bridge_jars(&names, &jar_file_name()), vec!["McplugBridge-0.0.9.jar".to_string()]);
    let e = bridge_entry(3, "tx", true, 25581);
    assert_eq!(e.action, "bridge");
    assert_eq!(e.outcome, "upgraded");
    assert_eq!(e.note.as_deref(), Some("port 25581"));
    assert_eq!(bridge_entry(3, "tx", false, 25581).outcome, "installed");
}

#[test]
fn what_each_control_can_do() {
    let mcsm = ControlChoice::Mcsm { uuid: "u".to_string(), port: None };
    let rcon = |restart: Option<&str>| {
        ControlChoice::Rcon(RconControl {
            host: "127.0.0.1".to_string(),
            port: 25575,
            password: "pw".to_string(),
            restart_command: restart.map(String::from),
            ping_port: None,
            cwd: "/srv".to_string(),
        })
    };
    let command = ControlChoice::Command(CommandControl { restart_command: "systemctl restart mc".to_string(), ping_port: Some(25565), cwd: "/srv".to_string() });
    let off = ControlChoice::Off(NoControl { ping_port: None });
    assert_eq!(mcsm.name(false), "mcsmanager");
    assert_eq!(off.name(true), "bridge");
    assert!(mcsm.can_console(false) && rcon(None).can_console(false) && !command.can_console(false) && command.can_console(true));
    assert!(mcsm.can_restart() && command.can_restart() && rcon(Some("start.sh")).can_restart());
    assert!(!rcon(None).can_restart() && !off.can_restart());
    assert_eq!(command.refusal(ControlOp::Console).as_deref(), Some("no console access for this server (configure RCON)"));
    assert_eq!(off.refusal(ControlOp::Restart).as_deref(), Some("no control configured for this server — restart it yourself"));
    assert_eq!(rcon(None).refusal(ControlOp::Start).as_deref(), Some("rcon can stop the server but no restart_command is configured to start it"));
    assert_eq!(rcon(Some("start.sh")).refusal(ControlOp::Start), None);
    assert_eq!(command.refusal(ControlOp::SetStartCommand).as_deref(), Some("command cannot change the start command"));
    assert_eq!(mcsm.refusal(ControlOp::SetStartCommand), None);
    assert_eq!(players_by_ping(Some(25565), None), Some(0));
    assert_eq!(players_by_ping(Some(25565), Some(4)), Some(4));
    assert_eq!(players_by_ping(None, Some(4)), None);
}

#[test]
fn varint_followed_by_other_bytes() {
    let mut b = varint(300);
    let n = b.len();
    b.extend_from_slice(&[0x07, 0xff]);
    assert_eq!(read_varint(&b), Some((300, n)));
    assert_eq!(read_varint(&[0x80, 0x80, 0x80, 0x80, 0x80, 0x01]), None);
    assert_eq!(read_varint(&[0x80, 0x80]), None);
}
