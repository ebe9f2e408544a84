use mcplug::sources::http::{gave_up, min_gap_millis, pace_wait, reply, user_agent, Reply};
use mcplug::sources::model::{ProjectLocator, SourceKind};
use mcplug::sources::weburl::{locate_url, modrinth_url};

fn id_of(l: Option<ProjectLocator>) -> Option<String> {
    l.map(|l| l.id)
}

#[test]
fn urls() {
    assert_eq!(id_of(modrinth_url("https://modrinth.com/plugin/luckperms/versions")), Some("luckperms".to_string()));
    assert!(modrinth_url("https://modrinth.com/user/lucko").is_none());
    assert!(modrinth_url("https://hangar.papermc.io/x/y").is_none());
}

#[test]
fn locate_url_takes_first_enabled_source() {
    let all = [SourceKind::Modrinth, SourceKind::Hangar, SourceKind::GitHub, SourceKind::GeyserMc];
    let l = locate_url(&all, "https://hangar.papermc.io/EssentialsX/Essentials").unwrap();
    assert_eq!(l.source, SourceKind::Hangar);
    assert_eq!(l.id, "Essentials");
    let l = locate_url(&all, "https://github.com/EssentialsX/Essentials/releases").unwrap();
    assert_eq!(l.source, SourceKind::GitHub);
    assert_eq!(l.id, "EssentialsX/Essentials");
    assert!(locate_url(&[SourceKind::Modrinth], "https://github.com/EssentialsX/Essentials").is_none());
    assert!(locate_url(&all, "not a url").is_none());
}

#[test]
fn request_pacing_and_retries() {
    assert_eq!(min_gap_millis(300), 200);
    assert_eq!(min_gap_millis(0), 60000);
    assert_eq!(pace_wait(None, 200), 0);
    assert_eq!(pace_wait(Some(50), 200), 150);
    assert_eq!(pace_wait(Some(500), 200), 0);
    assert_eq!(reply(429, Some("12"), 2), Reply::WaitSecs(12));
    assert_eq!(reply(429, Some("soon"), 0), Reply::WaitSecs(5));
    assert_eq!(reply(429, None, 0), Reply::WaitSecs(5));
    assert_eq!(reply(503, None, 0), Reply::WaitMillis(500));
    assert_eq!(reply(503, None, 1), Reply::WaitMillis(1000));
    assert_eq!(reply(503, None, 2), Reply::Take);
    assert_eq!(reply(404, None, 0), Reply::Take);
    assert_eq!(gave_up("https://x"), "https://x: gave up after retries");
    assert_eq!(user_agent(Some("me@example.com")), "Antoinenz/mcplug/0.1.0 (me@example.com)");
    assert_eq!(user_agent(Some("")), "Antoinenz/mcplug/0.1.0");
    assert_eq!(user_agent(None), "Antoinenz/mcplug/0.1.0");
}
