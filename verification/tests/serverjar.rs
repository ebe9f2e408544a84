use std::io::Write;
use mcplug::serverjar::ops::{build_file, build_standing, jar_decision, jar_journal_entry, moves_old_jar, start_command_note, BuildStanding, JarDecision};
use mcplug::serverjar::{
    check_build_download, identify_build, newest_versions, paper_build, purpur_build, purpur_ids, sort_builds, start_command_for, BuildInfo,
    PaperBuild, PaperDownload,
};
use mcplug::digest::{md5_hex, sha256_hex};
use mcplug::util::version::McVersion;

fn mc(s: &str) -> McVersion {
    McVersion::parse(s).unwrap()
}

fn build(n: u32, sha: Option<&str>, md5: Option<&str>) -> BuildInfo {
    BuildInfo {
        mc: mc("1.21.4"),
        build: n,
        file_name: format!("paper-1.21.4-{n}.jar"),
        url: format!("https://example.invalid/{n}"),
        sha256: sha.map(String::from),
        md5: md5.map(String::from),
        java_min: None,
        channel: "default".to_string(),
        time: None,
    }
}

#[test]
fn identifies_the_installed_build() {
    let builds = vec![build(10, Some("aa11"), None), build(11, Some("BB22"), None), build(12, None, Some("m5"))];
    assert_eq!(identify_build(&builds, "bb22", &None), Some(1));
    assert_eq!(identify_build(&builds, "AA11", &None), Some(0));
    assert_eq!(identify_build(&builds, "ffff", &Some("m5".to_string())), Some(2));
    assert_eq!(identify_build(&builds, "ffff", &Some("M5".to_string())), None);
    assert_eq!(identify_build(&builds, "ffff", &None), None);
}

#[test]
fn paper_builds_need_the_default_download() {
    let b = PaperBuild {
        id: 130,
        time: Some(1_700_000_000),
        channel: "STABLE".to_string(),
        downloads: vec![(
            "server:default".to_string(),
            PaperDownload {
                name: "paper-1.21.4-130.jar".to_string(),
                url: "https://fill.invalid/paper-1.21.4-130.jar".to_string(),
                sha256: "abcd".to_string(),
            },
        )],
    };
    let info = paper_build(&mc("1.21.4"), Some(21), &b).unwrap();
    assert_eq!(info.build, 130);
    assert_eq!(info.file_name, "paper-1.21.4-130.jar");
    assert_eq!(info.sha256.as_deref(), Some("abcd"));
    assert_eq!(info.channel, "stable");
    assert_eq!(info.java_min, Some(21));
    assert_eq!(info.time, Some(1_700_000_000));
    let none = PaperBuild { id: 1, time: None, channel: "ALPHA".to_string(), downloads: vec![] };
    assert!(paper_build(&mc("1.21.4"), None, &none).is_none());
}

#[test]
fn purpur_build_list_is_newest_first() {
    let all: Vec<String> = ["2400", "x", "2402", "2401"].iter().map(|s| s.to_string()).collect();
    assert_eq!(purpur_ids(&all), vec![2402, 2401, 2400]);
    let many: Vec<String> = (1..=20).map(|n| n.to_string()).collect();
    let ids = purpur_ids(&many);
    assert_eq!(ids.len(), 15);
    assert_eq!(ids[0], 20);
    assert_eq!(ids[14], 6);
}

#[test]
fn purpur_builds() {
    let b = purpur_build(&mc("1.21.4"), 2402, "2402", Some("m5".to_string()), Some(1_700_000_000_123), &Some("SUCCESS".to_string()))
        .unwrap();
    assert_eq!(b.build, 2402);
    assert_eq!(b.file_name, "purpur-1.21.4-2402.jar");
    assert_eq!(b.url, "https://api.purpurmc.org/v2/purpur/1.21.4/2402/download");
    assert_eq!(b.md5.as_deref(), Some("m5"));
    assert_eq!(b.channel, "default");
    assert_eq!(b.time, Some(1_700_000_000));
    let b = purpur_build(&mc("1.21.4"), 7, "seven", None, None, &None).unwrap();
    assert_eq!(b.build, 7);
    assert_eq!(b.time, None);
    assert!(purpur_build(&mc("1.21.4"), 7, "7", None, None, &Some("FAILURE".to_string())).is_none());
}

fn jar_reporting(id: &str) -> Vec<u8> {
    let mut z = zip::ZipWriter::new(std::io::Cursor::new(Vec::new()));
    z.start_file("version.json", zip::write::SimpleFileOptions::default()).unwrap();
    z.write_all(format!("{{\"id\": \"{id}\", \"java_version\": 21}}").as_bytes()).unwrap();
    z.finish().unwrap().into_inner()
}

#[test]
fn checks_a_downloaded_server_jar() {
    let jar = jar_reporting("1.21.4");
    let sha = sha256_hex(&jar).to_ascii_uppercase();
    let md5 = md5_hex(&jar);
    assert_eq!(check_build_download(&build(10, Some(&sha), Some(&md5)), &jar), None);
    assert_eq!(check_build_download(&build(10, None, None), &jar), None);
    assert_eq!(
        check_build_download(&build(10, Some("ffff"), Some(&md5)), &jar).as_deref(),
        Some("server jar checksum mismatch")
    );
    assert_eq!(
        check_build_download(&build(10, Some(&sha), Some(&md5.to_ascii_uppercase())), &jar).as_deref(),
        Some("server jar md5 mismatch")
    );
    let old = jar_reporting("1.21.3");
    assert_eq!(
        check_build_download(&build(10, None, None), &old).as_deref(),
        Some("downloaded jar reports 1.21.3, expected 1.21.4")
    );
    let raw: &[u8] = b"not a jar";
    let raw_sha = sha256_hex(raw);
    assert!(check_build_download(&build(10, Some(&raw_sha), None), raw).is_some());
    assert_eq!(
        check_build_download(&build(10, Some(&sha), None), raw).as_deref(),
        Some("server jar checksum mismatch")
    );
}

#[test]
fn start_command_after_upgrade() {
    let cmd = Some("java -Xmx4G -jar paper-1.21.4-10.jar nogui".to_string());
    assert_eq!(
        start_command_for(&cmd, "paper-1.21.4-11.jar").as_deref(),
        Some("java -Xmx4G -jar paper-1.21.4-11.jar nogui")
    );
    assert_eq!(start_command_for(&cmd, "paper-1.21.4-10.jar"), None);
    assert_eq!(start_command_for(&None, "paper-1.21.4-11.jar"), None);
}

#[test]
fn builds_sort_highest_first() {
    let bs = vec![build(10, Some("a"), None), build(12, Some("b"), None), build(11, Some("c"), None), build(12, Some("d"), None)];
    let sorted = sort_builds(bs);
    let order: Vec<(u32, Option<String>)> = sorted.iter().map(|b| (b.build, b.sha256.clone())).collect();
    assert_eq!(
        order,
        vec![(12, Some("b".to_string())), (12, Some("d".to_string())), (11, Some("c".to_string())), (10, Some("a".to_string()))]
    );
}

#[test]
fn minecraft_versions_newest_first() {
    let names: Vec<String> = ["1.20.6", "1.21", "1.21.4", "1.21.5-pre1", "junk", "26.2", "1.21.10"].iter().map(|s| s.to_string()).collect();
    let all: Vec<String> = newest_versions(&names, false).iter().map(|v| v.to_string()).collect();
    assert_eq!(all, vec!["26.2", "1.21.10", "1.21.5-pre1", "1.21.4", "1.21", "1.20.6"]);
    let releases: Vec<String> = newest_versions(&names, true).iter().map(|v| v.to_string()).collect();
    assert_eq!(releases, vec!["26.2", "1.21.10", "1.21.4", "1.21", "1.20.6"]);
    let same: Vec<String> = ["1.21.5", "1.21.5-rc1"].iter().map(|s| s.to_string()).collect();
    let v: Vec<String> = newest_versions(&same, false).iter().map(|v| v.to_string()).collect();
    assert_eq!(v, vec!["1.21.5", "1.21.5-rc1"]);
}

#[test]
fn server_jar_install_steps() {
    let b = build(11, Some("abcd"), None);
    let f = build_file(&b);
    assert_eq!(f.name, "paper-1.21.4-11.jar");
    assert_eq!(f.sha256.as_deref(), Some("abcd"));
    assert!(f.sha512.is_none() && f.sha1.is_none() && f.primary);
    assert!(moves_old_jar(&Some("paper-1.21.4-11.jar".to_string()), "paper-1.21.4-11.jar"));
    assert!(!moves_old_jar(&Some("paper-1.21.4-10.jar".to_string()), "paper-1.21.4-11.jar"));
    assert!(!moves_old_jar(&None, "paper-1.21.4-11.jar"));
    assert_eq!(start_command_note("p.jar", &Ok(()), "java -jar p.jar"), "start command now runs p.jar");
    assert_eq!(
        start_command_note("p.jar", &Err("no panel".to_string()), "java -jar p.jar"),
        "could not update the start command (no panel); set it to: java -jar p.jar"
    );
    let e = jar_journal_entry(5, "tx9", &b, Some(10), Some("paper-1.21.4-10.jar".to_string()), None);
    assert_eq!(e.action, "server-jar");
    assert_eq!(e.outcome, "applied");
    assert_eq!(e.items[0].name, "1.21.4");
    assert_eq!(e.items[0].from.as_deref(), Some("build 10"));
    assert_eq!(e.items[0].to, "build 11");
    assert_eq!(e.items[0].new_file, "paper-1.21.4-11.jar");
}

#[test]
fn what_the_jar_command_does() {
    let builds = vec![build(12, Some("b"), None), build(11, Some("a"), None)];
    assert_eq!(build_standing(&builds, Some(0)), BuildStanding::UpToDate);
    assert_eq!(build_standing(&builds, Some(1)), BuildStanding::Available(12));
    assert_eq!(build_standing(&builds, None), BuildStanding::Available(12));
    assert_eq!(build_standing(&vec![], None), BuildStanding::Unlisted);
    assert_eq!(jar_decision(false, true, false, &builds, Some(1), false), JarDecision::Install(0));
    assert_eq!(jar_decision(false, true, false, &builds, Some(0), false), JarDecision::Nothing);
    assert_eq!(jar_decision(false, false, false, &builds, Some(1), false), JarDecision::ShowOnly);
    assert_eq!(jar_decision(true, false, false, &builds, None, true), JarDecision::FixJava);
    assert_eq!(jar_decision(true, false, true, &builds, None, true), JarDecision::ShowOnly);
    assert_eq!(jar_decision(true, false, false, &builds, None, false), JarDecision::Install(0));
    assert_eq!(jar_decision(true, false, false, &vec![], None, false), JarDecision::NoBuilds);
}
