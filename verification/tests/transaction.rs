use mcplug::platform::bukkit::Bukkit;
use mcplug::server::detect::PlatformKind;
use mcplug::transaction::apply::verify_download;
use mcplug::transaction::plan::PlanItem;
use mcplug::transaction::swap::{swap_step, SwapAction, SwapEvent, SwapRun};
use mcplug::transaction::journal::{item_text, JournalItem};
use mcplug::control::restart::RestartPolicy;
use mcplug::lockfile::{Channel, CompatMode, LockFile, PluginEntry, SourceRef};
use mcplug::plugins::JarHashes;
use mcplug::transaction::apply::{apply_manifest, revert_manifest, ManifestItem};
use mcplug::transaction::flow::{
    abort_entry, checkpoint_outcome, checkpoint_request, download_failed, downloading_step, not_writable, restart_outcome, reverted_entry,
    snapshot_outcome, snapshot_wanted, swap_failed,
};
use mcplug::transaction::plan::{resolve_request, PlanRequest};
use mcplug::transaction::planner::Planner;
use mcplug::transaction::{incomplete_transactions, rollback_dir, rollbacks_to_prune, staging_dir};
use mcplug::sources::model::{CompatCtx, Dependency, DependencyKind, ProjectLocator, ProjectRef, ResolvedVersion, SourceKind, VersionFile};
use mcplug::util::McVersion;
use mcplug::sources::resolve::check_bulk;

fn entry(name: &str, file: &str, version: &str) -> PluginEntry {
    PluginEntry {
        name: name.to_string(),
        file: file.to_string(),
        descriptor_version: Some(version.to_string()),
        hashes: JarHashes::of_bytes(file.as_bytes()),
        channel: Channel::Release,
        pinned: false,
        ignored_versions: vec![],
        compat: CompatMode::Inherit,
        installed_at: None,
        source: SourceRef::Unmanaged,
    }
}

fn names_and_files(lock: &LockFile) -> Vec<(String, String)> {
    lock.plugins.iter().map(|p| (p.name.clone(), p.file.clone())).collect()
}

#[test]
fn revert_restores_the_lock() {
    let mut lock = LockFile::new();
    lock.plugins.push(entry("LuckPerms", "LuckPerms-5.5.70.jar", "5.5.70"));
    lock.plugins.push(entry("Vault", "Vault.jar", "1.7.3"));
    let before = names_and_files(&lock);
    let items = vec![
        ManifestItem {
            name: "LuckPerms".to_string(),
            old_file: Some("LuckPerms-5.5.70.jar".to_string()),
            new_file: "LuckPerms-5.5.71.jar".to_string(),
            old_entry: Some(entry("LuckPerms", "LuckPerms-5.5.70.jar", "5.5.70")),
            new_entry: entry("LuckPerms", "LuckPerms-5.5.71.jar", "5.5.71"),
        },
        ManifestItem {
            name: "essentials".to_string(),
            old_file: None,
            new_file: "EssentialsX.jar".to_string(),
            old_entry: None,
            new_entry: entry("essentials", "EssentialsX.jar", "2.21"),
        },
    ];
    apply_manifest(&mut lock, &items);
    assert_eq!(
        names_and_files(&lock),
        vec![
            ("essentials".to_string(), "EssentialsX.jar".to_string()),
            ("LuckPerms".to_string(), "LuckPerms-5.5.71.jar".to_string()),
            ("Vault".to_string(), "Vault.jar".to_string()),
        ]
    );
    let undone = revert_manifest(&mut lock, &items);
    assert_eq!(undone, vec!["essentials".to_string(), "LuckPerms".to_string()]);
    assert_eq!(names_and_files(&lock), before);
}

#[test]
fn transaction_dirs() {
    assert_eq!(staging_dir("/srv/mc/plugins", "t1"), "/srv/mc/plugins/.mcplug/staging/t1");
    assert_eq!(rollback_dir("/srv/mc/plugins/", "t1"), "/srv/mc/plugins/.mcplug/rollback/t1");
}

#[test]
fn pruning_keeps_the_latest() {
    let dirs: Vec<String> = ["20260105", "20260101", "20260103", "20260102", "20260104", "20260106", "20260107"]
        .iter()
        .map(|s| s.to_string())
        .collect();
    assert_eq!(rollbacks_to_prune(dirs.clone(), 5), vec!["20260101".to_string(), "20260102".to_string()]);
    assert!(rollbacks_to_prune(dirs, 10).is_empty());
}

#[test]
fn incomplete_ones_sorted() {
    let found = vec![("b".to_string(), false), ("a".to_string(), true), ("0".to_string(), false)];
    assert_eq!(incomplete_transactions(&found), vec!["0".to_string(), "b".to_string()]);
}

#[test]
fn journal_lines() {
    let a = abort_entry(5, "tx", "Vault: download failed: 404");
    assert_eq!((a.action.as_str(), a.outcome.as_str(), a.note.as_deref()), ("aborted", "Vault: download failed: 404", Some("nothing was changed")));
    let (e, err) = swap_failed(6, "tx", "Vault", "busy");
    assert_eq!(e.outcome, "swap failed for Vault: busy");
    assert_eq!(err, "Vault: swap failed: busy (rolled back)");
    let items = vec![ManifestItem {
        name: "X".to_string(),
        old_file: None,
        new_file: "X.jar".to_string(),
        old_entry: None,
        new_entry: entry("X", "X.jar", "1"),
    }];
    let r = reverted_entry(7, "tx", &items);
    assert_eq!((r.action.as_str(), r.outcome.as_str()), ("revert", "reverted"));
    assert_eq!(r.items[0].to, "removed");
    assert_eq!(r.items[0].old_file.as_deref(), Some("X.jar"));
}

#[test]
fn progress_and_refusals() {
    assert_eq!(not_writable("Survival"), "Survival: plugin directory is not writable");
    assert_eq!(downloading_step("Vault", "1.7.3"), "downloading Vault 1.7.3");
    assert_eq!(download_failed("Vault", "404"), "Vault: download failed: 404");
}

#[test]
fn backup_and_restart_notes() {
    assert_eq!(checkpoint_request("survival", "Vault 1→2"), ("mcbackup checkpoint survival".to_string(), "before: Vault 1→2".to_string()));
    let (n, err) = checkpoint_outcome(&Err("no space".to_string()));
    assert_eq!(n.outcome, "checkpoint failed: no space");
    assert_eq!(err.as_deref(), Some("backup before update failed, nothing changed: no space"));
    let (n, err) = checkpoint_outcome(&Ok("id 42".to_string()));
    assert_eq!((n.outcome.as_str(), n.note.as_deref(), err), ("checkpoint before", Some("id 42"), None));
    let (n, err) = restart_outcome(&RestartPolicy::Never, &Ok(()));
    assert_eq!((n.outcome.as_str(), err), ("skipped", None));
    let (n, _) = restart_outcome(&RestartPolicy::Now { countdown_secs: 5 }, &Ok(()));
    assert_eq!(n.outcome, "restarted");
    let (n, err) = restart_outcome(&RestartPolicy::Now { countdown_secs: 5 }, &Err("refused".to_string()));
    assert_eq!(n.outcome, "failed: refused");
    assert_eq!(err.as_deref(), Some("updated, but restart failed: refused"));
    assert!(snapshot_wanted(true, &RestartPolicy::Now { countdown_secs: 1 }));
    assert!(!snapshot_wanted(true, &RestartPolicy::Never));
    assert!(!snapshot_wanted(false, &RestartPolicy::Now { countdown_secs: 1 }));
    assert_eq!(snapshot_outcome(&Err("x".to_string())).outcome, "snapshot after failed: x");
}

fn project(id: &str, name: &str) -> ProjectRef {
    ProjectRef {
        source: SourceKind::Modrinth,
        id: id.to_string(),
        slug: id.to_string(),
        name: name.to_string(),
        author: None,
        page_url: format!("https://modrinth.com/plugin/{id}"),
        description: String::new(),
        downloads: None,
        icon_url: None,
    }
}

fn version(id: &str, number: &str, sha512: Option<&str>, deps: Vec<&str>) -> ResolvedVersion {
    ResolvedVersion {
        source: SourceKind::Modrinth,
        project_id: "p".to_string(),
        version_id: id.to_string(),
        version_number: number.to_string(),
        channel: Channel::Release,
        game_versions: vec!["1.21.4".to_string()],
        loaders: vec!["paper".to_string()],
        published: 1_700_000_000,
        files: vec![VersionFile {
            name: format!("{id}.jar"),
            url: format!("https://cdn.invalid/{id}.jar"),
            size: Some(10),
            sha512: sha512.map(String::from),
            sha256: None,
            sha1: None,
            primary: true,
        }],
        dependencies: deps
            .into_iter()
            .map(|d| Dependency { project_id: Some(d.to_string()), version_id: None, name: None, kind: DependencyKind::Required })
            .collect(),
        changelog: None,
    }
}

fn ctx() -> CompatCtx {
    CompatCtx {
        mc_version: McVersion::parse("1.21.4").unwrap(),
        loaders: vec!["paper".to_string()],
        hangar_platform: Some("PAPER".to_string()),
        mode: CompatMode::Strict,
    }
}

fn managed(name: &str, project_id: &str) -> PluginEntry {
    let mut e = entry(name, &format!("{name}.jar"), "1.0");
    e.source = SourceRef::Modrinth { project_id: project_id.to_string(), version_id: "old".to_string(), version_number: "1.0".to_string() };
    e
}

#[test]
fn planner_queues_missing_dependencies_first() {
    let mut lock = LockFile::new();
    lock.plugins.push(managed("Shop", "shop"));
    lock.plugins.push(managed("Vault", "vault"));
    let mut planner = Planner::new(&lock, vec![PlanRequest::UpdateLatest { name: "Shop".to_string() }], "tx1".to_string());
    let (req, dep_of) = planner.next().unwrap();
    assert!(dep_of.is_none());
    let t = resolve_request(&lock, &req).unwrap();
    let (name, c) = planner.project_fetched(&t, "Shop project", &ctx()).unwrap();
    assert_eq!(name, "Shop");
    let versions = vec![version("shop-2", "2.0", Some("aa"), vec!["vault", "econ"])];
    planner.versions_fetched(t, dep_of, name, project("shop", "Shop project"), &versions, &c, false).unwrap();
    assert_eq!(planner.plan.items.len(), 1);
    let (req, dep_of) = planner.next().unwrap();
    assert_eq!(dep_of.as_deref(), Some("Shop"));
    let t = resolve_request(&lock, &req).unwrap();
    assert!(t.from.is_none());
    assert_eq!(t.locator.id, "econ");
    let (name, c) = planner.project_fetched(&t, "Econ", &ctx()).unwrap();
    assert_eq!(name, "Econ");
    planner.versions_fetched(t, dep_of, name, project("econ", "Econ"), &vec![version("econ-1", "1.0", Some("bb"), vec![])], &c, false).unwrap();
    assert!(planner.next().is_none());
    let plan = planner.finish();
    let order: Vec<&str> = plan.items.iter().map(|i| i.name.as_str()).collect();
    assert_eq!(order, vec!["Econ", "Shop"]);
    assert_eq!(plan.items[0].dependency_of.as_deref(), Some("Shop"));
    assert_eq!(plan.tx_id, "tx1");
}

#[test]
fn planner_notes_what_is_installed_already() {
    let mut lock = LockFile::new();
    lock.plugins.push(managed("Vault", "vault"));
    let locator = ProjectLocator { source: SourceKind::Modrinth, id: "vault".to_string() };
    let mut planner = Planner::new(&lock, vec![PlanRequest::Install { locator, version_id: None }], "tx2".to_string());
    let (req, _) = planner.next().unwrap();
    let t = resolve_request(&lock, &req).unwrap();
    assert!(planner.project_fetched(&t, "Vault", &ctx()).is_none());
    assert_eq!(planner.plan.notes, vec!["Vault: already installed".to_string()]);
    let plan = planner.finish();
    assert!(plan.is_empty());
}

#[test]
fn planner_refuses_unverified_files_and_missing_versions() {
    let mut lock = LockFile::new();
    lock.plugins.push(managed("Shop", "shop"));
    let mut planner = Planner::new(&lock, vec![PlanRequest::UpdateTo { name: "Shop".to_string(), version_id: "nope".to_string() }], "t".to_string());
    let (req, dep_of) = planner.next().unwrap();
    let t = resolve_request(&lock, &req).unwrap();
    let (name, c) = planner.project_fetched(&t, "Shop", &ctx()).unwrap();
    let versions = vec![version("shop-2", "2.0", None, vec![])];
    let err = planner.versions_fetched(t, dep_of.clone(), name.clone(), project("shop", "Shop"), &versions, &c, false).unwrap_err();
    assert_eq!(err, "Shop: version nope not found");
    let t = resolve_request(&lock, &PlanRequest::UpdateLatest { name: "Shop".to_string() }).unwrap();
    let err = planner.versions_fetched(t, dep_of.clone(), name.clone(), project("shop", "Shop"), &versions, &c, false).unwrap_err();
    assert_eq!(err, "Shop: modrinth publishes no checksum; pass --allow-unverified to accept");
    assert!(planner.plan.items.is_empty());
    let t = resolve_request(&lock, &PlanRequest::UpdateLatest { name: "Shop".to_string() }).unwrap();
    planner.versions_fetched(t, dep_of, name, project("shop", "Shop"), &versions, &c, true).unwrap();
    assert!(planner.plan.items[0].unverified);
}

#[test]
fn history_item_text() {
    let change = JournalItem { name: "LuckPerms".to_string(), from: Some("5.5.70".to_string()), to: "5.5.71".to_string(), old_file: None, new_file: "x.jar".to_string() };
    assert_eq!(item_text(&change), "LuckPerms 5.5.70→5.5.71");
    let add = JournalItem { name: "Vault".to_string(), from: None, to: "1.7.3".to_string(), old_file: None, new_file: "Vault.jar".to_string() };
    assert_eq!(item_text(&add), "+Vault 1.7.3");
}

#[test]
fn short_checksum_mismatch_is_an_error() {
    let got = JarHashes::of_bytes(b"not a jar");
    let mut v = version("v1", "1.0", Some("abc"), vec![]);
    let file = v.files.remove(0);
    let item = PlanItem {
        name: "Shop".to_string(),
        project: project("shop", "Shop"),
        from: None,
        to: v,
        file,
        dependency_of: None,
        unverified: false,
    };
    let platform = Bukkit { kind: PlatformKind::Paper };
    let err = verify_download(&item, b"not a jar", &platform).unwrap_err();
    assert_eq!(err, format!("Shop: checksum mismatch for v1.jar (expected abc…, got {}…)", &got.sha512[..12]));
}

#[test]
fn swap_steps_restore_the_failing_item_too() {
    let mut run = SwapRun::new(3);
    assert_eq!(swap_step(&mut run, SwapEvent::Begin), SwapAction::Verify(0));
    assert_eq!(swap_step(&mut run, SwapEvent::Verified(true)), SwapAction::Verify(1));
    assert_eq!(swap_step(&mut run, SwapEvent::Verified(true)), SwapAction::Verify(2));
    assert_eq!(swap_step(&mut run, SwapEvent::Verified(true)), SwapAction::WriteManifest);
    assert_eq!(swap_step(&mut run, SwapEvent::ManifestWritten(true)), SwapAction::Swap(0));
    assert_eq!(swap_step(&mut run, SwapEvent::Swapped(true)), SwapAction::Swap(1));
    assert_eq!(swap_step(&mut run, SwapEvent::Swapped(false)), SwapAction::Restore(1));
    assert_eq!(swap_step(&mut run, SwapEvent::Restored), SwapAction::Restore(0));
    assert_eq!(swap_step(&mut run, SwapEvent::Restored), SwapAction::Abort);
    assert_eq!((run.touched, run.restored), (2, 2));
}

#[test]
fn swap_steps_verify_everything_before_writing() {
    let mut run = SwapRun::new(2);
    assert_eq!(swap_step(&mut run, SwapEvent::Begin), SwapAction::Verify(0));
    assert_eq!(swap_step(&mut run, SwapEvent::Verified(false)), SwapAction::Abort);
    assert!(!run.manifest);
    let mut run = SwapRun::new(1);
    swap_step(&mut run, SwapEvent::Begin);
    assert_eq!(swap_step(&mut run, SwapEvent::Swapped(true)), SwapAction::Verify(0));
    assert_eq!(swap_step(&mut run, SwapEvent::Verified(true)), SwapAction::WriteManifest);
    assert_eq!(swap_step(&mut run, SwapEvent::ManifestWritten(false)), SwapAction::Abort);
    let mut run = SwapRun::new(1);
    swap_step(&mut run, SwapEvent::Begin);
    swap_step(&mut run, SwapEvent::Verified(true));
    swap_step(&mut run, SwapEvent::ManifestWritten(true));
    assert_eq!(swap_step(&mut run, SwapEvent::Swapped(true)), SwapAction::Commit);
}

#[test]
fn revert_gives_the_lock_back_in_name_order() {
    let mut lock = LockFile::new();
    lock.plugins.push(entry("Vault", "Vault.jar", "1.7.3"));
    lock.plugins.push(entry("luckperms", "LuckPerms-5.5.70.jar", "5.5.70"));
    let items = vec![ManifestItem {
        name: "Vault".to_string(),
        old_file: Some("Vault.jar".to_string()),
        new_file: "Vault-1.7.4.jar".to_string(),
        old_entry: Some(entry("Vault", "Vault.jar", "1.7.3")),
        new_entry: entry("Vault", "Vault-1.7.4.jar", "1.7.4"),
    }];
    apply_manifest(&mut lock, &items);
    revert_manifest(&mut lock, &items);
    assert_eq!(
        names_and_files(&lock),
        vec![
            ("luckperms".to_string(), "LuckPerms-5.5.70.jar".to_string()),
            ("Vault".to_string(), "Vault.jar".to_string()),
        ]
    );
}

#[test]
fn the_bulk_pass_accounts_for_every_entry_once() {
    let mut lock = LockFile::new();
    lock.plugins.push(entry("Old", "Old.jar", "0.1"));
    let mut pinned = managed("Pinned", "pp");
    pinned.pinned = true;
    lock.plugins.push(pinned);
    let hit = managed("Hit", "hh");
    let same = managed("Same", "ss");
    lock.plugins.push(hit.clone());
    lock.plugins.push(same.clone());
    lock.plugins.push(managed("Miss", "mm"));
    let bulk = vec![
        (hit.hashes.sha512.clone(), version("new", "2.0", None, vec![])),
        (same.hashes.sha512.clone(), version("old", "1.0", None, vec![])),
    ];
    let (report, rest) = check_bulk(&lock, &bulk, &ctx(), CompatMode::Strict);
    assert_eq!(report.updates.len(), 1);
    assert_eq!(report.updates[0].name, "Hit");
    assert_eq!(report.updates[0].latest.version_number, "2.0");
    assert_eq!(report.up_to_date, vec!["Same".to_string()]);
    assert_eq!(report.pinned, vec!["Pinned".to_string()]);
    assert_eq!(report.unmanaged, vec!["Old".to_string()]);
    assert!(report.errors.is_empty());
    assert_eq!(rest, vec![4]);
}
