//! Operations shared by the command line, the terminal UI and the daemon.

use vstd::prelude::*;
use crate::backup::Mcbackup;
use crate::control::restart::RestartPolicy;
use crate::control::ControlChoice;
use crate::lockfile::CompatMode;
use crate::platform::bukkit::{loaders_spec, Bukkit};
use crate::platform::for_kind;
use crate::server::detect::{bukkit_kind, platform_name};
use crate::server::discovery::Server;
use crate::sources::model::CompatCtx;
use crate::text::{clone_string, concat2, concat3, sviews};
use crate::lockfile::{LockFile, LockServerJar, PluginEntry, PluginEntryV, entry_views};
use crate::plugins::scan::ScannedJar;
use crate::sources::identify::{entry_for, entry_for_spec, unidentified_entry, unidentified_spec, Identified, IdentifyReport, Undecided};
use crate::transaction::apply::{drop_named, drop_named_vec, sort_entries, sorted_by_name};
use crate::util::version::McVersion;

verus! {

/// Why a server cannot be managed: its platform has no handler, or its Minecraft version
/// is unknown.
pub open spec fn platform_error(s: Server) -> Option<Seq<char>> {
    if !bukkit_kind(s.platform) {
        Some(s.id@ + ": platform "@ + platform_name(s.platform) + " is not supported yet"@)
    } else if !(s.jar matches Some(j) && j.mc_version is Some) {
        Some(s.id@ + ": could not determine the Minecraft version from the server jar"@)
    } else {
        None
    }
}

/// The platform handler and compatibility context of a server: its Minecraft version,
/// the platform's loader names and Hangar platform, strict matching.
pub fn server_platform(server: &Server) -> (r: Result<(Bukkit, CompatCtx), String>)
    ensures
        match platform_error(*server) {
            Some(e) => r matches Err(m) && m@ == e,
            None => r matches Ok((p, ctx)) && p.kind == server.platform
                && ctx.mc_version@ == server.jar->0.mc_version->0@
                && sviews(ctx.loaders@) == loaders_spec(server.platform)
                && ctx.mode == CompatMode::Strict
                && (ctx.hangar_platform matches Some(h) && h@ == "PAPER"@),
        },
{
    let p = match for_kind(server.platform) {
        Some(p) => p,
        None => {
            let head = concat3(server.id.as_str(), ": platform ", server.platform.as_str());
            proof {
                reveal_strlit(": platform ");
                reveal_strlit(" is not supported yet");
            }
            return Err(concat2(head.as_str(), " is not supported yet"));
        },
    };
    let mc = match &server.jar {
        Some(j) => match &j.mc_version {
            Some(v) => v.copy(),
            None => {
                proof {
                    reveal_strlit(": could not determine the Minecraft version from the server jar");
                }
                return Err(concat2(server.id.as_str(), ": could not determine the Minecraft version from the server jar"));
            },
        },
        None => {
            proof {
                reveal_strlit(": could not determine the Minecraft version from the server jar");
            }
            return Err(concat2(server.id.as_str(), ": could not determine the Minecraft version from the server jar"));
        },
    };
    let hangar = match p.hangar_platform() {
        Some(h) => Some(String::from_str(h)),
        None => None,
    };
    let ctx = CompatCtx { mc_version: mc, loaders: p.modrinth_loaders(), hangar_platform: hangar, mode: CompatMode::Strict };
    Ok((p, ctx))
}

/// Everything around a transaction: the restart policy, the backup tool, and the control
/// that restarts the server.
#[derive(Debug, Clone)]
pub struct ApplyOptions {
    pub restart: RestartPolicy,
    pub backup: Option<Mcbackup>,
    pub control: ControlChoice,
}


/// The jar hashes a scan still sees: unchanged, identified and undecided jars.
pub open spec fn present_hashes(r: IdentifyReport) -> Seq<Seq<char>> {
    r.unchanged@.map_values(|j: ScannedJar| j.hashes.sha512@)
        + r.identified@.map_values(|i: Identified| i.jar.hashes.sha512@)
        + r.undecided@.map_values(|u: Undecided| u.jar.hashes.sha512@)
}

/// The entries whose jar is still present, in order.
pub open spec fn keep_present(ps: Seq<PluginEntryV>, present: Seq<Seq<char>>) -> Seq<PluginEntryV>
    decreases ps.len(),
{
    if ps.len() == 0 {
        Seq::empty()
    } else {
        let r = keep_present(ps.drop_last(), present);
        if present.contains(ps.last().hashes.sha512) { r.push(ps.last()) } else { r }
    }
}

/// Each new entry replaces the entries of its name, in order.
pub open spec fn replace_all(s: Seq<PluginEntryV>, added: Seq<PluginEntryV>) -> Seq<PluginEntryV>
    decreases added.len(),
{
    if added.len() == 0 {
        s
    } else {
        drop_named(replace_all(s, added.drop_last()), added.last().name).push(added.last())
    }
}

/// The entries a scan records: for identified jars, then for undecided ones.
pub open spec fn scan_entries(r: IdentifyReport) -> Seq<PluginEntryV> {
    r.identified@.map_values(|i: Identified| entry_for_spec(i)) + r.undecided@.map_values(|u: Undecided| unidentified_spec(u.jar))
}

/// Every identified or undecided jar has a descriptor (the identification only takes
/// those).
pub open spec fn report_has_descriptors(r: IdentifyReport) -> bool {
    &&& forall|i: int| 0 <= i < r.identified@.len() ==> (#[trigger] r.identified@[i]).jar.descriptor is Some
    &&& forall|i: int| 0 <= i < r.undecided@.len() ==> (#[trigger] r.undecided@[i]).jar.descriptor is Some
}

fn push_hashes(out: &mut Vec<String>, h: &String)
    ensures
        sviews(final(out)@) == sviews(old(out)@).push(h@),
{
    out.push(clone_string(h));
    assert(sviews(final(out)@) =~= sviews(old(out)@).push(h@));
}

fn present_exec(report: &IdentifyReport) -> (r: Vec<String>)
    ensures
        sviews(r@) == present_hashes(*report),
{
    let mut out: Vec<String> = Vec::new();
    let mut i: usize = 0;
    while i < report.unchanged.len()
        invariant
            i <= report.unchanged@.len(),
            sviews(out@) == report.unchanged@.take(i as int).map_values(|j: ScannedJar| j.hashes.sha512@),
        decreases report.unchanged@.len() - i,
    {
        push_hashes(&mut out, &report.unchanged[i].hashes.sha512);
        i = i + 1;
        assert(sviews(out@) =~= report.unchanged@.take(i as int).map_values(|j: ScannedJar| j.hashes.sha512@));
    }
    assert(report.unchanged@.take(report.unchanged@.len() as int) =~= report.unchanged@);
    let ghost a = sviews(out@);
    let mut k: usize = 0;
    while k < report.identified.len()
        invariant
            k <= report.identified@.len(),
            sviews(out@) == a + report.identified@.take(k as int).map_values(|i: Identified| i.jar.hashes.sha512@),
        decreases report.identified@.len() - k,
    {
        push_hashes(&mut out, &report.identified[k].jar.hashes.sha512);
        k = k + 1;
        assert(sviews(out@) =~= a + report.identified@.take(k as int).map_values(|i: Identified| i.jar.hashes.sha512@));
    }
    assert(report.identified@.take(report.identified@.len() as int) =~= report.identified@);
    let ghost b = sviews(out@);
    let mut m: usize = 0;
    while m < report.undecided.len()
        invariant
            m <= report.undecided@.len(),
            sviews(out@) == b + report.undecided@.take(m as int).map_values(|u: Undecided| u.jar.hashes.sha512@),
        decreases report.undecided@.len() - m,
    {
        push_hashes(&mut out, &report.undecided[m].jar.hashes.sha512);
        m = m + 1;
        assert(sviews(out@) =~= b + report.undecided@.take(m as int).map_values(|u: Undecided| u.jar.hashes.sha512@));
    }
    assert(report.undecided@.take(report.undecided@.len() as int) =~= report.undecided@);
    assert(sviews(out@) =~= present_hashes(*report));
    out
}

fn keep_present_vec(ps: Vec<PluginEntry>, present: &Vec<String>) -> (r: Vec<PluginEntry>)
    ensures
        entry_views(r@) == keep_present(entry_views(ps@), sviews(present@)),
{
    let ghost sv = entry_views(ps@);
    let n = ps.len();
    let mut rest = ps;
    let mut out: Vec<PluginEntry> = Vec::new();
    let mut i: usize = 0;
    assert(sv.take(0) =~= Seq::<PluginEntryV>::empty());
    while rest.len() > 0
        invariant
            i + rest@.len() == n,
            n == sv.len(),
            entry_views(rest@) == sv.skip(i as int),
            entry_views(out@) == keep_present(sv.take(i as int), sviews(present@)),
        decreases rest@.len(),
    {
        let e = rest.remove(0);
        assert(sv.take(i + 1).drop_last() =~= sv.take(i as int));
        assert(sv.skip(i as int)[0] == e@);
        assert(sv.take(i + 1).last() == e@);
        let ghost before = entry_views(out@);
        if crate::text::strings_contain(present, e.hashes.sha512.as_str()) {
            out.push(e);
            assert(entry_views(out@) =~= before.push(sv[i as int]));
        }
        assert(sv.skip(i as int).drop_first() =~= sv.skip(i + 1));
        i = i + 1;
    }
    assert(sv.take(n as int) =~= sv);
    out
}

/// Merges a scan into the lock: entries whose jar is gone are dropped, each identified or
/// undecided jar's entry replaces the entries of its name, the entries are sorted by name,
/// and the server's platform, Minecraft version, scan time and jar are recorded
/// (`jar_sha256`: the server jar's sha256 as read from disk, empty when it could not be
/// read).
pub fn merge_scan(lock: &mut LockFile, report: &IdentifyReport, server: &Server, mc: &McVersion, now: i64, jar_sha256: String)
    requires
        report_has_descriptors(*report),
    ensures
        sorted_by_name(entry_views(final(lock).plugins@), replace_all(keep_present(entry_views(old(lock).plugins@), present_hashes(*report)), scan_entries(*report))),
        final(lock).version == old(lock).version,
        final(lock).server.platform == Some(server.platform),
        final(lock).server.mc_version matches Some(v) && v@ == mc@,
        final(lock).server.last_scan == Some(now),
        match server.jar {
            Some(j) => final(lock).server.jar matches Some(lj) && lj.provider@ == platform_name(j.platform) && lj.file@ == j.file_name@
                && lj.build == j.build_hint && lj.sha256@ == jar_sha256@,
            None => final(lock).server.jar is None,
        },
{
    let present = present_exec(report);
    let mut ps: Vec<PluginEntry> = Vec::new();
    std::mem::swap(&mut ps, &mut lock.plugins);
    let ghost s0 = keep_present(entry_views(ps@), sviews(present@));
    let mut kept = keep_present_vec(ps, &present);
    let ghost added = scan_entries(*report);
    let ghost ni = report.identified@.len();
    let mut k: usize = 0;
    assert(added.take(0) =~= Seq::<PluginEntryV>::empty());
    while k < report.identified.len()
        invariant
            k <= report.identified@.len(),
            ni == report.identified@.len(),
            added == scan_entries(*report),
            report_has_descriptors(*report),
            entry_views(kept@) == replace_all(s0, added.take(k as int)),
        decreases report.identified@.len() - k,
    {
        let e = entry_for(&report.identified[k]);
        assert(added[k as int] == e@);
        assert(added.take(k + 1).drop_last() =~= added.take(k as int));
        let dropped = drop_named_vec(kept, e.name.as_str());
        kept = dropped;
        let ghost before = entry_views(kept@);
        let ghost ev = e@;
        kept.push(e);
        assert(entry_views(kept@) =~= before.push(ev));
        k = k + 1;
    }
    let mut m: usize = 0;
    while m < report.undecided.len()
        invariant
            m <= report.undecided@.len(),
            ni == report.identified@.len(),
            added == scan_entries(*report),
            added.len() == ni + report.undecided@.len(),
            report_has_descriptors(*report),
            entry_views(kept@) == replace_all(s0, added.take(ni + m)),
        decreases report.undecided@.len() - m,
    {
        let e = unidentified_entry(&report.undecided[m].jar);
        assert(added[ni + m] == e@);
        assert(added.take(ni + m + 1).drop_last() =~= added.take(ni + m));
        let dropped = drop_named_vec(kept, e.name.as_str());
        kept = dropped;
        let ghost before = entry_views(kept@);
        let ghost ev = e@;
        kept.push(e);
        assert(entry_views(kept@) =~= before.push(ev));
        m = m + 1;
    }
    assert(added.take(added.len() as int) =~= added);
    lock.plugins = sort_entries(kept);
    lock.server.platform = Some(server.platform);
    lock.server.mc_version = Some(mc.copy());
    lock.server.last_scan = Some(now);
    lock.server.jar = match &server.jar {
        Some(j) => Some(LockServerJar {
            provider: String::from_str(j.platform.as_str()),
            file: clone_string(&j.file_name),
            build: j.build_hint,
            sha256: jar_sha256,
        }),
        None => None,
    };
}

} // verus!
