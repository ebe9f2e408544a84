use vstd::prelude::*;
use crate::backup::{detected, Mcbackup};
use crate::config::secrets::Secrets;
use crate::control::restart::{parse_policy, RestartPolicy};
use crate::control::for_server;
use crate::lockfile::{LockFile, PluginEntry};
use crate::ops::ApplyOptions;
use crate::server::discovery::Server;
use crate::sources::model::{ProjectLocator, SourceKind};
use crate::sources::resolve::{CheckReport, UpdateCandidate};
use crate::sources::weburl::{locate_url, locate_url_spec};
use crate::text::{clone_string, concat2, count_char, count_char_exec, eq_ignore_case, find_char, find_char_exec, is_prefix, lower, opt_view, skip_chars, starts_with, string_from_chars, take_chars, to_chars};
use crate::transaction::plan::PlanRequest;

verus! {

#[derive(Debug, Clone)]
pub struct UpdateArgs {
    pub server: String,
    /// Plugin names; empty means every plugin with an available update.
    pub plugins: Vec<String>,
    pub version: Option<String>,
    pub allow_unverified: bool,
    pub yes: bool,
    pub dry_run: bool,
}

#[derive(Debug, Clone)]
pub struct InstallArgs {
    pub server: String,
    /// A URL, `owner/repo`, `<source>:<id>`, or a Modrinth slug or id.
    pub target: String,
    pub version: Option<String>,
    pub allow_unverified: bool,
    pub yes: bool,
}

/// What happens around an update: the restart policy, its countdown, and whether to skip
/// the backups.
#[derive(Debug, Clone)]
pub struct FlowArgs {
    pub restart: String,
    pub countdown: u32,
    pub no_backup: bool,
}

/// The source a `<source>:` prefix names.
pub open spec fn prefix_source(p: Seq<char>) -> Option<SourceKind> {
    if p == "modrinth"@ {
        Some(SourceKind::Modrinth)
    } else if p == "hangar"@ {
        Some(SourceKind::Hangar)
    } else if p == "github"@ {
        Some(SourceKind::GitHub)
    } else if p == "geysermc"@ || p == "geyser"@ {
        Some(SourceKind::GeyserMc)
    } else {
        None
    }
}

/// `{:?}` of a string: quoted, with Rust's escapes.
pub uninterp spec fn debug_quoted(s: Seq<char>) -> Seq<char>;

/// `format!("{:?}", s)` for a `&str`.
#[verifier::external_body]
pub(crate) fn debug_str(s: &str) -> (r: String)
    ensures
        r@ == debug_quoted(s@),
{
    format!("{:?}", s)
}

/// How an install target is read: a URL goes to the sources that recognise it; a
/// `<source>:<id>` names both; `owner/repo` (exactly one `/`) is GitHub; anything else is
/// a Modrinth slug or id.
pub open spec fn locate_spec(enabled: Seq<SourceKind>, t: Seq<char>) -> Result<(SourceKind, Seq<char>), Seq<char>> {
    if is_prefix("http://"@, t) || is_prefix("https://"@, t) {
        match locate_url_spec(enabled, t) {
            Some(l) => Ok(l),
            None => Err(t + ": not a Modrinth, Hangar, GitHub or GeyserMC URL"@),
        }
    } else {
        match find_char(t, ':') {
            Some(i) => match prefix_source(t.take(i)) {
                Some(k) => Ok((k, t.skip(i + 1))),
                None => Err("unknown source prefix "@ + debug_quoted(t.take(i))),
            },
            None => if count_char(t, '/') == 1 {
                Ok((SourceKind::GitHub, t))
            } else {
                Ok((SourceKind::Modrinth, t))
            },
        }
    }
}

/// Reads an install target, given the enabled sources in priority order.
pub fn locate(enabled: &[SourceKind], target: &str) -> (r: Result<ProjectLocator, String>)
    ensures
        match locate_spec(enabled@, target@) {
            Ok((k, id)) => r matches Ok(l) && l.source == k && l.id@ == id,
            Err(e) => r matches Err(m) && m@ == e,
        },
{
    let t = to_chars(target);
    let tlen = t.len();
    let http = to_chars("http://");
    let https = to_chars("https://");
    proof {
        reveal_strlit("http://");
        reveal_strlit("https://");
        reveal_strlit(": not a Modrinth, Hangar, GitHub or GeyserMC URL");
        reveal_strlit("unknown source prefix ");
        reveal_strlit("modrinth");
        reveal_strlit("hangar");
        reveal_strlit("github");
        reveal_strlit("geysermc");
        reveal_strlit("geyser");
    }
    if starts_with(t.as_slice(), http.as_slice()) || starts_with(t.as_slice(), https.as_slice()) {
        return match locate_url(enabled, target) {
            Some(l) => Ok(l),
            None => Err(concat2(target, ": not a Modrinth, Hangar, GitHub or GeyserMC URL")),
        };
    }
    match find_char_exec(t.as_slice(), ':') {
        Some(i) => {
            let p = take_chars(t.as_slice(), i);
            let ps = string_from_chars(p.as_slice());
            let src = if crate::lockfile::str_eq(ps.as_str(), "modrinth") {
                Some(SourceKind::Modrinth)
            } else if crate::lockfile::str_eq(ps.as_str(), "hangar") {
                Some(SourceKind::Hangar)
            } else if crate::lockfile::str_eq(ps.as_str(), "github") {
                Some(SourceKind::GitHub)
            } else if crate::lockfile::str_eq(ps.as_str(), "geysermc") || crate::lockfile::str_eq(ps.as_str(), "geyser") {
                Some(SourceKind::GeyserMc)
            } else {
                None
            };
            match src {
                Some(k) => {
                    let id = skip_chars(t.as_slice(), i + 1);
                    Ok(ProjectLocator { source: k, id: string_from_chars(id.as_slice()) })
                },
                None => {
                    let q = debug_str(ps.as_str());
                    Err(concat2("unknown source prefix ", q.as_str()))
                },
            }
        },
        None => {
            if count_char_exec(t.as_slice(), '/') == 1 {
                Ok(ProjectLocator { source: SourceKind::GitHub, id: String::from_str(target) })
            } else {
                Ok(ProjectLocator { source: SourceKind::Modrinth, id: String::from_str(target) })
            }
        },
    }
}

/// The requests of an update without plugin names: every offered update that is not
/// untested, newest check order kept.
pub open spec fn latest_requests(us: Seq<UpdateCandidate>) -> Seq<Seq<char>>
    decreases us.len(),
{
    if us.len() == 0 {
        Seq::empty()
    } else {
        let r = latest_requests(us.drop_last());
        if us.last().untested { r } else { r.push(us.last().name@) }
    }
}

pub fn requests_from_report(report: &CheckReport) -> (r: Vec<PlanRequest>)
    ensures
        r@.len() == latest_requests(report.updates@).len(),
        forall|i: int| 0 <= i < r@.len() ==> ((#[trigger] r@[i]) matches PlanRequest::UpdateLatest { name } && name@ == latest_requests(report.updates@)[i]),
{
    let mut out: Vec<PlanRequest> = Vec::new();
    let mut i: usize = 0;
    while i < report.updates.len()
        invariant
            i <= report.updates@.len(),
            out@.len() == latest_requests(report.updates@.take(i as int)).len(),
            forall|k: int| 0 <= k < out@.len() ==> ((#[trigger] out@[k]) matches PlanRequest::UpdateLatest { name } && name@ == latest_requests(report.updates@.take(i as int))[k]),
        decreases report.updates@.len() - i,
    {
        assert(report.updates@.take(i + 1).drop_last() =~= report.updates@.take(i as int));
        assert(report.updates@.take(i + 1).last() == report.updates@[i as int]);
        if !report.updates[i].untested {
            out.push(PlanRequest::UpdateLatest { name: clone_string(&report.updates[i].name) });
        }
        i = i + 1;
    }
    assert(report.updates@.take(report.updates@.len() as int) =~= report.updates@);
    out
}

/// The lock's own spelling of a plugin name typed in any ASCII case: the first entry whose
/// name matches it ignoring case, else the name as typed.
pub open spec fn canonical_name(es: Seq<PluginEntry>, typed: Seq<char>) -> Seq<char>
    decreases es.len(),
{
    if es.len() == 0 {
        typed
    } else if lower(es[0].name@) == lower(typed) {
        es[0].name@
    } else {
        canonical_name(es.drop_first(), typed)
    }
}

fn canonical_exec(lock: &LockFile, typed: &str) -> (r: String)
    ensures
        r@ == canonical_name(lock.plugins@, typed@),
{
    let tc = to_chars(typed);
    let mut i: usize = 0;
    assert(lock.plugins@.skip(0) =~= lock.plugins@);
    while i < lock.plugins.len()
        invariant
            i <= lock.plugins@.len(),
            tc@ == typed@,
            canonical_name(lock.plugins@, typed@) == canonical_name(lock.plugins@.skip(i as int), typed@),
        decreases lock.plugins@.len() - i,
    {
        assert(lock.plugins@.skip(i as int)[0] == lock.plugins@[i as int]);
        let n = to_chars(lock.plugins[i].name.as_str());
        if eq_ignore_case(n.as_slice(), tc.as_slice()) {
            return clone_string(&lock.plugins[i].name);
        }
        assert(lock.plugins@.skip(i as int).drop_first() =~= lock.plugins@.skip(i + 1));
        i = i + 1;
    }
    assert(lock.plugins@.skip(i as int) =~= Seq::<PluginEntry>::empty());
    String::from_str(typed)
}

/// The requests of an update naming plugins: each to the version asked for, or to the
/// newest acceptable one.
pub fn requests_for_names(lock: &LockFile, names: &Vec<String>, version: &Option<String>) -> (r: Vec<PlanRequest>)
    ensures
        r@.len() == names@.len(),
        forall|i: int| 0 <= i < r@.len() ==> match (#[trigger] r@[i], *version) {
            (PlanRequest::UpdateTo { name, version_id }, Some(v)) => name@ == canonical_name(lock.plugins@, names@[i]@) && version_id@ == v@,
            (PlanRequest::UpdateLatest { name }, None) => name@ == canonical_name(lock.plugins@, names@[i]@),
            _ => false,
        },
{
    let mut out: Vec<PlanRequest> = Vec::new();
    let mut i: usize = 0;
    while i < names.len()
        invariant
            i <= names@.len(),
            out@.len() == i,
            forall|k: int| 0 <= k < out@.len() ==> match (#[trigger] out@[k], *version) {
                (PlanRequest::UpdateTo { name, version_id }, Some(v)) => name@ == canonical_name(lock.plugins@, names@[k]@) && version_id@ == v@,
                (PlanRequest::UpdateLatest { name }, None) => name@ == canonical_name(lock.plugins@, names@[k]@),
                _ => false,
            },
        decreases names@.len() - i,
    {
        let name = canonical_exec(lock, names[i].as_str());
        let req = match version {
            Some(v) => PlanRequest::UpdateTo { name, version_id: clone_string(v) },
            None => PlanRequest::UpdateLatest { name },
        };
        out.push(req);
        i = i + 1;
    }
    out
}

/// The restart policy, backup tool and control for an update of `server`: the policy as
/// given (an error names one that is not known), no backups when asked to skip them, else
/// the configured tool (`found` is what the search for it found).
pub fn apply_options(flow: &FlowArgs, server: &Server, panel_available: bool, secrets: &Secrets, backup_setting: &str, found: Option<String>) -> (r: Result<ApplyOptions, String>)
    ensures
        match parse_policy(flow.restart@, flow.countdown) {
            None => r matches Err(m) && m@ == flow.restart@ + ": not a restart policy (now, when-empty, never)"@,
            Some(p) => r matches Ok(o) && o.restart == p && match (if flow.no_backup { None } else { detected(backup_setting@, opt_view(found)) }) {
                Some(b) => o.backup matches Some(m) && m.bin@ == b,
                None => o.backup is None,
            },
        },
{
    let restart = match RestartPolicy::parse(flow.restart.as_str(), flow.countdown) {
        Some(p) => p,
        None => {
            proof {
                reveal_strlit(": not a restart policy (now, when-empty, never)");
            }
            return Err(concat2(flow.restart.as_str(), ": not a restart policy (now, when-empty, never)"));
        },
    };
    let backup = if flow.no_backup { None } else { Mcbackup::detect(backup_setting, found) };
    let control = for_server(server, panel_available, secrets);
    Ok(ApplyOptions { restart, backup, control })
}

} // verus!
