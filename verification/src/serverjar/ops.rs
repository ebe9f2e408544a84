//! Decisions around a server-jar upgrade.

use vstd::prelude::*;
use crate::sources::model::{compat_spec, Compat, CompatCtx, ResolvedVersion, ResolvedVersionV};
use crate::sources::resolve::rv_views;
use crate::text::{clone_string, decimal, join_with, opt_view, push_decimal, push_str, sviews, string_from_chars, to_chars};

verus! {

/// Which version of an installed plugin would run on the target Minecraft version.
#[derive(Debug, Clone)]
pub struct PluginCompat {
    pub name: String,
    pub current: String,
    pub best: Option<String>,
    pub compat: Compat,
}

/// Exact 3, lenient or same line 2, unknown 1, incompatible 0.
pub open spec fn compat_rank(c: Compat) -> int {
    match c {
        Compat::Exact => 3,
        Compat::Lenient | Compat::SameLineOnly => 2,
        Compat::Unknown => 1,
        Compat::Incompatible => 0,
    }
}

/// Over newest-first versions: the first one of the best compatibility class, with its
/// verdict.
pub open spec fn best_spec(vs: Seq<ResolvedVersionV>, ctx_mc: crate::util::version::VersionV, mode: crate::lockfile::CompatMode) -> Option<(int, Compat)>
    decreases vs.len(),
{
    if vs.len() == 0 {
        None
    } else {
        let c = compat_spec(vs.last().game_versions, ctx_mc, mode);
        match best_spec(vs.drop_last(), ctx_mc, mode) {
            Some((i, bc)) => if compat_rank(c) > compat_rank(bc) { Some((vs.len() - 1, c)) } else { Some((i, bc)) },
            None => Some((vs.len() - 1, c)),
        }
    }
}

/// The version an upgrade report names is the newest in the best compatibility class:
/// over newest-first versions, none has a better class, and every one before it (newer)
/// is in a strictly worse class. Only an empty list gives none.
pub proof fn lemma_best_is_newest_of_best(vs: Seq<ResolvedVersionV>, mc: crate::util::version::VersionV, mode: crate::lockfile::CompatMode)
    ensures
        match best_spec(vs, mc, mode) {
            None => vs.len() == 0,
            Some((i, c)) => {
                &&& 0 <= i < vs.len()
                &&& c == compat_spec(vs[i].game_versions, mc, mode)
                &&& forall|j: int| 0 <= j < vs.len() ==> compat_rank(#[trigger] compat_spec(vs[j].game_versions, mc, mode)) <= compat_rank(c)
                &&& forall|j: int| 0 <= j < i ==> compat_rank(#[trigger] compat_spec(vs[j].game_versions, mc, mode)) < compat_rank(c)
            },
        },
    decreases vs.len(),
{
    if vs.len() > 0 {
        let init = vs.drop_last();
        lemma_best_is_newest_of_best(init, mc, mode);
        let n = vs.len() - 1;
        let c = compat_spec(vs[n].game_versions, mc, mode);
        assert(vs.last() == vs[n]);
        match best_spec(init, mc, mode) {
            Some((i, bc)) => {
                let top = if compat_rank(c) > compat_rank(bc) { c } else { bc };
                assert forall|j: int| 0 <= j < vs.len() implies compat_rank(#[trigger] compat_spec(vs[j].game_versions, mc, mode)) <= compat_rank(top) by {
                    if j < n {
                        assert(init[j] == vs[j]);
                    }
                }
                if compat_rank(c) > compat_rank(bc) {
                    assert forall|j: int| 0 <= j < n implies compat_rank(#[trigger] compat_spec(vs[j].game_versions, mc, mode)) < compat_rank(c) by {
                        assert(init[j] == vs[j]);
                    }
                } else {
                    assert(init[i] == vs[i]);
                    assert forall|j: int| 0 <= j < i implies compat_rank(#[trigger] compat_spec(vs[j].game_versions, mc, mode)) < compat_rank(bc) by {
                        assert(init[j] == vs[j]);
                    }
                }
            },
            None => {},
        }
    }
}

fn rank_exec(c: Compat) -> (r: u8)
    ensures
        r == compat_rank(c),
{
    match c {
        Compat::Exact => 3,
        Compat::Lenient | Compat::SameLineOnly => 2,
        Compat::Unknown => 1,
        Compat::Incompatible => 0,
    }
}

/// One plugin's line of an upgrade report: the newest version in the best compatibility
/// class on the target, or none and incompatible when the source lists nothing.
pub fn plugin_compat(name: &String, current: String, versions: &Vec<ResolvedVersion>, ctx: &CompatCtx) -> (r: PluginCompat)
    ensures
        r.name@ == name@,
        r.current@ == current@,
        match best_spec(rv_views(versions@), ctx.mc_version@, ctx.mode) {
            Some((i, c)) => r.compat == c && (r.best matches Some(b) && b@ == versions@[i].version_number@),
            None => r.compat == Compat::Incompatible && r.best is None,
        },
{
    let ghost vs = rv_views(versions@);
    let mut best: Option<(usize, Compat)> = None;
    let mut i: usize = 0;
    assert(vs.take(0) =~= Seq::<ResolvedVersionV>::empty());
    while i < versions.len()
        invariant
            i <= versions@.len(),
            vs == rv_views(versions@),
            match best_spec(vs.take(i as int), ctx.mc_version@, ctx.mode) {
                Some((k, c)) => best == Some((k as usize, c)) && 0 <= k < i,
                None => best is None,
            },
        decreases versions@.len() - i,
    {
        assert(vs.take(i + 1).drop_last() =~= vs.take(i as int));
        assert(vs.take(i + 1).last() == versions@[i as int]@);
        let c = versions[i].compat(ctx);
        match best {
            Some((_, bc)) => {
                if rank_exec(c) > rank_exec(bc) {
                    best = Some((i, c));
                }
            },
            None => {
                best = Some((i, c));
            },
        }
        i = i + 1;
    }
    assert(vs.take(versions@.len() as int) =~= vs);
    match best {
        Some((k, c)) => {
            assert(vs[k as int] == versions@[k as int]@);
            PluginCompat { name: clone_string(name), current, best: Some(clone_string(&versions[k].version_number)), compat: c }
        },
        None => PluginCompat { name: clone_string(name), current, best: None, compat: Compat::Incompatible },
    }
}

/// Whether the start command's Java can run a build that needs `min`; when not, the
/// message saying so, listing the JVMs found on the machine.
pub open spec fn java_problem_spec(min: u32, java: Seq<char>, have: Option<u32>, installed: Seq<Seq<char>>) -> Option<Seq<char>> {
    match have {
        Some(h) if h >= min => None,
        _ => Some("needs Java "@ + decimal(min as nat) + ", but `"@ + java + "` is Java "@
            + match have { Some(h) => decimal(h as nat), None => "?"@ } + ". "@
            + if installed.len() == 0 {
                "Install a newer JDK and point the start command at it."@
            } else {
                "Installed JVMs: "@ + join_with(installed, ", "@)
            }),
    }
}

pub fn java_problem(min: u32, java: &str, have: Option<u32>, installed: &Vec<String>) -> (r: Option<String>)
    ensures
        crate::text::opt_view(r) == java_problem_spec(min, java@, have, sviews(installed@)),
{
    if let Some(h) = have {
        if h >= min {
            return None;
        }
    }
    proof {
        reveal_strlit("needs Java ");
        reveal_strlit(", but `");
        reveal_strlit("` is Java ");
        reveal_strlit("?");
        reveal_strlit(". ");
        reveal_strlit("Install a newer JDK and point the start command at it.");
        reveal_strlit("Installed JVMs: ");
        reveal_strlit(", ");
    }
    let mut out: Vec<char> = Vec::new();
    push_str(&mut out, "needs Java ");
    push_decimal(&mut out, min);
    push_str(&mut out, ", but `");
    push_str(&mut out, java);
    push_str(&mut out, "` is Java ");
    match have {
        Some(h) => push_decimal(&mut out, h),
        None => push_str(&mut out, "?"),
    }
    push_str(&mut out, ". ");
    if installed.len() == 0 {
        push_str(&mut out, "Install a newer JDK and point the start command at it.");
    } else {
        push_str(&mut out, "Installed JVMs: ");
        let mut parts: Vec<Vec<char>> = Vec::new();
        let mut i: usize = 0;
        while i < installed.len()
            invariant
                i <= installed@.len(),
                crate::text::views(parts@) == sviews(installed@).take(i as int),
            decreases installed@.len() - i,
        {
            let ghost before = crate::text::views(parts@);
            parts.push(to_chars(installed[i].as_str()));
            assert(crate::text::views(parts@) =~= before.push(installed@[i as int]@));
            i = i + 1;
            assert(crate::text::views(parts@) =~= sviews(installed@).take(i as int));
        }
        assert(sviews(installed@).take(installed@.len() as int) =~= sviews(installed@));
        let sep = to_chars(", ");
        let j = crate::text::join_chars(&parts, sep.as_slice());
        crate::text::push_all(&mut out, j.as_slice());
    }
    Some(string_from_chars(out.as_slice()))
}


/// What is downloaded for a build: its file, checked by its sha256 where it has one.
pub fn build_file(b: &crate::serverjar::BuildInfo) -> (r: crate::sources::model::VersionFile)
    ensures
        r.name@ == b.file_name@,
        r.url@ == b.url@,
        r.size is None,
        r.sha512 is None,
        opt_view(r.sha256) == opt_view(b.sha256),
        r.sha1 is None,
        r.primary,
{
    crate::sources::model::VersionFile {
        name: clone_string(&b.file_name),
        url: clone_string(&b.url),
        size: None,
        sha512: None,
        sha256: crate::text::clone_opt_string(&b.sha256),
        sha1: None,
        primary: true,
    }
}

/// The old jar is kept in the rollback directory only when the new one has its name (it
/// would be overwritten); otherwise it stays where it is.
pub fn moves_old_jar(old_file: &Option<String>, new_file: &str) -> (r: bool)
    ensures
        r == (opt_view(*old_file) == Some(new_file@)),
{
    match old_file {
        Some(o) => crate::lockfile::str_eq(o.as_str(), new_file),
        None => false,
    }
}

/// The note on the start command after an upgrade: it now runs the new jar, or why it
/// could not be changed and what to set it to.
pub open spec fn start_command_note_spec(file: Seq<char>, outcome: Result<(), Seq<char>>, new_cmd: Seq<char>) -> Seq<char> {
    match outcome {
        Ok(_) => "start command now runs "@ + file,
        Err(e) => "could not update the start command ("@ + e + "); set it to: "@ + new_cmd,
    }
}

pub fn start_command_note(file: &str, outcome: &Result<(), String>, new_cmd: &str) -> (r: String)
    ensures
        r@ == start_command_note_spec(file@, match *outcome { Ok(_) => Ok(()), Err(e) => Err(e@) }, new_cmd@),
{
    proof {
        reveal_strlit("start command now runs ");
        reveal_strlit("could not update the start command (");
        reveal_strlit("); set it to: ");
    }
    match outcome {
        Ok(()) => crate::text::concat2("start command now runs ", file),
        Err(e) => {
            let mut out: Vec<char> = Vec::new();
            push_str(&mut out, "could not update the start command (");
            push_str(&mut out, e.as_str());
            push_str(&mut out, "); set it to: ");
            push_str(&mut out, new_cmd);
            string_from_chars(out.as_slice())
        },
    }
}

/// `build <n>`.
pub open spec fn build_label(n: u32) -> Seq<char> {
    "build "@ + decimal(n as nat)
}

fn build_text(n: u32) -> (r: String)
    ensures
        r@ == build_label(n),
{
    proof {
        reveal_strlit("build ");
    }
    let mut out: Vec<char> = Vec::new();
    push_str(&mut out, "build ");
    push_decimal(&mut out, n);
    string_from_chars(out.as_slice())
}

/// The journal line of an applied server-jar upgrade: the Minecraft version, the build
/// it came from (when the old jar's name tells) and the one it went to, the files, and
/// the note on the start command.
pub fn jar_journal_entry(
    time: i64,
    tx_id: &str,
    b: &crate::serverjar::BuildInfo,
    old_build: Option<u32>,
    old_file: Option<String>,
    note: Option<String>,
) -> (r: crate::transaction::journal::JournalEntry)
    ensures
        r.time == time,
        r.tx_id@ == tx_id@,
        r.action@ == "server-jar"@,
        r.outcome@ == "applied"@,
        r.note == note,
        r.items@.len() == 1,
        r.items@[0].name@ == crate::util::version::display_spec(b.mc@),
        opt_view(r.items@[0].from) == match old_build {
            Some(n) => Some(build_label(n)),
            None => None,
        },
        r.items@[0].to@ == build_label(b.build),
        r.items@[0].old_file == old_file,
        r.items@[0].new_file@ == b.file_name@,
{
    let from = match old_build {
        Some(n) => Some(build_text(n)),
        None => None,
    };
    let item = crate::transaction::journal::JournalItem {
        name: b.mc.to_string(),
        from,
        to: build_text(b.build),
        old_file,
        new_file: clone_string(&b.file_name),
    };
    let mut items = Vec::new();
    items.push(item);
    let mut e = crate::transaction::flow::note_entry(time, tx_id, "server-jar", String::from_str("applied"), note);
    e.items = items;
    proof {
        reveal_strlit("server-jar");
        reveal_strlit("applied");
    }
    e
}

/// How the installed build stands against the newest one listed.
#[derive(Debug, Clone, Copy, PartialEq, Eq, Structural)]
pub enum BuildStanding {
    /// No builds are listed.
    Unlisted,
    UpToDate,
    /// This newer build is available.
    Available(u32),
}

pub open spec fn installed_build(builds: Seq<crate::serverjar::BuildInfo>, installed: Option<usize>) -> Option<u32> {
    match installed {
        Some(i) => if i < builds.len() { Some(builds[i as int].build) } else { None },
        None => None,
    }
}

/// The installed build is up to date when its number is that of the first (newest) build.
pub open spec fn standing_spec(builds: Seq<crate::serverjar::BuildInfo>, installed: Option<usize>) -> BuildStanding {
    if builds.len() == 0 {
        BuildStanding::Unlisted
    } else if installed_build(builds, installed) == Some(builds[0].build) {
        BuildStanding::UpToDate
    } else {
        BuildStanding::Available(builds[0].build)
    }
}

pub fn build_standing(builds: &Vec<crate::serverjar::BuildInfo>, installed: Option<usize>) -> (r: BuildStanding)
    ensures
        r == standing_spec(builds@, installed),
{
    if builds.len() == 0 {
        return BuildStanding::Unlisted;
    }
    let cur = match installed {
        Some(i) => if i < builds.len() { Some(builds[i].build) } else { None },
        None => None,
    };
    if cur == Some(builds[0].build) {
        BuildStanding::UpToDate
    } else {
        BuildStanding::Available(builds[0].build)
    }
}

/// What `jar` does.
#[derive(Debug, Clone, Copy, PartialEq, Eq, Structural)]
pub enum JarDecision {
    /// Show the status (and for an upgrade, the compatibility) and stop.
    ShowOnly,
    /// The newest build is installed already.
    Nothing,
    /// Install the build at this position of the list.
    Install(usize),
    /// The upgrade is refused until the Java version is fixed.
    FixJava,
    /// The Minecraft version asked for has no builds.
    NoBuilds,
}

/// An upgrade to another Minecraft version installs its newest build, unless the server's
/// Java cannot run it (refused, or only shown with `--check-only`) or it was only to be
/// checked; `--update` installs the newest build of the same version unless it is the
/// installed one; otherwise the status is shown.
pub open spec fn jar_decision_spec(upgrade: bool, update: bool, check_only: bool, builds: Seq<crate::serverjar::BuildInfo>, installed: Option<usize>, java_blocks: bool) -> JarDecision {
    if upgrade {
        if builds.len() == 0 {
            JarDecision::NoBuilds
        } else if java_blocks && !check_only {
            JarDecision::FixJava
        } else if check_only {
            JarDecision::ShowOnly
        } else {
            JarDecision::Install(0)
        }
    } else if update {
        match standing_spec(builds, installed) {
            BuildStanding::Available(_) => JarDecision::Install(0),
            _ => JarDecision::Nothing,
        }
    } else {
        JarDecision::ShowOnly
    }
}

pub fn jar_decision(upgrade: bool, update: bool, check_only: bool, builds: &Vec<crate::serverjar::BuildInfo>, installed: Option<usize>, java_blocks: bool) -> (d: JarDecision)
    ensures
        d == jar_decision_spec(upgrade, update, check_only, builds@, installed, java_blocks),
{
    if upgrade {
        if builds.len() == 0 {
            JarDecision::NoBuilds
        } else if java_blocks && !check_only {
            JarDecision::FixJava
        } else if check_only {
            JarDecision::ShowOnly
        } else {
            JarDecision::Install(0)
        }
    } else if update {
        match build_standing(builds, installed) {
            BuildStanding::Available(_) => JarDecision::Install(0),
            _ => JarDecision::Nothing,
        }
    } else {
        JarDecision::ShowOnly
    }
}

/// The error of a refused upgrade.
pub fn fix_java_first() -> (r: &'static str)
    ensures
        r@ == "fix the Java version first"@,
{
    "fix the Java version first"
}

} // verus!
