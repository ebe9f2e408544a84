//! Identifying installed jars: by hash where a source can, else by name, with a person
//! deciding what the name search leaves open. The searches are the caller's; what is made
//! of their answers is decided here.

use vstd::prelude::*;
use crate::lockfile::{first_with_sha512, Channel, CompatMode, LockFile, PluginEntry, PluginEntryV, SourceRef, SourceRefV};
use crate::plugins::scan::ScannedJar;
use crate::sources::model::{confidence_rank, primary_index, Candidate, Confidence, ProjectRef, ResolvedVersion, SourceKind};
use crate::text::{clone_string, find_char, find_char_exec, opt_view, parse_u32, parse_u32_spec, skip_chars, string_from_chars, take_chars, to_chars, upper, uppercase};
use crate::util::sort::{isort, sort_by_key};

verus! {

#[derive(Debug, Clone)]
pub struct IdentifyOptions {
    /// Accept a single exact-name candidate without asking.
    pub accept_exact_name: bool,
}

#[derive(Debug, Clone)]
pub struct Identified {
    pub jar: ScannedJar,
    pub project: ProjectRef,
    pub version: ResolvedVersion,
}

#[derive(Debug, Clone)]
pub struct Undecided {
    pub jar: ScannedJar,
    /// Best first.
    pub candidates: Vec<Candidate>,
}

#[derive(Debug, Clone)]
pub struct IdentifyReport {
    /// Already in the lockfile with this exact hash.
    pub unchanged: Vec<ScannedJar>,
    /// Newly identified by hash (or an accepted exact-name match).
    pub identified: Vec<Identified>,
    /// Needs a person: candidates sorted by confidence, best first.
    pub undecided: Vec<Undecided>,
    /// Jars without a usable descriptor (not plugins for this platform).
    pub skipped: Vec<ScannedJar>,
    pub errors: Vec<String>,
}

// ---------------------------------------------------------------------------------------
// First pass: what the lockfile already knows.

/// Where a scanned jar goes before any source is asked: `0` skipped (no descriptor), `1`
/// unchanged (the lock knows its hash and has identified it), `2` still to identify.
pub open spec fn triage_class(ps: Seq<PluginEntry>, j: ScannedJar) -> int {
    if j.descriptor is None {
        0
    } else {
        match first_with_sha512(ps, j.hashes.sha512@) {
            Some(i) => if ps[i].source@ is Unidentified { 2 } else { 1 },
            None => 2,
        }
    }
}

pub open spec fn class_of(ps: Seq<PluginEntry>, js: Seq<ScannedJar>, c: int) -> Seq<ScannedJar>
    decreases js.len(),
{
    if js.len() == 0 {
        Seq::empty()
    } else {
        let r = class_of(ps, js.drop_last(), c);
        if triage_class(ps, js.last()) == c { r.push(js.last()) } else { r }
    }
}

/// Sorts the scanned jars: the report's skipped and unchanged lists, and the jars left to
/// identify, each in scan order.
pub fn triage(lock: &LockFile, jars: Vec<ScannedJar>) -> (r: (IdentifyReport, Vec<ScannedJar>))
    ensures
        r.0.skipped@ == class_of(lock.plugins@, jars@, 0),
        r.0.unchanged@ == class_of(lock.plugins@, jars@, 1),
        r.1@ == class_of(lock.plugins@, jars@, 2),
        r.0.identified@.len() == 0,
        r.0.undecided@.len() == 0,
        r.0.errors@.len() == 0,
{
    let ghost js = jars@;
    let mut report = IdentifyReport { unchanged: Vec::new(), identified: Vec::new(), undecided: Vec::new(), skipped: Vec::new(), errors: Vec::new() };
    let mut pending: Vec<ScannedJar> = Vec::new();
    let mut rest = jars;
    let n = rest.len();
    let mut i: usize = 0;
    assert(js.take(0) =~= Seq::<ScannedJar>::empty());
    while rest.len() > 0
        invariant
            i + rest@.len() == n,
            n == js.len(),
            rest@ == js.skip(i as int),
            report.skipped@ == class_of(lock.plugins@, js.take(i as int), 0),
            report.unchanged@ == class_of(lock.plugins@, js.take(i as int), 1),
            pending@ == class_of(lock.plugins@, js.take(i as int), 2),
            report.identified@.len() == 0,
            report.undecided@.len() == 0,
            report.errors@.len() == 0,
        decreases rest@.len(),
    {
        let jar = rest.remove(0);
        assert(js.skip(i as int)[0] == jar);
        assert(js.take(i + 1).drop_last() =~= js.take(i as int));
        assert(js.take(i + 1).last() == jar);
        assert(js.skip(i as int).drop_first() =~= js.skip(i + 1));
        if jar.descriptor.is_none() {
            report.skipped.push(jar);
        } else {
            let known = match lock.by_sha512(jar.hashes.sha512.as_str()) {
                Some(e) => match &e.source {
                    SourceRef::Unidentified => 2u8,
                    _ => 1u8,
                },
                None => 2u8,
            };
            if known == 1 {
                report.unchanged.push(jar);
            } else {
                pending.push(jar);
            }
        }
        i = i + 1;
    }
    assert(js.take(n as int) =~= js);
    (report, pending)
}

// ---------------------------------------------------------------------------------------
// Second pass: bulk hash lookups.

/// A hash lookup's answer: the jar's sha512, the project and the version it is.
#[derive(Debug, Clone)]
pub struct HashHit {
    pub sha512: String,
    pub project: ProjectRef,
    pub version: ResolvedVersion,
}

/// The first answer for a hash.
pub open spec fn find_hit(t: Seq<HashHit>, h: Seq<char>) -> Option<int>
    decreases t.len(),
{
    if t.len() == 0 {
        None
    } else {
        match find_hit(t.drop_last(), h) {
            Some(k) => Some(k),
            None => if t.last().sha512@ == h { Some(t.len() - 1) } else { None },
        }
    }
}

/// Each jar, in order, takes the first answer for its hash, which is then used up; jars
/// without one are left for the name search. Gives the identified jars with their
/// answers, the rest, and the unused answers.
pub open spec fn hash_pass(t: Seq<HashHit>, js: Seq<ScannedJar>) -> (Seq<(ScannedJar, HashHit)>, Seq<ScannedJar>, Seq<HashHit>)
    decreases js.len(),
{
    if js.len() == 0 {
        (Seq::empty(), Seq::empty(), t)
    } else {
        let (id, still, left) = hash_pass(t, js.drop_last());
        match find_hit(left, js.last().hashes.sha512@) {
            Some(k) => (id.push((js.last(), left[k])), still, left.remove(k)),
            None => (id, still.push(js.last()), left),
        }
    }
}

proof fn lemma_find_hit(t: Seq<HashHit>, h: Seq<char>)
    ensures
        match find_hit(t, h) {
            Some(k) => 0 <= k < t.len() && t[k].sha512@ == h && forall|j: int| 0 <= j < k ==> t[j].sha512@ != h,
            None => forall|j: int| 0 <= j < t.len() ==> t[j].sha512@ != h,
        },
    decreases t.len(),
{
    if t.len() > 0 {
        lemma_find_hit(t.drop_last(), h);
        assert forall|j: int| 0 <= j < t.len() - 1 implies t.drop_last()[j] == t[j] by {}
    }
}

fn find_hit_exec(t: &Vec<HashHit>, h: &String) -> (r: Option<usize>)
    ensures
        match r {
            Some(i) => i < t@.len() && find_hit(t@, h@) == Some(i as int),
            None => find_hit(t@, h@) is None,
        },
{
    proof {
        lemma_find_hit(t@, h@);
    }
    let mut i: usize = 0;
    while i < t.len()
        invariant
            i <= t@.len(),
            forall|j: int| 0 <= j < i ==> t@[j].sha512@ != h@,
            match find_hit(t@, h@) {
                Some(k) => 0 <= k < t@.len() && t@[k].sha512@ == h@ && forall|j: int| 0 <= j < k ==> t@[j].sha512@ != h@,
                None => forall|j: int| 0 <= j < t@.len() ==> t@[j].sha512@ != h@,
            },
        decreases t@.len() - i,
    {
        if crate::text::str_eq_string(&t[i].sha512, h) {
            return Some(i);
        }
        i = i + 1;
    }
    None
}

/// Matches the jars left to identify against the hash lookups' answers (every source's,
/// in source order).
pub fn match_hashes(report: &mut IdentifyReport, pending: Vec<ScannedJar>, hits: Vec<HashHit>) -> (still: Vec<ScannedJar>)
    ensures
        final(report).identified@.len() == old(report).identified@.len() + hash_pass(hits@, pending@).0.len(),
        forall|i: int| 0 <= i < old(report).identified@.len() ==> final(report).identified@[i] == old(report).identified@[i],
        forall|i: int| 0 <= i < hash_pass(hits@, pending@).0.len() ==> {
            let x = #[trigger] final(report).identified@[old(report).identified@.len() + i];
            let p = hash_pass(hits@, pending@).0[i];
            x.jar == p.0 && x.project == p.1.project && x.version == p.1.version
        },
        still@ == hash_pass(hits@, pending@).1,
        final(report).unchanged == old(report).unchanged,
        final(report).undecided == old(report).undecided,
        final(report).skipped == old(report).skipped,
        final(report).errors == old(report).errors,
{
    let ghost js = pending@;
    let ghost t0 = hits@;
    let ghost base = report.identified@;
    let mut table = hits;
    let mut still: Vec<ScannedJar> = Vec::new();
    let mut rest = pending;
    let n = rest.len();
    let mut i: usize = 0;
    assert(js.take(0) =~= Seq::<ScannedJar>::empty());
    while rest.len() > 0
        invariant
            i + rest@.len() == n,
            n == js.len(),
            rest@ == js.skip(i as int),
            table@ == hash_pass(t0, js.take(i as int)).2,
            still@ == hash_pass(t0, js.take(i as int)).1,
            report.identified@.len() == base.len() + hash_pass(t0, js.take(i as int)).0.len(),
            forall|k: int| 0 <= k < base.len() ==> report.identified@[k] == base[k],
            forall|k: int| 0 <= k < hash_pass(t0, js.take(i as int)).0.len() ==> {
                let x = #[trigger] report.identified@[base.len() + k];
                let p = hash_pass(t0, js.take(i as int)).0[k];
                x.jar == p.0 && x.project == p.1.project && x.version == p.1.version
            },
            report.unchanged == old(report).unchanged,
            report.undecided == old(report).undecided,
            report.skipped == old(report).skipped,
            report.errors == old(report).errors,
            base == old(report).identified@,
        decreases rest@.len(),
    {
        let jar = rest.remove(0);
        assert(js.skip(i as int)[0] == jar);
        assert(js.take(i + 1).drop_last() =~= js.take(i as int));
        assert(js.take(i + 1).last() == jar);
        assert(js.skip(i as int).drop_first() =~= js.skip(i + 1));
        let ghost prev = hash_pass(t0, js.take(i as int));
        let ghost jv = jar;
        let ghost next = hash_pass(t0, js.take(i + 1));
        match find_hit_exec(&table, &jar.hashes.sha512) {
            Some(k) => {
                assert(find_hit(prev.2, jv.hashes.sha512@) == Some(k as int));
                let hit = table.remove(k);
                assert(hit == prev.2[k as int]);
                assert(next == (prev.0.push((jv, prev.2[k as int])), prev.1, prev.2.remove(k as int)));
                let ghost before = report.identified@;
                report.identified.push(Identified { jar, project: hit.project, version: hit.version });
                assert forall|q: int| 0 <= q < next.0.len() implies {
                    let x = #[trigger] report.identified@[base.len() + q];
                    let p = next.0[q];
                    x.jar == p.0 && x.project == p.1.project && x.version == p.1.version
                } by {
                    if q < prev.0.len() {
                        assert(report.identified@[base.len() + q] == before[base.len() + q]);
                    }
                }
            },
            None => {
                assert(find_hit(prev.2, jv.hashes.sha512@) is None);
                assert(next == (prev.0, prev.1.push(jv), prev.2));
                still.push(jar);
            },
        }
        i = i + 1;
    }
    assert(js.take(n as int) =~= js);
    still
}

// ---------------------------------------------------------------------------------------
// Third pass: the name search's candidates.

/// Candidates sort by confidence, then by downloads (known counts first, larger first).
pub open spec fn cand_key(c: Candidate) -> Seq<u64> {
    seq![
        (3 - confidence_rank(c.confidence)) as u64,
        if c.project.downloads is Some { 0u64 } else { 1u64 },
        match c.project.downloads {
            Some(d) => (u64::MAX - d) as u64,
            None => 0u64,
        },
    ]
}

pub open spec fn keyed_cands(ks: Seq<(Vec<u64>, Candidate)>, cs: Seq<Candidate>) -> bool {
    &&& ks.len() == cs.len()
    &&& forall|i: int| 0 <= i < ks.len() ==> (#[trigger] ks[i]).1 == cs[i] && ks[i].0@ == cand_key(cs[i])
}

pub open spec fn cands_of(ks: Seq<(Vec<u64>, Candidate)>) -> Seq<Candidate> {
    ks.map_values(|p: (Vec<u64>, Candidate)| p.1)
}

/// The candidates a person is shown: best first (stable among equals), at most eight.
pub open spec fn ranked(r: Seq<Candidate>, cs: Seq<Candidate>) -> bool {
    exists|ks: Seq<(Vec<u64>, Candidate)>| #[trigger] keyed_cands(ks, cs) && r == cands_of(isort(ks)).take(if cs.len() < 8 { cs.len() as int } else { 8 })
}

/// What one candidate sorting no later than another says of the two.
proof fn lemma_cand_key_order(a: Candidate, b: Candidate)
    requires
        crate::util::sort::key_le(cand_key(a), cand_key(b)),
    ensures
        confidence_rank(a.confidence) >= confidence_rank(b.confidence),
        a.confidence == b.confidence && b.project.downloads is Some ==> (a.project.downloads matches Some(x) && x >= b.project.downloads->0),
{
    let (ka, kb) = (cand_key(a), cand_key(b));
    assert(!crate::util::sort::key_lt(kb, ka));
    assert(ka[0] <= kb[0]);
    if a.confidence == b.confidence && b.project.downloads is Some {
        assert(ka[0] == kb[0]);
        assert(kb.drop_first()[0] == 0u64);
        assert(!crate::util::sort::key_lt(kb.drop_first(), ka.drop_first()));
        assert(ka.drop_first()[0] == 0u64);
        assert(!crate::util::sort::key_lt(kb.drop_first().drop_first(), ka.drop_first().drop_first()));
        assert(ka.drop_first().drop_first()[0] <= kb.drop_first().drop_first()[0]);
    }
}

/// The candidates shown are the given ones, best first: confidence never rises down the
/// list, and a hash-confirmed candidate among those given comes first.
pub proof fn lemma_ranked_best_first(r: Seq<Candidate>, cs: Seq<Candidate>)
    requires
        ranked(r, cs),
    ensures
        forall|i: int, j: int| 0 <= i < j < r.len() ==>
            confidence_rank((#[trigger] r[i]).confidence) >= confidence_rank((#[trigger] r[j]).confidence),
        forall|i: int| 0 <= i < r.len() ==> cs.contains(#[trigger] r[i]),
        (exists|a: int| 0 <= a < cs.len() && (#[trigger] cs[a]).confidence is HashConfirmed) ==> r.len() > 0 && r[0].confidence is HashConfirmed,
        r.len() == if cs.len() < 8 { cs.len() as int } else { 8 },
        forall|i: int, j: int| 0 <= i < j < r.len() && (#[trigger] r[i]).confidence == (#[trigger] r[j]).confidence
            && r[j].project.downloads is Some ==> (r[i].project.downloads matches Some(x) && x >= r[j].project.downloads->0),
{
    broadcast use vstd::seq_lib::group_to_multiset_ensures;
    let ks = choose|ks: Seq<(Vec<u64>, Candidate)>| #[trigger] keyed_cands(ks, cs)
        && r == cands_of(isort(ks)).take(if cs.len() < 8 { cs.len() as int } else { 8 });
    let t = isort(ks);
    crate::util::sort::lemma_isort(ks);
    assert forall|i: int| 0 <= i < t.len() implies (#[trigger] t[i]).0@ == cand_key(t[i].1) && cs.contains(t[i].1) by {
        assert(t.contains(t[i]));
        assert(t.to_multiset().count(t[i]) > 0);
        assert(ks.contains(t[i]));
        let a = choose|a: int| 0 <= a < ks.len() && ks[a] == t[i];
        assert(ks[a].1 == cs[a]);
    }
    assert forall|i: int| 0 <= i < r.len() implies r[i] == (#[trigger] t[i]).1 by {
        assert(r[i] == cands_of(t)[i]);
    }
    assert forall|i: int, j: int| 0 <= i < j < r.len() implies
        confidence_rank((#[trigger] r[i]).confidence) >= confidence_rank((#[trigger] r[j]).confidence)
        && (r[i].confidence == r[j].confidence && r[j].project.downloads is Some
            ==> (r[i].project.downloads matches Some(x) && x >= r[j].project.downloads->0)) by {
        assert(r[i] == t[i].1 && r[j] == t[j].1);
        assert(crate::util::sort::key_le(t[i].0@, t[j].0@));
        assert(t[i].0@ == cand_key(t[i].1) && t[j].0@ == cand_key(t[j].1));
        lemma_cand_key_order(r[i], r[j]);
    }
    assert forall|i: int| 0 <= i < r.len() implies cs.contains(#[trigger] r[i]) by {
        assert(r[i] == t[i].1);
    }
    if exists|a: int| 0 <= a < cs.len() && (#[trigger] cs[a]).confidence is HashConfirmed {
        let a = choose|a: int| 0 <= a < cs.len() && (#[trigger] cs[a]).confidence is HashConfirmed;
        assert(ks.contains(ks[a]));
        assert(ks.to_multiset().count(ks[a]) > 0);
        assert(t.contains(ks[a]));
        let p = choose|p: int| 0 <= p < t.len() && t[p] == ks[a];
        assert(ks[a].0@ == cand_key(cs[a]));
        assert(r[0] == t[0].1);
        if p > 0 {
            assert(crate::util::sort::key_le(t[0].0@, t[p].0@));
            assert(t[0].0@[0] <= t[p].0@[0]);
        }
    }
}

fn cand_key_exec(c: &Candidate) -> (r: Vec<u64>)
    ensures
        r@ == cand_key(*c),
{
    let mut k: Vec<u64> = Vec::new();
    k.push((3 - c.confidence.rank()) as u64);
    match c.project.downloads {
        Some(d) => {
            k.push(0);
            k.push(u64::MAX - d);
        },
        None => {
            k.push(1);
            k.push(0);
        },
    }
    assert(k@ =~= cand_key(*c));
    k
}

pub fn rank_candidates(cands: Vec<Candidate>) -> (r: Vec<Candidate>)
    ensures
        ranked(r@, cands@),
{
    let ghost cs = cands@;
    let mut keyed: Vec<(Vec<u64>, Candidate)> = Vec::new();
    let mut rest = cands;
    let n = rest.len();
    let mut i: usize = 0;
    while rest.len() > 0
        invariant
            i + rest@.len() == n,
            n == cs.len(),
            rest@ == cs.skip(i as int),
            keyed_cands(keyed@, cs.take(i as int)),
        decreases rest@.len(),
    {
        let c = rest.remove(0);
        assert(cs.skip(i as int)[0] == c);
        let k = cand_key_exec(&c);
        keyed.push((k, c));
        assert(cs.skip(i as int).drop_first() =~= cs.skip(i + 1));
        i = i + 1;
        assert(keyed_cands(keyed@, cs.take(i as int)));
    }
    assert(cs.take(n as int) =~= cs);
    let ghost ks = keyed@;
    let sorted = sort_by_key(keyed);
    proof {
        crate::util::sort::lemma_isort(ks);
    }
    let ghost ss = sorted@;
    let keep: usize = if n < 8 { n } else { 8 };
    let mut out: Vec<Candidate> = Vec::new();
    let mut rest2 = sorted;
    let mut j: usize = 0;
    while j < keep
        invariant
            j <= keep,
            keep <= n,
            ss.len() == n,
            j + rest2@.len() == ss.len(),
            rest2@ == ss.skip(j as int),
            out@ == cands_of(ss).take(j as int),
        decreases keep - j,
    {
        let p = rest2.remove(0);
        assert(ss.skip(j as int)[0] == p);
        out.push(p.1);
        assert(ss.skip(j as int).drop_first() =~= ss.skip(j + 1));
        j = j + 1;
        assert(out@ =~= cands_of(ss).take(j as int));
    }
    assert(keyed_cands(ks, cs));
    out
}

/// The version recorded for an exact-name match whose jar is not a published file: the
/// first update check finds the newest.
pub open spec fn placeholder_ok(v: ResolvedVersion, p: ProjectRef) -> bool {
    &&& v.source == p.source
    &&& v.project_id@ == p.id@
    &&& v.version_id@.len() == 0
    &&& v.version_number@ == "unknown"@
    &&& v.channel == Channel::Release
    &&& v.game_versions@.len() == 0
    &&& v.loaders@.len() == 0
    &&& v.published == 0
    &&& v.files@.len() == 0
    &&& v.dependencies@.len() == 0
    &&& v.changelog is None
}

pub fn placeholder_version(p: &ProjectRef) -> (r: ResolvedVersion)
    ensures
        placeholder_ok(r, *p),
{
    ResolvedVersion {
        source: p.source,
        project_id: clone_string(&p.id),
        version_id: String::new(),
        version_number: String::from_str("unknown"),
        channel: Channel::Release,
        game_versions: Vec::new(),
        loaders: Vec::new(),
        published: 0,
        files: Vec::new(),
        dependencies: Vec::new(),
        changelog: None,
    }
}

pub open spec fn count_exact(cs: Seq<Candidate>) -> nat
    decreases cs.len(),
{
    if cs.len() == 0 {
        0
    } else {
        count_exact(cs.drop_last()) + if cs.last().confidence == Confidence::ExactName { 1nat } else { 0nat }
    }
}

fn count_exact_exec(cs: &Vec<Candidate>) -> (r: usize)
    ensures
        r == count_exact(cs@),
{
    let mut n: usize = 0;
    let mut i: usize = 0;
    assert(cs@.take(0) =~= Seq::<Candidate>::empty());
    while i < cs.len()
        invariant
            i <= cs@.len(),
            n == count_exact(cs@.take(i as int)),
            n <= i,
        decreases cs@.len() - i,
    {
        assert(cs@.take(i + 1).drop_last() =~= cs@.take(i as int));
        if cs[i].confidence == Confidence::ExactName {
            n = n + 1;
        }
        i = i + 1;
    }
    assert(cs@.take(cs@.len() as int) =~= cs@);
    n
}

/// What the name search decides for a jar.
#[derive(Debug, Clone)]
pub enum Decision {
    Identified(Identified),
    Undecided(Undecided),
}

/// With ranked candidates: the best one is taken when it is hash-confirmed with a version,
/// or, when exact names are accepted, when it is the only exact-name candidate (with a
/// placeholder version); otherwise a person decides.
pub fn decide(jar: ScannedJar, candidates: Vec<Candidate>, opts: &IdentifyOptions) -> (r: Decision)
    ensures
        ({
            let cs = candidates@;
            if cs.len() > 0 && cs[0].confidence == Confidence::HashConfirmed && cs[0].version is Some {
                r matches Decision::Identified(x) && x.jar == jar && x.project@ == cs[0].project@ && x.version@ == cs[0].version->0@
            } else if cs.len() > 0 && opts.accept_exact_name && cs[0].confidence == Confidence::ExactName && count_exact(cs) == 1 {
                r matches Decision::Identified(x) && x.jar == jar && x.project@ == cs[0].project@ && placeholder_ok(x.version, cs[0].project)
            } else {
                r matches Decision::Undecided(u) && u.jar == jar && u.candidates == candidates
            }
        }),
{
    if candidates.len() > 0 {
        let best = &candidates[0];
        if best.confidence == Confidence::HashConfirmed {
            if let Some(v) = &best.version {
                return Decision::Identified(Identified { jar, project: best.project.copy(), version: v.copy() });
            }
        }
        if opts.accept_exact_name && best.confidence == Confidence::ExactName && count_exact_exec(&candidates) == 1 {
            let placeholder = placeholder_version(&best.project);
            return Decision::Identified(Identified { jar, project: best.project.copy(), version: placeholder });
        }
    }
    Decision::Undecided(Undecided { jar, candidates })
}

// ---------------------------------------------------------------------------------------
// Lock entries.

/// How a project and version are recorded as a plugin's source.
pub open spec fn source_ref_spec(p: ProjectRef, v: ResolvedVersion) -> SourceRefV {
    match p.source {
        SourceKind::Modrinth => SourceRefV::Modrinth { project_id: p.id@, version_id: v.version_id@, version_number: v.version_number@ },
        SourceKind::Hangar => SourceRefV::Hangar {
            slug: p.id@,
            version_name: v.version_id@,
            platform: upper(if v.loaders@.len() > 0 { v.loaders@[0]@ } else { "paper"@ }),
        },
        SourceKind::GitHub => SourceRefV::GitHub {
            owner: match find_char(p.id@, '/') {
                Some(i) => p.id@.take(i),
                None => p.id@,
            },
            repo: match find_char(p.id@, '/') {
                Some(i) => p.id@.skip(i + 1),
                None => Seq::empty(),
            },
            asset_glob: "*.jar"@,
            tag: v.version_id@,
            asset_name: match primary_index(v.files@) {
                Some(i) => v.files@[i].name@,
                None => Seq::empty(),
            },
        },
        SourceKind::GeyserMc => SourceRefV::GeyserMc {
            project: p.id@,
            download: if v.loaders@.len() > 0 { v.loaders@[0]@ } else { "spigot"@ },
            build: parse_u32_spec(v.version_id@),
        },
    }
}

pub fn source_ref(p: &ProjectRef, v: &ResolvedVersion) -> (r: SourceRef)
    ensures
        r@ == source_ref_spec(*p, *v),
{
    proof {
        reveal_strlit("paper");
        reveal_strlit("*.jar");
        reveal_strlit("spigot");
    }
    match p.source {
        SourceKind::Modrinth => SourceRef::Modrinth {
            project_id: clone_string(&p.id),
            version_id: clone_string(&v.version_id),
            version_number: clone_string(&v.version_number),
        },
        SourceKind::Hangar => {
            let first = if v.loaders.len() > 0 { clone_string(&v.loaders[0]) } else { String::from_str("paper") };
            SourceRef::Hangar { slug: clone_string(&p.id), version_name: clone_string(&v.version_id), platform: uppercase(first.as_str()) }
        },
        SourceKind::GitHub => {
            let id = to_chars(p.id.as_str());
            let idlen = id.len();
            let (owner, repo) = match find_char_exec(id.as_slice(), '/') {
                Some(i) => {
                    let o = take_chars(id.as_slice(), i);
                    let r = skip_chars(id.as_slice(), i + 1);
                    (string_from_chars(o.as_slice()), string_from_chars(r.as_slice()))
                },
                None => (clone_string(&p.id), String::new()),
            };
            let asset_name = match v.primary_file() {
                Some(f) => clone_string(&f.name),
                None => String::new(),
            };
            proof {
                crate::sources::model::lemma_primary_index_v(v.files@);
            }
            SourceRef::GitHub { owner, repo, asset_glob: String::from_str("*.jar"), tag: clone_string(&v.version_id), asset_name }
        },
        SourceKind::GeyserMc => {
            let download = if v.loaders.len() > 0 { clone_string(&v.loaders[0]) } else { String::from_str("spigot") };
            let vid = to_chars(v.version_id.as_str());
            SourceRef::GeyserMc { project: clone_string(&p.id), download, build: parse_u32(vid.as_slice()) }
        },
    }
}

/// The lock entry recorded for an identified jar.
pub open spec fn entry_for_spec(id: Identified) -> PluginEntryV {
    PluginEntryV {
        name: id.jar.descriptor->0.name@,
        file: id.jar.file@,
        descriptor_version: opt_view(id.jar.descriptor->0.version),
        hashes: id.jar.hashes@,
        channel: id.version.channel,
        pinned: false,
        ignored_versions: Seq::empty(),
        compat: CompatMode::Inherit,
        installed_at: id.jar.modified,
        source: source_ref_spec(id.project, id.version),
    }
}

/// The lock entry recorded for a jar nobody has identified.
pub open spec fn unidentified_spec(jar: ScannedJar) -> PluginEntryV {
    PluginEntryV {
        name: jar.descriptor->0.name@,
        file: jar.file@,
        descriptor_version: opt_view(jar.descriptor->0.version),
        hashes: jar.hashes@,
        channel: Channel::Release,
        pinned: false,
        ignored_versions: Seq::empty(),
        compat: CompatMode::Inherit,
        installed_at: jar.modified,
        source: SourceRefV::Unidentified,
    }
}

/// The lock entry for an identified jar.
pub fn entry_for(id: &Identified) -> (r: PluginEntry)
    requires
        id.jar.descriptor is Some,
    ensures
        r@ == entry_for_spec(*id),
{
    let d = match &id.jar.descriptor {
        Some(d) => d,
        None => {
            proof {
                assert(false);
            }
            return PluginEntry {
                name: String::new(),
                file: String::new(),
                descriptor_version: None,
                hashes: id.jar.hashes.copy(),
                channel: Channel::Release,
                pinned: false,
                ignored_versions: Vec::new(),
                compat: CompatMode::Inherit,
                installed_at: None,
                source: SourceRef::Unidentified,
            };
        },
    };
    let r = PluginEntry {
        name: clone_string(&d.name),
        file: clone_string(&id.jar.file),
        descriptor_version: crate::text::clone_opt_string(&d.version),
        hashes: id.jar.hashes.copy(),
        channel: id.version.channel,
        pinned: false,
        ignored_versions: Vec::new(),
        compat: CompatMode::Inherit,
        installed_at: id.jar.modified,
        source: source_ref(&id.project, &id.version),
    };
    assert(r@ =~= entry_for_spec(*id));
    r
}

/// The lock entry for a jar nobody has identified yet, so the lock still records it (and
/// stops treating it as new).
pub fn unidentified_entry(jar: &ScannedJar) -> (r: PluginEntry)
    requires
        jar.descriptor is Some,
    ensures
        r@ == unidentified_spec(*jar),
{
    let (name, version) = match &jar.descriptor {
        Some(d) => (clone_string(&d.name), crate::text::clone_opt_string(&d.version)),
        None => {
            proof {
                assert(false);
            }
            (String::new(), None)
        },
    };
    let r = PluginEntry {
        name,
        file: clone_string(&jar.file),
        descriptor_version: version,
        hashes: jar.hashes.copy(),
        channel: Channel::Release,
        pinned: false,
        ignored_versions: Vec::new(),
        compat: CompatMode::Inherit,
        installed_at: jar.modified,
        source: SourceRef::Unidentified,
    };
    assert(r@ =~= unidentified_spec(*jar));
    r
}

} // verus!
