//! Server software: identify the installed build, offer newer builds of the same Minecraft
//! version, and upgrade to a new Minecraft version deliberately. The build APIs are the
//! caller's; what their answers become is decided here.

pub mod ops;

use vstd::prelude::*;
use crate::server::start_command::{replace_jar, shell_words, StartCommand, jar_spec, join_space, quote_all};
use crate::sources::hangar::{key_index, key_index_exec};
use crate::text::{clone_string, decimal, eq_ignore_case, lower, lowercase, opt_view, parse_u32, parse_u32_spec, push_decimal, push_str, string_from_chars, sviews, to_chars};
use crate::util::version::{display_spec, older, McVersion, VersionV};
use crate::digest::{hex_lower, md5_of, sha256_of};
use crate::archive::zip_entry_names;

verus! {

#[derive(Debug, Clone)]
pub struct BuildInfo {
    pub mc: McVersion,
    pub build: u32,
    pub file_name: String,
    pub url: String,
    pub sha256: Option<String>,
    pub md5: Option<String>,
    pub java_min: Option<u32>,
    pub channel: String,
    /// Unix time (seconds, UTC).
    pub time: Option<i64>,
}

/// The installed build is the first whose sha256 matches the jar's (ignoring ASCII case),
/// or whose md5 equals the jar's when that is known.
pub open spec fn build_matches(b: BuildInfo, sha256: Seq<char>, md5: Option<Seq<char>>) -> bool {
    (b.sha256 matches Some(h) && lower(h@) == lower(sha256)) || (md5 is Some && opt_view(b.md5) == md5)
}

pub open spec fn first_match(bs: Seq<BuildInfo>, sha256: Seq<char>, md5: Option<Seq<char>>) -> Option<int>
    decreases bs.len(),
{
    if bs.len() == 0 {
        None
    } else {
        match first_match(bs.drop_last(), sha256, md5) {
            Some(i) => Some(i),
            None => if build_matches(bs.last(), sha256, md5) { Some(bs.len() - 1) } else { None },
        }
    }
}

pub fn identify_build(builds: &Vec<BuildInfo>, sha256: &str, md5: &Option<String>) -> (r: Option<usize>)
    ensures
        match r {
            Some(i) => i < builds@.len() && first_match(builds@, sha256@, opt_view(*md5)) == Some(i as int),
            None => first_match(builds@, sha256@, opt_view(*md5)) is None,
        },
{
    let h = to_chars(sha256);
    let mut i: usize = 0;
    assert(builds@.take(0) =~= Seq::<BuildInfo>::empty());
    while i < builds.len()
        invariant
            i <= builds@.len(),
            h@ == sha256@,
            first_match(builds@.take(i as int), sha256@, opt_view(*md5)) is None,
        decreases builds@.len() - i,
    {
        assert(builds@.take(i + 1).drop_last() =~= builds@.take(i as int));
        let b = &builds[i];
        let by_sha = match &b.sha256 {
            Some(x) => eq_ignore_case(to_chars(x.as_str()).as_slice(), h.as_slice()),
            None => false,
        };
        let by_md5 = match (md5, &b.md5) {
            (Some(m), Some(x)) => crate::text::str_eq_string(m, x),
            _ => false,
        };
        if by_sha || by_md5 {
            assert(first_match(builds@.take(i + 1), sha256@, opt_view(*md5)) == Some(i as int));
            proof {
                lemma_first_match_prefix(builds@, sha256@, opt_view(*md5), i + 1, i as int);
            }
            return Some(i);
        }
        i = i + 1;
    }
    assert(builds@.take(builds@.len() as int) =~= builds@);
    None
}

proof fn lemma_first_match_prefix(bs: Seq<BuildInfo>, sha256: Seq<char>, md5: Option<Seq<char>>, n: int, k: int)
    requires
        0 <= n <= bs.len(),
        first_match(bs.take(n), sha256, md5) == Some(k),
    ensures
        first_match(bs, sha256, md5) == Some(k),
    decreases bs.len() - n,
{
    if n < bs.len() {
        assert(bs.take(n + 1).drop_last() =~= bs.take(n));
        assert(first_match(bs.take(n + 1), sha256, md5) == Some(k));
        lemma_first_match_prefix(bs, sha256, md5, n + 1, k);
    } else {
        assert(bs.take(n) =~= bs);
    }
}

/// A Paper build's download.
#[derive(Debug, Clone)]
pub struct PaperDownload {
    pub name: String,
    pub url: String,
    pub sha256: String,
}

/// A Paper build as the Fill API lists it.
#[derive(Debug, Clone)]
pub struct PaperBuild {
    pub id: u32,
    pub time: Option<i64>,
    pub channel: String,
    pub downloads: Vec<(String, PaperDownload)>,
}

/// A Paper build with a `server:default` download, as build information.
pub open spec fn paper_build_ok(mc: VersionV, java_min: Option<u32>, b: PaperBuild, r: BuildInfo) -> bool {
    match key_index(b.downloads@, "server:default"@) {
        Some(i) => {
            let d = b.downloads@[i].1;
            &&& r.mc@ == mc
            &&& r.build == b.id
            &&& r.file_name@ == d.name@
            &&& r.url@ == d.url@
            &&& opt_view(r.sha256) == Some(d.sha256@)
            &&& r.md5 is None
            &&& r.java_min == java_min
            &&& r.channel@ == lower(b.channel@)
            &&& r.time == b.time
        },
        None => false,
    }
}

pub fn paper_build(mc: &McVersion, java_min: Option<u32>, b: &PaperBuild) -> (r: Option<BuildInfo>)
    ensures
        match r {
            Some(x) => paper_build_ok(mc@, java_min, *b, x),
            None => key_index(b.downloads@, "server:default"@) is None,
        },
{
    proof {
        reveal_strlit("server:default");
    }
    let i = match key_index_exec(&b.downloads, "server:default") {
        Some(i) => i,
        None => return None,
    };
    let d = &b.downloads[i].1;
    Some(BuildInfo {
        mc: mc.copy(),
        build: b.id,
        file_name: clone_string(&d.name),
        url: clone_string(&d.url),
        sha256: Some(clone_string(&d.sha256)),
        md5: None,
        java_min,
        channel: lowercase(b.channel.as_str()),
        time: b.time,
    })
}

/// `v` is what one of the listed build ids reads as.
pub open spec fn parsed_from(all: Seq<Seq<char>>, v: u32) -> bool {
    exists|k: int| 0 <= k < all.len() && parse_u32_spec(#[trigger] all[k]) == Some(v)
}

/// Purpur's build list: the build ids that read as numbers, newest (highest) first, at
/// most fifteen.
pub open spec fn purpur_ids_ok(all: Seq<Seq<char>>, r: Seq<u32>) -> bool {
    &&& r.len() <= 15
    &&& forall|i: int, j: int| 0 <= i < j < r.len() ==> r[j] <= r[i]
    &&& forall|i: int| 0 <= i < r.len() ==> parsed_from(all, #[trigger] r[i])
    &&& forall|k: int| 0 <= k < all.len() && parse_u32_spec(#[trigger] all[k]) is Some ==> {
        let v = parse_u32_spec(all[k])->0;
        r.contains(v) || (r.len() == 15 && forall|i: int| 0 <= i < r.len() ==> v <= #[trigger] r[i])
    }
}

/// The ids to fetch: every build id that parses, highest first, the first fifteen.
pub fn purpur_ids(all: &Vec<String>) -> (r: Vec<u32>)
    ensures
        purpur_ids_ok(sviews(all@), r@),
{
    let mut ids: Vec<u32> = Vec::new();
    let mut i: usize = 0;
    while i < all.len()
        invariant
            i <= all@.len(),
            forall|j: int| 0 <= j < ids@.len() ==> parsed_from(sviews(all@), #[trigger] ids@[j]),
            forall|k: int| 0 <= k < i && parse_u32_spec(#[trigger] sviews(all@)[k]) is Some ==> ids@.contains(parse_u32_spec(sviews(all@)[k])->0),
        decreases all@.len() - i,
    {
        let t = to_chars(all[i].as_str());
        assert(sviews(all@)[i as int] == all@[i as int]@);
        match parse_u32(t.as_slice()) {
            Some(n) => {
                let ghost old_ids = ids@;
                ids.push(n);
                assert forall|v: u32| old_ids.contains(v) implies ids@.contains(v) by {
                    let q = choose|q: int| 0 <= q < old_ids.len() && old_ids[q] == v;
                    assert(ids@[q] == v);
                }
                assert(ids@[ids@.len() - 1] == n);
                assert(ids@.contains(n));
            },
            None => {},
        }
        i = i + 1;
    }
    // highest first: repeatedly take the largest remaining id
    let mut out: Vec<u32> = Vec::new();
    let ghost found = ids@;
    assert forall|k: int| 0 <= k < all@.len() && parse_u32_spec(#[trigger] sviews(all@)[k]) is Some implies
        found.contains(parse_u32_spec(sviews(all@)[k])->0) by {
        assert(ids@.contains(parse_u32_spec(sviews(all@)[k])->0));
    }
    assert forall|j: int| 0 <= j < found.len() implies parsed_from(sviews(all@), #[trigger] found[j]) by {
        assert(found[j] == ids@[j]);
    }
    let mut rest = ids;
    assert forall|j: int| 0 <= j < rest@.len() implies found.contains(#[trigger] rest@[j]) by {
        assert(rest@[j] == found[j]);
    }
    assert forall|k: int| 0 <= k < all@.len() && parse_u32_spec(#[trigger] sviews(all@)[k]) is Some implies
        rest@.contains(parse_u32_spec(sviews(all@)[k])->0) by {
        assert(found.contains(parse_u32_spec(sviews(all@)[k])->0));
    }
    while out.len() < 15 && rest.len() > 0
        invariant
            out@.len() <= 15,
            forall|a: int, b: int| 0 <= a < b < out@.len() ==> out@[b] <= out@[a],
            forall|a: int, b: int| 0 <= a < out@.len() && 0 <= b < rest@.len() ==> rest@[b] <= out@[a],
            forall|j: int| 0 <= j < found.len() ==> parsed_from(sviews(all@), #[trigger] found[j]),
            forall|j: int| 0 <= j < out@.len() ==> found.contains(#[trigger] out@[j]),
            forall|j: int| 0 <= j < rest@.len() ==> found.contains(#[trigger] rest@[j]),
            forall|k: int| 0 <= k < all@.len() && parse_u32_spec(#[trigger] sviews(all@)[k]) is Some ==>
                out@.contains(parse_u32_spec(sviews(all@)[k])->0) || rest@.contains(parse_u32_spec(sviews(all@)[k])->0),
        decreases rest@.len(),
    {
        let mut best: usize = 0;
        let mut j: usize = 1;
        while j < rest.len()
            invariant
                best < rest@.len(),
                1 <= j <= rest@.len(),
                forall|b: int| 0 <= b < j ==> rest@[b] <= rest@[best as int],
            decreases rest@.len() - j,
        {
            if rest[j] > rest[best] {
                best = j;
            }
            j = j + 1;
        }
        let ghost before = rest@;
        let x = rest.remove(best);
        assert forall|b: int| 0 <= b < rest@.len() implies rest@[b] <= x by {
            if b < best {
                assert(rest@[b] == before[b]);
            } else {
                assert(rest@[b] == before[b + 1]);
            }
        }
        assert forall|k: int| 0 <= k < all@.len() && parse_u32_spec(#[trigger] sviews(all@)[k]) is Some implies
            out@.push(x).contains(parse_u32_spec(sviews(all@)[k])->0) || rest@.contains(parse_u32_spec(sviews(all@)[k])->0) by {
            let v = parse_u32_spec(sviews(all@)[k])->0;
            if before.contains(v) && !out@.contains(v) {
                let q = choose|q: int| 0 <= q < before.len() && before[q] == v;
                if q == best {
                    assert(out@.push(x)[out@.len() as int] == v);
                } else if q < best {
                    assert(rest@[q] == v);
                } else {
                    assert(rest@[q - 1] == v);
                }
            }
            if out@.contains(v) {
                let q = choose|q: int| 0 <= q < out@.len() && out@[q] == v;
                assert(out@.push(x)[q] == v);
            }
        }
        assert forall|j2: int| 0 <= j2 < rest@.len() implies found.contains(#[trigger] rest@[j2]) by {
            if j2 < best {
                assert(rest@[j2] == before[j2]);
            } else {
                assert(rest@[j2] == before[j2 + 1]);
            }
        }
        assert(found.contains(x)) by {
            assert(before[best as int] == x);
        }
        let ghost out0 = out@;
        out.push(x);
        assert forall|j2: int| 0 <= j2 < out@.len() implies found.contains(#[trigger] out@[j2]) by {
            if j2 < out0.len() {
                assert(out@[j2] == out0[j2]);
            }
        }
    }
    assert forall|i: int| 0 <= i < out@.len() implies parsed_from(sviews(all@), #[trigger] out@[i]) by {
        let q = choose|q: int| 0 <= q < found.len() && found[q] == out@[i];
        assert(found.contains(out@[i]));
    }
    assert forall|k: int| 0 <= k < all@.len() && parse_u32_spec(#[trigger] sviews(all@)[k]) is Some implies {
        let v = parse_u32_spec(sviews(all@)[k])->0;
        out@.contains(v) || (out@.len() == 15 && forall|a: int| 0 <= a < out@.len() ==> v <= #[trigger] out@[a])
    } by {
        let v = parse_u32_spec(sviews(all@)[k])->0;
        if !out@.contains(v) {
            assert(rest@.contains(v));
            let q = choose|q: int| 0 <= q < rest@.len() && rest@[q] == v;
            assert forall|a: int| 0 <= a < out@.len() implies v <= #[trigger] out@[a] by {
                assert(rest@[q] <= out@[a]);
            }
        }
    }
    out
}

/// What chrono makes of a Unix time in milliseconds, as whole seconds: `None` where the
/// instant lies outside the dates it can represent.
pub uninterp spec fn millis_seconds(millis: i64) -> Option<i64>;

/// `chrono::DateTime::from_timestamp_millis`, read back with `timestamp()`. The result is
/// named by `millis_seconds`; where there is one, it is the milliseconds divided by 1000
/// rounding down, as chrono's `div_euclid` does. The bounds of chrono's date range are
/// not stated.
#[verifier::external_body]
fn seconds_from_millis(millis: i64) -> (r: Option<i64>)
    ensures
        r == millis_seconds(millis),
        r matches Some(s) ==> s == millis / 1000,
{
    match chrono::DateTime::from_timestamp_millis(millis) {
        Some(d) => Some(d.timestamp()),
        None => None,
    }
}

/// A Purpur build as build information, unless it failed: the build number Purpur gives
/// (or the id asked for), `purpur-<mc>-<id>.jar`, its download URL and md5.
pub fn purpur_build(mc: &McVersion, id: u32, build: &str, md5: Option<String>, timestamp_ms: Option<i64>, result: &Option<String>) -> (r: Option<BuildInfo>)
    ensures
        match r {
            Some(b) => opt_view(*result) != Some("FAILURE"@)
                && b.mc@ == mc@
                && b.build == (match parse_u32_spec(build@) { Some(n) => n, None => id })
                && b.file_name@ == "purpur-"@ + display_spec(mc@) + "-"@ + decimal(id as nat) + ".jar"@
                && b.url@ == "https://api.purpurmc.org/v2/purpur/"@ + display_spec(mc@) + "/"@ + decimal(id as nat) + "/download"@
                && b.sha256 is None
                && opt_view(b.md5) == opt_view(md5)
                && b.java_min is None
                && b.channel@ == "default"@
                && b.time == (match timestamp_ms { Some(t) => millis_seconds(t), None => None }),
            None => opt_view(*result) == Some("FAILURE"@),
        },
{
    proof {
        reveal_strlit("FAILURE");
        reveal_strlit("purpur-");
        reveal_strlit("-");
        reveal_strlit(".jar");
        reveal_strlit("https://api.purpurmc.org/v2/purpur/");
        reveal_strlit("/");
        reveal_strlit("/download");
        reveal_strlit("default");
    }
    if let Some(res) = result {
        if crate::lockfile::str_eq(res.as_str(), "FAILURE") {
            return None;
        }
    }
    let mcs = mc.to_string();
    let mut file: Vec<char> = Vec::new();
    push_str(&mut file, "purpur-");
    push_str(&mut file, mcs.as_str());
    push_str(&mut file, "-");
    push_decimal(&mut file, id);
    push_str(&mut file, ".jar");
    let mut url: Vec<char> = Vec::new();
    push_str(&mut url, "https://api.purpurmc.org/v2/purpur/");
    push_str(&mut url, mcs.as_str());
    push_str(&mut url, "/");
    push_decimal(&mut url, id);
    push_str(&mut url, "/download");
    let number = match parse_u32(to_chars(build).as_slice()) {
        Some(n) => n,
        None => id,
    };
    let time = match timestamp_ms {
        Some(t) => seconds_from_millis(t),
        None => None,
    };
    Some(BuildInfo {
        mc: mc.copy(),
        build: number,
        file_name: string_from_chars(file.as_slice()),
        url: string_from_chars(url.as_slice()),
        sha256: None,
        md5,
        java_min: None,
        channel: String::from_str("default"),
        time,
    })
}

/// What checking a downloaded server jar finds.
pub enum JarCheck {
    Pass,
    /// This error.
    Fail(Seq<char>),
    /// The bytes are no zip archive (the archive reader's error says why).
    Unreadable,
}

/// A downloaded server jar is checked in this order: its sha256 (ignoring ASCII case) and
/// its md5 (exactly) against what the build API published, both computed from the bytes;
/// then that it opens as an archive; then that it reports the build's Minecraft version.
pub open spec fn build_download_check(b: BuildInfo, jar: Seq<u8>) -> JarCheck {
    let sha256 = hex_lower(sha256_of(jar));
    let reported = crate::server::detect::version_info(jar).0;
    if b.sha256 matches Some(w) && lower(w@) != lower(sha256) {
        JarCheck::Fail("server jar checksum mismatch"@)
    } else if b.md5 matches Some(w) && w@ != hex_lower(md5_of(jar)) {
        JarCheck::Fail("server jar md5 mismatch"@)
    } else if zip_entry_names(jar) is None {
        JarCheck::Unreadable
    } else if reported != Some(b.mc@) {
        JarCheck::Fail("downloaded jar reports "@ + match reported {
            Some(v) => display_spec(v),
            None => "no Minecraft version"@,
        } + ", expected "@ + display_spec(b.mc@))
    } else {
        JarCheck::Pass
    }
}

/// Checks a downloaded server jar; `None` when it passes.
pub fn check_build_download(b: &BuildInfo, jar: &[u8]) -> (r: Option<String>)
    ensures
        match build_download_check(*b, jar@) {
            JarCheck::Pass => r is None,
            JarCheck::Fail(m) => r matches Some(e) && e@ == m,
            JarCheck::Unreadable => r is Some,
        },
{
    proof {
        reveal_strlit("server jar checksum mismatch");
        reveal_strlit("server jar md5 mismatch");
        reveal_strlit("downloaded jar reports ");
        reveal_strlit("no Minecraft version");
        reveal_strlit(", expected ");
    }
    if let Some(w) = &b.sha256 {
        let sha256 = crate::digest::sha256_hex(jar);
        if !eq_ignore_case(to_chars(w.as_str()).as_slice(), to_chars(sha256.as_str()).as_slice()) {
            return Some(String::from_str("server jar checksum mismatch"));
        }
    }
    if let Some(want) = &b.md5 {
        let md5 = crate::digest::md5_hex(jar);
        if !crate::text::str_eq_string(&md5, want) {
            return Some(String::from_str("server jar md5 mismatch"));
        }
    }
    let info = match crate::server::detect::inspect_server_jar(b.file_name.as_str(), jar) {
        Ok(i) => i,
        Err(e) => return Some(e),
    };
    let reported = &info.mc_version;
    let same_mc = match reported {
        Some(v) => v.same_version(&b.mc),
        None => false,
    };
    if same_mc {
        return None;
    }
    let mut out: Vec<char> = Vec::new();
    push_str(&mut out, "downloaded jar reports ");
    match reported {
        Some(v) => {
            let t = v.to_string();
            push_str(&mut out, t.as_str());
        },
        None => push_str(&mut out, "no Minecraft version"),
    }
    push_str(&mut out, ", expected ");
    let e = b.mc.to_string();
    push_str(&mut out, e.as_str());
    Some(string_from_chars(out.as_slice()))
}

/// The sort key of a build number: higher builds first.
pub open spec fn build_key(build: u32) -> Seq<u64> {
    seq![(u32::MAX - build) as u64]
}

pub open spec fn keyed_by_build(ks: Seq<(Vec<u64>, BuildInfo)>, bs: Seq<BuildInfo>) -> bool {
    &&& ks.len() == bs.len()
    &&& forall|i: int| 0 <= i < ks.len() ==> (#[trigger] ks[i]).1 == bs[i] && ks[i].0@ == build_key(bs[i].build)
}

/// `r` is `bs` stably sorted by build number, highest first.
pub open spec fn builds_newest_first(r: Seq<BuildInfo>, bs: Seq<BuildInfo>) -> bool {
    exists|ks: Seq<(Vec<u64>, BuildInfo)>| #[trigger] keyed_by_build(ks, bs)
        && r == crate::util::sort::isort(ks).map_values(|p: (Vec<u64>, BuildInfo)| p.1)
}

/// Builds, highest build number first; equal numbers keep their order.
pub fn sort_builds(bs: Vec<BuildInfo>) -> (r: Vec<BuildInfo>)
    ensures
        builds_newest_first(r@, bs@),
        r@.len() == bs@.len(),
        forall|i: int, j: int| 0 <= i < j < r@.len() ==> #[trigger] r@[j].build <= #[trigger] r@[i].build,
{
    let ghost s = bs@;
    let n = bs.len();
    let mut keyed: Vec<(Vec<u64>, BuildInfo)> = Vec::new();
    let mut rest = bs;
    let mut i: usize = 0;
    while rest.len() > 0
        invariant
            i + rest@.len() == n,
            n == s.len(),
            rest@ == s.skip(i as int),
            keyed_by_build(keyed@, s.take(i as int)),
        decreases rest@.len(),
    {
        let b = rest.remove(0);
        assert(s.skip(i as int)[0] == b);
        let mut k: Vec<u64> = Vec::new();
        k.push((u32::MAX - b.build) as u64);
        assert(k@ =~= build_key(b.build));
        keyed.push((k, b));
        assert(s.skip(i as int).drop_first() =~= s.skip(i + 1));
        i = i + 1;
        assert(keyed_by_build(keyed@, s.take(i as int)));
    }
    assert(s.take(n as int) =~= s);
    let ghost ks = keyed@;
    let sorted = crate::util::sort::sort_by_key(keyed);
    let out = unkey(sorted);
    assert(keyed_by_build(ks, s));
    proof {
        crate::util::sort::lemma_isort(ks);
        let ss = crate::util::sort::isort(ks);
        assert forall|i: int, j: int| 0 <= i < j < out@.len() implies #[trigger] out@[j].build <= #[trigger] out@[i].build by {
            lemma_keyed_build(ks, s, ss[i]);
            lemma_keyed_build(ks, s, ss[j]);
            assert(crate::util::sort::key_le(ss[i].0@, ss[j].0@));
        }
    }
    out
}

proof fn lemma_keyed_build(ks: Seq<(Vec<u64>, BuildInfo)>, bs: Seq<BuildInfo>, x: (Vec<u64>, BuildInfo))
    requires
        keyed_by_build(ks, bs),
        crate::util::sort::isort(ks).contains(x),
    ensures
        x.0@ == build_key(x.1.build),
{
    broadcast use vstd::seq_lib::group_to_multiset_ensures;
    crate::util::sort::lemma_isort(ks);
    assert(crate::util::sort::isort(ks).to_multiset().count(x) > 0);
    assert(ks.contains(x));
    let k = choose|k: int| 0 <= k < ks.len() && ks[k] == x;
    assert(ks[k] == x);
}

/// The items of key-item pairs, in order.
fn unkey<T>(v: Vec<(Vec<u64>, T)>) -> (r: Vec<T>)
    ensures
        r@ == v@.map_values(|p: (Vec<u64>, T)| p.1),
{
    let ghost s = v@;
    let n = v.len();
    let mut out: Vec<T> = Vec::new();
    let mut rest = v;
    let mut j: usize = 0;
    while rest.len() > 0
        invariant
            j + rest@.len() == n,
            n == s.len(),
            rest@ == s.skip(j as int),
            out@ == s.take(j as int).map_values(|p: (Vec<u64>, T)| p.1),
        decreases rest@.len(),
    {
        let p = rest.remove(0);
        assert(s.skip(j as int)[0] == p);
        out.push(p.1);
        assert(s.skip(j as int).drop_first() =~= s.skip(j + 1));
        j = j + 1;
        assert(out@ =~= s.take(j as int).map_values(|p: (Vec<u64>, T)| p.1));
    }
    assert(s.take(n as int) =~= s);
    out
}

/// The sort key of a Minecraft version: newer versions first, and at equal numbers the
/// release before its pre-releases.
pub open spec fn version_key(v: VersionV) -> Seq<u64> {
    let patch: u32 = match v.patch {
        Some(p) => p,
        None => 0,
    };
    seq![(u32::MAX - v.major) as u64, (u32::MAX - v.minor) as u64, (u32::MAX - patch) as u64, if v.pre is Some { 1u64 } else { 0u64 }]
}

/// The versions that a list of names reads as, in order; pre-releases left out when only
/// releases are wanted.
pub open spec fn listed_versions(names: Seq<Seq<char>>, releases_only: bool) -> Seq<VersionV>
    decreases names.len(),
{
    if names.len() == 0 {
        Seq::empty()
    } else {
        let r = listed_versions(names.drop_last(), releases_only);
        match crate::util::version::parse_spec(names.last()) {
            Some(v) => if releases_only && v.pre is Some { r } else { r.push(v) },
            None => r,
        }
    }
}

pub open spec fn keyed_by_version(ks: Seq<(Vec<u64>, McVersion)>, vs: Seq<VersionV>) -> bool {
    &&& ks.len() == vs.len()
    &&& forall|i: int| 0 <= i < ks.len() ==> (#[trigger] ks[i]).1@ == vs[i] && ks[i].0@ == version_key(vs[i])
}

/// `r` is `vs` stably sorted newest first.
pub open spec fn versions_newest_first(r: Seq<VersionV>, vs: Seq<VersionV>) -> bool {
    exists|ks: Seq<(Vec<u64>, McVersion)>| #[trigger] keyed_by_version(ks, vs)
        && r == crate::util::sort::isort(ks).map_values(|p: (Vec<u64>, McVersion)| p.1@)
}

pub open spec fn version_views(vs: Seq<McVersion>) -> Seq<VersionV> {
    vs.map_values(|v: McVersion| v@)
}

/// The Minecraft versions a build API lists, newest first: the names that read as
/// versions, and only releases where the API lists pre-releases too (Paper).
pub fn newest_versions(names: &Vec<String>, releases_only: bool) -> (r: Vec<McVersion>)
    ensures
        versions_newest_first(version_views(r@), listed_versions(sviews(names@), releases_only)),
        r@.len() == listed_versions(sviews(names@), releases_only).len(),
        forall|i: int, j: int| 0 <= i < j < r@.len() ==> !older(#[trigger] r@[i]@, #[trigger] r@[j]@),
{
    let ghost ns = sviews(names@);
    let mut keyed: Vec<(Vec<u64>, McVersion)> = Vec::new();
    let mut i: usize = 0;
    assert(ns.take(0) =~= Seq::<Seq<char>>::empty());
    while i < names.len()
        invariant
            i <= names@.len(),
            ns == sviews(names@),
            keyed_by_version(keyed@, listed_versions(ns.take(i as int), releases_only)),
        decreases names@.len() - i,
    {
        assert(ns.take(i + 1).drop_last() =~= ns.take(i as int));
        assert(ns.take(i + 1).last() == names@[i as int]@);
        let ghost before = keyed@;
        match McVersion::parse(names[i].as_str()) {
            Some(v) => {
                if !(releases_only && v.pre.is_some()) {
                    let patch: u32 = match v.patch {
                        Some(p) => p,
                        None => 0,
                    };
                    let mut k: Vec<u64> = Vec::new();
                    k.push((u32::MAX - v.major) as u64);
                    k.push((u32::MAX - v.minor) as u64);
                    k.push((u32::MAX - patch) as u64);
                    k.push(if v.pre.is_some() { 1 } else { 0 });
                    assert(k@ =~= version_key(v@));
                    keyed.push((k, v));
                    assert(keyed@.drop_last() == before);
                }
            },
            None => {},
        }
        i = i + 1;
        assert(keyed_by_version(keyed@, listed_versions(ns.take(i as int), releases_only)));
    }
    assert(ns.take(names@.len() as int) =~= ns);
    let ghost ks = keyed@;
    let sorted = crate::util::sort::sort_by_key(keyed);
    let out = unkey(sorted);
    proof {
        assert(version_views(out@) =~= crate::util::sort::isort(ks).map_values(|p: (Vec<u64>, McVersion)| p.1@));
        assert(keyed_by_version(ks, listed_versions(ns, releases_only)));
        crate::util::sort::lemma_isort(ks);
        let ss = crate::util::sort::isort(ks);
        assert forall|i: int, j: int| 0 <= i < j < out@.len() implies !older(#[trigger] out@[i]@, #[trigger] out@[j]@) by {
            lemma_keyed_version(ks, listed_versions(ns, releases_only), ss[i]);
            lemma_keyed_version(ks, listed_versions(ns, releases_only), ss[j]);
            assert(crate::util::sort::key_le(ss[i].0@, ss[j].0@));
            lemma_version_key_order(ss[i].1@, ss[j].1@);
        }
    }
    out
}

proof fn lemma_keyed_version(ks: Seq<(Vec<u64>, McVersion)>, vs: Seq<VersionV>, x: (Vec<u64>, McVersion))
    requires
        keyed_by_version(ks, vs),
        crate::util::sort::isort(ks).contains(x),
    ensures
        x.0@ == version_key(x.1@),
{
    broadcast use vstd::seq_lib::group_to_multiset_ensures;
    crate::util::sort::lemma_isort(ks);
    assert(crate::util::sort::isort(ks).to_multiset().count(x) > 0);
    assert(ks.contains(x));
    let k = choose|k: int| 0 <= k < ks.len() && ks[k] == x;
    assert(ks[k] == x);
}

/// An older version has the greater key, so it sorts after.
proof fn lemma_version_key_order(a: VersionV, b: VersionV)
    ensures
        older(a, b) ==> crate::util::sort::key_lt(version_key(b), version_key(a)),
{
    let ka = version_key(a);
    let kb = version_key(b);
    assert(ka.drop_first() =~= seq![ka[1], ka[2], ka[3]]);
    assert(kb.drop_first() =~= seq![kb[1], kb[2], kb[3]]);
    assert(ka.drop_first().drop_first() =~= seq![ka[2], ka[3]]);
    assert(kb.drop_first().drop_first() =~= seq![kb[2], kb[3]]);
    assert(ka.drop_first().drop_first().drop_first() =~= seq![ka[3]]);
    assert(kb.drop_first().drop_first().drop_first() =~= seq![kb[3]]);
    reveal_with_fuel(crate::util::sort::key_lt, 5);
}

/// The start command after an upgrade: unchanged when it already runs the new jar (or
/// there is none), else with the new jar in place of the old.
pub open spec fn new_start_command(cmd: Option<Seq<char>>, file: Seq<char>) -> Option<Seq<char>> {
    match cmd {
        Some(c) => if jar_spec(shell_words(c)) == Some(file) {
            None
        } else {
            Some(join_space(quote_all(replace_jar(shell_words(c), file))))
        },
        None => None,
    }
}

pub fn start_command_for(cmd: &Option<String>, file: &str) -> (r: Option<String>)
    ensures
        opt_view(r) == new_start_command(opt_view(*cmd), file@),
{
    match cmd {
        Some(c) => {
            let sc = StartCommand::parse(c.as_str());
            let same = match sc.jar() {
                Some(j) => crate::lockfile::str_eq(j, file),
                None => false,
            };
            if same {
                None
            } else {
                Some(sc.with_jar(file))
            }
        },
        None => None,
    }
}

} // verus!
