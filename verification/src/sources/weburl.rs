//! Pasted project URLs: what the `url` crate reads from them, and which source's project
//! page each one is.

use vstd::prelude::*;
use crate::sources::model::{ProjectLocator, SourceKind};
use crate::text::{
    chars_are, concat3, ends_with, has_sub, is_suffix, lower, lower_chars, opt_view, split_chars, split_on,
    string_from_chars, contains, to_chars, views,
};

verus! {

/// Whether `url::Url::parse` accepts the text as an absolute URL.
pub uninterp spec fn url_parses(text: Seq<char>) -> bool;

/// `Url::host_str` of the parsed URL.
pub uninterp spec fn url_host(text: Seq<char>) -> Option<Seq<char>>;

/// `Url::path` of the parsed URL (percent-encoded).
pub uninterp spec fn url_path(text: Seq<char>) -> Seq<char>;

/// The parts of a parsed URL that source recognition reads.
#[derive(Debug, Clone)]
pub struct WebUrl {
    pub host: Option<String>,
    pub path: String,
}

/// `url::Url::parse`, then `host_str` and `path` of the result.
#[verifier::external_body]
fn parse_web_url(text: &str) -> (r: Option<WebUrl>)
    ensures
        r is Some <==> url_parses(text@),
        r matches Some(u) ==> opt_view(u.host) == url_host(text@) && u.path@ == url_path(text@),
{
    match url::Url::parse(text) {
        Ok(u) => {
            let host = match u.host_str() {
                Some(h) => Some(h.to_string()),
                None => None,
            };
            Some(WebUrl { host, path: u.path().to_string() })
        },
        Err(_) => None,
    }
}

/// `Url::path_segments`: the path after its leading `/`, split at every `/`; none for a
/// path without that slash.
pub open spec fn segments_of(path: Seq<char>) -> Option<Seq<Seq<char>>> {
    if path.len() > 0 && path[0] == '/' {
        Some(split_on(path.drop_first(), seq!['/']))
    } else {
        None
    }
}

/// The segments that are not empty, in order.
pub open spec fn nonempty(segs: Seq<Seq<char>>) -> Seq<Seq<char>>
    decreases segs.len(),
{
    if segs.len() == 0 {
        Seq::empty()
    } else {
        let r = nonempty(segs.drop_last());
        if segs.last().len() > 0 { r.push(segs.last()) } else { r }
    }
}

/// `str::trim_end_matches` with a string: every trailing copy of `p` removed.
pub open spec fn strip_suffix_all(s: Seq<char>, p: Seq<char>) -> Seq<char>
    decreases s.len(),
{
    if p.len() > 0 && p.len() <= s.len() && is_suffix(p, s) {
        strip_suffix_all(s.take(s.len() - p.len()), p)
    } else {
        s
    }
}

/// A Modrinth project page: `modrinth.com/{plugin,mod,project,datapack}/<id>`.
pub open spec fn modrinth_id(host: Option<Seq<char>>, path: Seq<char>) -> Option<Seq<char>> {
    if host == Some("modrinth.com"@) {
        match segments_of(path) {
            Some(segs) => if segs.len() >= 2 && (segs[0] == "plugin"@ || segs[0] == "mod"@ || segs[0] == "project"@ || segs[0] == "datapack"@) {
                Some(segs[1])
            } else {
                None
            },
            None => None,
        }
    } else {
        None
    }
}

/// A Hangar project page: `hangar.papermc.io/<owner>/<slug>`, not one of the site's own
/// sections.
pub open spec fn hangar_id(host: Option<Seq<char>>, path: Seq<char>) -> Option<Seq<char>> {
    if host == Some("hangar.papermc.io"@) {
        match segments_of(path) {
            Some(all) => {
                let segs = nonempty(all);
                if segs.len() < 2 || segs[0] == "api"@ || segs[0] == "staff"@ || segs[0] == "tools"@ || segs[0] == "guidelines"@ {
                    None
                } else {
                    Some(segs[1])
                }
            },
            None => None,
        }
    } else {
        None
    }
}

/// A GitHub repository: `github.com/<owner>/<repo>[.git]`, as `owner/repo`.
pub open spec fn github_id(host: Option<Seq<char>>, path: Seq<char>) -> Option<Seq<char>> {
    if host == Some("github.com"@) {
        match segments_of(path) {
            Some(all) => {
                let segs = nonempty(all);
                if segs.len() < 2 {
                    None
                } else {
                    Some(segs[0] + "/"@ + strip_suffix_all(segs[1], ".git"@))
                }
            },
            None => None,
        }
    } else {
        None
    }
}

/// Any page on a `geysermc.org` host: Floodgate when the path names it, else Geyser.
pub open spec fn geyser_id(host: Option<Seq<char>>, path: Seq<char>) -> Option<Seq<char>> {
    match host {
        Some(h) => if is_suffix("geysermc.org"@, h) {
            if has_sub(lower(path), "floodgate"@) { Some("floodgate"@) } else { Some("geyser"@) }
        } else {
            None
        },
        None => None,
    }
}

/// What a source makes of a URL's host and path.
pub open spec fn source_id(k: SourceKind, host: Option<Seq<char>>, path: Seq<char>) -> Option<Seq<char>> {
    match k {
        SourceKind::Modrinth => modrinth_id(host, path),
        SourceKind::Hangar => hangar_id(host, path),
        SourceKind::GitHub => github_id(host, path),
        SourceKind::GeyserMc => geyser_id(host, path),
    }
}

/// The first source, in the given order, that recognises the URL.
pub open spec fn first_source(ks: Seq<SourceKind>, host: Option<Seq<char>>, path: Seq<char>) -> Option<(SourceKind, Seq<char>)>
    decreases ks.len(),
{
    if ks.len() == 0 {
        None
    } else {
        match source_id(ks[0], host, path) {
            Some(id) => Some((ks[0], id)),
            None => first_source(ks.drop_first(), host, path),
        }
    }
}

/// What the enabled sources make of a pasted URL.
pub open spec fn locate_url_spec(ks: Seq<SourceKind>, text: Seq<char>) -> Option<(SourceKind, Seq<char>)> {
    if url_parses(text) {
        first_source(ks, url_host(text), url_path(text))
    } else {
        None
    }
}

fn segments_exec(path: &[char]) -> (r: Option<Vec<Vec<char>>>)
    ensures
        match segments_of(path@) {
            Some(s) => r matches Some(v) && views(v@) == s,
            None => r is None,
        },
{
    if path.len() > 0 && path[0] == '/' {
        let rest = crate::text::skip_chars(path, 1);
        let seps = vec!['/'];
        assert(path@.drop_first() =~= path@.skip(1));
        assert(seps@ =~= seq!['/']);
        Some(split_chars(rest.as_slice(), seps.as_slice()))
    } else {
        None
    }
}

fn nonempty_exec(segs: &Vec<Vec<char>>) -> (r: Vec<Vec<char>>)
    ensures
        views(r@) == nonempty(views(segs@)),
{
    let ghost sv = views(segs@);
    let mut out: Vec<Vec<char>> = Vec::new();
    let mut i: usize = 0;
    assert(sv.take(0) =~= Seq::<Seq<char>>::empty());
    while i < segs.len()
        invariant
            i <= segs@.len(),
            sv == views(segs@),
            views(out@) == nonempty(sv.take(i as int)),
        decreases segs@.len() - i,
    {
        assert(sv.take(i + 1).drop_last() =~= sv.take(i as int));
        assert(sv.take(i + 1).last() == segs@[i as int]@);
        if segs[i].len() > 0 {
            out.push(vstd::slice::slice_to_vec(segs[i].as_slice()));
        }
        i = i + 1;
        assert(views(out@) =~= nonempty(sv.take(i as int)));
    }
    assert(sv.take(segs@.len() as int) =~= sv);
    out
}

fn strip_suffix_all_exec(s: &[char], p: &[char]) -> (r: Vec<char>)
    ensures
        r@ == strip_suffix_all(s@, p@),
{
    let mut cur = vstd::slice::slice_to_vec(s);
    while p.len() > 0 && p.len() <= cur.len() && ends_with(cur.as_slice(), p)
        invariant
            strip_suffix_all(cur@, p@) == strip_suffix_all(s@, p@),
        decreases cur@.len(),
    {
        let keep = cur.len() - p.len();
        cur = crate::text::take_chars(cur.as_slice(), keep);
    }
    cur
}

fn host_is(host: &Option<String>, lit: &str) -> (r: bool)
    ensures
        r == (opt_view(*host) == Some(lit@)),
{
    match host {
        Some(h) => crate::lockfile::str_eq(h.as_str(), lit),
        None => false,
    }
}

fn seg_is(s: &Vec<char>, lit: &str) -> (r: bool)
    ensures
        r == (s@ == lit@),
{
    chars_are(s.as_slice(), lit)
}

fn modrinth_exec(host: &Option<String>, path: &[char]) -> (r: Option<String>)
    ensures
        opt_view(r) == modrinth_id(opt_view(*host), path@),
{
    if !host_is(host, "modrinth.com") {
        return None;
    }
    match segments_exec(path) {
        Some(segs) => {
            if segs.len() >= 2 && (seg_is(&segs[0], "plugin") || seg_is(&segs[0], "mod") || seg_is(&segs[0], "project") || seg_is(&segs[0], "datapack")) {
                assert(views(segs@)[1] == segs@[1]@);
                Some(string_from_chars(segs[1].as_slice()))
            } else {
                None
            }
        },
        None => None,
    }
}

fn hangar_exec(host: &Option<String>, path: &[char]) -> (r: Option<String>)
    ensures
        opt_view(r) == hangar_id(opt_view(*host), path@),
{
    if !host_is(host, "hangar.papermc.io") {
        return None;
    }
    match segments_exec(path) {
        Some(all) => {
            let segs = nonempty_exec(&all);
            if segs.len() < 2 || seg_is(&segs[0], "api") || seg_is(&segs[0], "staff") || seg_is(&segs[0], "tools") || seg_is(&segs[0], "guidelines") {
                None
            } else {
                assert(views(segs@)[1] == segs@[1]@);
                Some(string_from_chars(segs[1].as_slice()))
            }
        },
        None => None,
    }
}

fn github_exec(host: &Option<String>, path: &[char]) -> (r: Option<String>)
    ensures
        opt_view(r) == github_id(opt_view(*host), path@),
{
    if !host_is(host, "github.com") {
        return None;
    }
    match segments_exec(path) {
        Some(all) => {
            let segs = nonempty_exec(&all);
            if segs.len() < 2 {
                None
            } else {
                let dotgit = to_chars(".git");
                let repo = strip_suffix_all_exec(segs[1].as_slice(), dotgit.as_slice());
                let owner = string_from_chars(segs[0].as_slice());
                let repo_s = string_from_chars(repo.as_slice());
                assert(views(segs@)[0] == segs@[0]@);
                assert(views(segs@)[1] == segs@[1]@);
                proof {
                    reveal_strlit("/");
                }
                Some(concat3(owner.as_str(), "/", repo_s.as_str()))
            }
        },
        None => None,
    }
}

fn geyser_exec(host: &Option<String>, path: &[char]) -> (r: Option<String>)
    ensures
        opt_view(r) == geyser_id(opt_view(*host), path@),
{
    match host {
        Some(h) => {
            let hc = to_chars(h.as_str());
            let suffix = to_chars("geysermc.org");
            if ends_with(hc.as_slice(), suffix.as_slice()) {
                let lp = lower_chars(path);
                let fg = to_chars("floodgate");
                if contains(lp.as_slice(), fg.as_slice()) {
                    Some(String::from_str("floodgate"))
                } else {
                    Some(String::from_str("geyser"))
                }
            } else {
                None
            }
        },
        None => None,
    }
}

/// What one source makes of a parsed URL.
pub fn source_locator(kind: SourceKind, u: &WebUrl) -> (r: Option<ProjectLocator>)
    ensures
        match source_id(kind, opt_view(u.host), u.path@) {
            Some(id) => r matches Some(l) && l.source == kind && l.id@ == id,
            None => r is None,
        },
{
    let path = to_chars(u.path.as_str());
    let id = match kind {
        SourceKind::Modrinth => modrinth_exec(&u.host, path.as_slice()),
        SourceKind::Hangar => hangar_exec(&u.host, path.as_slice()),
        SourceKind::GitHub => github_exec(&u.host, path.as_slice()),
        SourceKind::GeyserMc => geyser_exec(&u.host, path.as_slice()),
    };
    match id {
        Some(id) => Some(ProjectLocator { source: kind, id }),
        None => None,
    }
}

/// A Modrinth project page's locator, as the Modrinth source reads a pasted URL.
pub fn modrinth_url(text: &str) -> (r: Option<ProjectLocator>)
    ensures
        match if url_parses(text@) { modrinth_id(url_host(text@), url_path(text@)) } else { None } {
            Some(id) => r matches Some(l) && l.source == SourceKind::Modrinth && l.id@ == id,
            None => r is None,
        },
{
    match parse_web_url(text) {
        Some(u) => source_locator(SourceKind::Modrinth, &u),
        None => None,
    }
}

/// The project a pasted URL points at: the first of the enabled sources, in priority
/// order, that recognises it.
pub fn locate_url(enabled: &[SourceKind], text: &str) -> (r: Option<ProjectLocator>)
    ensures
        match locate_url_spec(enabled@, text@) {
            Some((k, id)) => r matches Some(l) && l.source == k && l.id@ == id,
            None => r is None,
        },
{
    let u = match parse_web_url(text) {
        Some(u) => u,
        None => return None,
    };
    let mut i: usize = 0;
    assert(enabled@.skip(0) =~= enabled@);
    while i < enabled.len()
        invariant
            i <= enabled@.len(),
            url_parses(text@),
            opt_view(u.host) == url_host(text@),
            u.path@ == url_path(text@),
            first_source(enabled@, url_host(text@), url_path(text@)) == first_source(enabled@.skip(i as int), url_host(text@), url_path(text@)),
        decreases enabled@.len() - i,
    {
        assert(enabled@.skip(i as int)[0] == enabled@[i as int]);
        if let Some(l) = source_locator(enabled[i], &u) {
            return Some(l);
        }
        assert(enabled@.skip(i as int).drop_first() =~= enabled@.skip(i + 1));
        i = i + 1;
    }
    assert(enabled@.skip(i as int) =~= Seq::<SourceKind>::empty());
    None
}

} // verus!
