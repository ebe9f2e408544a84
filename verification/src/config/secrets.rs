//! `secrets.toml`: tokens and passwords, never merged into the lockfile or journal.

use vstd::prelude::*;
use crate::text::{
    chars_are, clone_string, find_char, find_char_exec, lines, lines_of, opt_view, skip_chars, string_from_chars,
    strip_char, take_chars, to_chars, trim, trim_chars, trim_matches_char, views,
};

verus! {

#[derive(Debug, Clone)]
pub struct Secrets {
    pub modrinth_token: Option<String>,
    pub mcsm_api_key: Option<String>,
    pub github_token: Option<String>,
    /// RCON passwords by the name a server's config refers to them with.
    pub rcon: Vec<(String, String)>,
}

impl Default for Secrets {
    fn default() -> (r: Secrets)
        ensures
            r.modrinth_token is None,
            r.mcsm_api_key is None,
            r.github_token is None,
            r.rcon@.len() == 0,
    {
        Secrets { modrinth_token: None, mcsm_api_key: None, github_token: None, rcon: Vec::new() }
    }
}

/// The value a `KEY=VALUE` line gives `MCSM_APIKEY`: the text after the first `=`, trimmed
/// and stripped of quotes, when the key (trimmed) is `MCSM_APIKEY` and the trimmed value
/// is not empty.
pub open spec fn env_line_value(l: Seq<char>) -> Option<Seq<char>> {
    match find_char(l, '=') {
        Some(i) => if trim(l.take(i)) == "MCSM_APIKEY"@ && trim(l.skip(i + 1)).len() > 0 {
            Some(strip_char(trim(l.skip(i + 1)), '"'))
        } else {
            None
        },
        None => None,
    }
}

/// The first line that gives a value.
pub open spec fn first_env_value(ls: Seq<Seq<char>>) -> Option<Seq<char>>
    decreases ls.len(),
{
    if ls.len() == 0 {
        None
    } else {
        match env_line_value(ls[0]) {
            Some(v) => Some(v),
            None => first_env_value(ls.drop_first()),
        }
    }
}

/// The key itself when it is set and not empty, else the env file's value.
pub open spec fn env_fallback(key: Option<Seq<char>>, env_text: Option<Seq<char>>) -> Option<Seq<char>> {
    match key {
        Some(k) if k.len() > 0 => Some(k),
        _ => match env_text {
            Some(t) => first_env_value(lines_of(t)),
            None => None,
        },
    }
}

/// The first password stored under `name`.
pub open spec fn rcon_lookup(rcon: Seq<(String, String)>, name: Seq<char>) -> Option<Seq<char>>
    decreases rcon.len(),
{
    if rcon.len() == 0 {
        None
    } else if rcon[0].0@ == name {
        Some(rcon[0].1@)
    } else {
        rcon_lookup(rcon.drop_first(), name)
    }
}

fn env_line_exec(l: &[char]) -> (r: Option<String>)
    ensures
        opt_view(r) == env_line_value(l@),
{
    let len = l.len();
    match find_char_exec(l, '=') {
        Some(i) => {
            let k = take_chars(l, i);
            let kt = trim_chars(k.as_slice());
            let v = skip_chars(l, i + 1);
            let vt = trim_chars(v.as_slice());
            proof {
                reveal_strlit("MCSM_APIKEY");
            }
            if chars_are(kt.as_slice(), "MCSM_APIKEY") && vt.len() > 0 {
                let q = trim_matches_char(vt.as_slice(), '"');
                Some(string_from_chars(q.as_slice()))
            } else {
                None
            }
        },
        None => None,
    }
}

impl Secrets {
    /// The MCSManager key, falling back to a `KEY=VALUE` env file's text (mcbackup keeps
    /// its key in such a file, so one key can serve both tools).
    pub fn mcsm_key_with_fallback(&self, env_file_text: Option<&str>) -> (r: Option<String>)
        ensures
            opt_view(r) == env_fallback(opt_view(self.mcsm_api_key), match env_file_text {
                Some(t) => Some(t@),
                None => None,
            }),
    {
        if let Some(k) = &self.mcsm_api_key {
            if k.unicode_len() > 0 {
                return Some(clone_string(k));
            }
        }
        let text = match env_file_text {
            Some(t) => t,
            None => return None,
        };
        let cs = to_chars(text);
        let ls = lines(cs.as_slice());
        let ghost lv = views(ls@);
        let mut i: usize = 0;
        assert(lv.skip(0) =~= lv);
        while i < ls.len()
            invariant
                i <= ls@.len(),
                lv == views(ls@),
                lv == lines_of(text@),
                env_fallback(opt_view(self.mcsm_api_key), match env_file_text {
                    Some(t) => Some(t@),
                    None => None,
                }) == first_env_value(lv),
                first_env_value(lv) == first_env_value(lv.skip(i as int)),
            decreases ls@.len() - i,
        {
            assert(lv.skip(i as int)[0] == ls@[i as int]@);
            let v = env_line_exec(ls[i].as_slice());
            if v.is_some() {
                assert(lv.skip(i as int).len() > 0);
                assert(first_env_value(lv.skip(i as int)) == opt_view(v));
                return v;
            }
            assert(lv.skip(i as int).drop_first() =~= lv.skip(i + 1));
            i = i + 1;
        }
        assert(lv.skip(i as int) =~= Seq::<Seq<char>>::empty());
        None
    }

    /// The RCON password stored under `name`, or an empty one.
    pub fn rcon_password(&self, name: &str) -> (r: String)
        ensures
            r@ == match rcon_lookup(self.rcon@, name@) {
                Some(p) => p,
                None => Seq::<char>::empty(),
            },
    {
        let mut i: usize = 0;
        assert(self.rcon@.skip(0) =~= self.rcon@);
        while i < self.rcon.len()
            invariant
                i <= self.rcon@.len(),
                rcon_lookup(self.rcon@, name@) == rcon_lookup(self.rcon@.skip(i as int), name@),
            decreases self.rcon@.len() - i,
        {
            assert(self.rcon@.skip(i as int)[0] == self.rcon@[i as int]);
            if crate::lockfile::str_eq(self.rcon[i].0.as_str(), name) {
                return clone_string(&self.rcon[i].1);
            }
            assert(self.rcon@.skip(i as int).drop_first() =~= self.rcon@.skip(i + 1));
            i = i + 1;
        }
        assert(self.rcon@.skip(i as int) =~= Seq::<(String, String)>::empty());
        String::new()
    }
}

/// Which secret `auth set` names: `modrinth`, `github`, `mcsm` (or `mcsmanager`), or
/// `rcon/<name>`.
#[derive(Debug, Clone)]
pub enum SecretName {
    Modrinth,
    GitHub,
    Mcsm,
    Rcon(String),
    Unknown,
}

pub enum SecretNameV {
    Modrinth,
    GitHub,
    Mcsm,
    Rcon(Seq<char>),
    Unknown,
}

pub open spec fn secret_name_spec(what: Seq<char>) -> SecretNameV {
    if what == "modrinth"@ {
        SecretNameV::Modrinth
    } else if what == "github"@ {
        SecretNameV::GitHub
    } else if what == "mcsm"@ || what == "mcsmanager"@ {
        SecretNameV::Mcsm
    } else if crate::text::is_prefix("rcon/"@, what) {
        SecretNameV::Rcon(what.skip(5))
    } else {
        SecretNameV::Unknown
    }
}

pub fn secret_name(what: &str) -> (r: SecretName)
    ensures
        match secret_name_spec(what@) {
            SecretNameV::Modrinth => r is Modrinth,
            SecretNameV::GitHub => r is GitHub,
            SecretNameV::Mcsm => r is Mcsm,
            SecretNameV::Rcon(n) => r matches SecretName::Rcon(m) && m@ == n,
            SecretNameV::Unknown => r is Unknown,
        },
{
    proof {
        reveal_strlit("modrinth");
        reveal_strlit("github");
        reveal_strlit("mcsm");
        reveal_strlit("mcsmanager");
        reveal_strlit("rcon/");
    }
    if crate::lockfile::str_eq(what, "modrinth") {
        SecretName::Modrinth
    } else if crate::lockfile::str_eq(what, "github") {
        SecretName::GitHub
    } else if crate::lockfile::str_eq(what, "mcsm") || crate::lockfile::str_eq(what, "mcsmanager") {
        SecretName::Mcsm
    } else {
        let w = to_chars(what);
        let p = to_chars("rcon/");
        if crate::text::starts_with(w.as_slice(), p.as_slice()) {
            let rest = skip_chars(w.as_slice(), 5);
            SecretName::Rcon(string_from_chars(rest.as_slice()))
        } else {
            SecretName::Unknown
        }
    }
}

/// Looking up in a list with one more pair at its end finds the earlier pairs first.
pub proof fn lemma_lookup_push(s: Seq<(String, String)>, p: (String, String), n: Seq<char>)
    ensures
        rcon_lookup(s.push(p), n) == match rcon_lookup(s, n) {
            Some(x) => Some(x),
            None => if p.0@ == n { Some(p.1@) } else { None },
        },
    decreases s.len(),
{
    if s.len() > 0 {
        assert(s.push(p)[0] == s[0]);
        assert(s.push(p).drop_first() =~= s.drop_first().push(p));
        lemma_lookup_push(s.drop_first(), p, n);
    } else {
        assert(s.push(p).drop_first() =~= Seq::<(String, String)>::empty());
        assert(rcon_lookup(s.push(p).drop_first(), n) is None);
        assert(s.push(p)[0] == p);
    }
}

/// A non-empty value, else none: `auth set` with an empty value clears the secret.
pub open spec fn nonempty_value(v: Option<Seq<char>>) -> Option<Seq<char>> {
    match v {
        Some(t) => if t.len() > 0 { Some(t) } else { None },
        None => None,
    }
}

impl Secrets {
    /// `auth set <what> [value]`: stores the value (an empty or missing one clears the
    /// secret); an unknown name is refused and nothing changes.
    pub fn set(&mut self, what: &str, value: Option<&str>) -> (r: Result<(), String>)
        ensures
            match secret_name_spec(what@) {
                SecretNameV::Unknown => r matches Err(e)
                    && e@ == "unknown secret "@ + crate::cli::update::debug_quoted(what@) + ": use modrinth, github, mcsm or rcon/<server-id>"@
                    && *final(self) == *old(self),
                SecretNameV::Modrinth => r is Ok
                    && opt_view(final(self).modrinth_token) == nonempty_value(opt_str(value))
                    && final(self).github_token == old(self).github_token
                    && final(self).mcsm_api_key == old(self).mcsm_api_key
                    && final(self).rcon == old(self).rcon,
                SecretNameV::GitHub => r is Ok
                    && opt_view(final(self).github_token) == nonempty_value(opt_str(value))
                    && final(self).modrinth_token == old(self).modrinth_token
                    && final(self).mcsm_api_key == old(self).mcsm_api_key
                    && final(self).rcon == old(self).rcon,
                SecretNameV::Mcsm => r is Ok
                    && opt_view(final(self).mcsm_api_key) == nonempty_value(opt_str(value))
                    && final(self).modrinth_token == old(self).modrinth_token
                    && final(self).github_token == old(self).github_token
                    && final(self).rcon == old(self).rcon,
                SecretNameV::Rcon(name) => r is Ok
                    && (forall|n: Seq<char>| #[trigger] rcon_lookup(final(self).rcon@, n)
                        == if n == name { nonempty_value(opt_str(value)) } else { rcon_lookup(old(self).rcon@, n) })
                    && final(self).modrinth_token == old(self).modrinth_token
                    && final(self).github_token == old(self).github_token
                    && final(self).mcsm_api_key == old(self).mcsm_api_key,
            },
    {
        let v: Option<String> = match value {
            Some(t) => if to_chars(t).len() > 0 { Some(String::from_str(t)) } else { None },
            None => None,
        };
        match secret_name(what) {
            SecretName::Modrinth => {
                self.modrinth_token = v;
                Ok(())
            },
            SecretName::GitHub => {
                self.github_token = v;
                Ok(())
            },
            SecretName::Mcsm => {
                self.mcsm_api_key = v;
                Ok(())
            },
            SecretName::Rcon(name) => {
                let ghost old_rcon = self.rcon@;
                let mut kept: Vec<(String, String)> = Vec::new();
                let mut i: usize = 0;
                while i < self.rcon.len()
                    invariant
                        i <= old_rcon.len(),
                        self.rcon@ == old_rcon,
                        forall|n: Seq<char>| #[trigger] rcon_lookup(kept@, n)
                            == if n == name@ { None } else { rcon_lookup(old_rcon.take(i as int), n) },
                    decreases old_rcon.len() - i,
                {
                    let ghost k0 = kept@;
                    assert(old_rcon.take(i + 1) =~= old_rcon.take(i as int).push(old_rcon[i as int]));
                    if !crate::lockfile::str_eq(self.rcon[i].0.as_str(), name.as_str()) {
                        let pair = (clone_string(&self.rcon[i].0), clone_string(&self.rcon[i].1));
                        kept.push(pair);
                        assert forall|n: Seq<char>| #[trigger] rcon_lookup(kept@, n)
                            == if n == name@ { None } else { rcon_lookup(old_rcon.take(i + 1), n) } by {
                            lemma_lookup_push(k0, pair, n);
                            lemma_lookup_push(old_rcon.take(i as int), old_rcon[i as int], n);
                        }
                    } else {
                        assert forall|n: Seq<char>| #[trigger] rcon_lookup(kept@, n)
                            == if n == name@ { None } else { rcon_lookup(old_rcon.take(i + 1), n) } by {
                            lemma_lookup_push(old_rcon.take(i as int), old_rcon[i as int], n);
                        }
                    }
                    i = i + 1;
                }
                assert(old_rcon.take(old_rcon.len() as int) =~= old_rcon);
                let ghost k1 = kept@;
                match v {
                    Some(val) => {
                        let ghost vv = val@;
                        let ghost nn = name@;
                        let pair = (name, val);
                        kept.push(pair);
                        assert forall|n: Seq<char>| #[trigger] rcon_lookup(kept@, n)
                            == if n == nn { Some(vv) } else { rcon_lookup(old_rcon, n) } by {
                            lemma_lookup_push(k1, pair, n);
                        }
                    },
                    None => {},
                }
                self.rcon = kept;
                Ok(())
            },
            SecretName::Unknown => {
                let q = crate::cli::update::debug_str(what);
                Err(crate::text::concat3("unknown secret ", q.as_str(), ": use modrinth, github, mcsm or rcon/<server-id>"))
            },
        }
    }
}

pub open spec fn opt_str(v: Option<&str>) -> Option<Seq<char>> {
    match v {
        Some(t) => Some(t@),
        None => None,
    }
}

/// `set` for a secret that holds a non-empty value, else `-`.
pub open spec fn set_word(v: Option<Seq<char>>) -> Seq<char> {
    match v {
        Some(t) => if t.len() > 0 { "set"@ } else { "-"@ },
        None => "-"@,
    }
}

fn set_word_exec(v: &Option<String>) -> (r: &'static str)
    ensures
        r@ == set_word(opt_view(*v)),
{
    proof {
        reveal_strlit("set");
        reveal_strlit("-");
    }
    match v {
        Some(t) => if t.unicode_len() > 0 { "set" } else { "-" },
        None => "-",
    }
}

pub open spec fn rcon_names(rcon: Seq<(String, String)>) -> Seq<Seq<char>> {
    rcon.map_values(|p: (String, String)| p.0@)
}

impl Secrets {
    /// What `auth status` shows: the config directory, which tokens are set (the MCSManager
    /// key also when only mcbackup's env file gives one), and the RCON passwords by name,
    /// in name order.
    pub fn status_lines(&self, dir: &str, mcsm_effective: bool) -> (r: Vec<String>)
        ensures
            r@.len() == 4 + self.rcon@.len(),
            r@[0]@ == "config dir: "@ + dir@,
            r@[1]@ == "modrinth token: "@ + set_word(opt_view(self.modrinth_token)),
            r@[2]@ == "github token:   "@ + set_word(opt_view(self.github_token)),
            r@[3]@ == "mcsm api key:   "@ + (if mcsm_effective {
                if self.mcsm_api_key is Some { "set"@ } else { "set (from mcbackup env)"@ }
            } else {
                "-"@
            }),
            exists|names: Seq<Seq<char>>| #![trigger crate::util::sort::sorted_strs(names)]
                crate::util::sort::sorted_strs(names) && names.to_multiset() == rcon_names(self.rcon@).to_multiset()
                && forall|i: int| 0 <= i < names.len() ==> (#[trigger] r@[4 + i])@ == "rcon/"@ + names[i] + ":        set"@,
    {
        let mut out: Vec<String> = Vec::new();
        out.push(crate::text::concat2("config dir: ", dir));
        out.push(crate::text::concat2("modrinth token: ", set_word_exec(&self.modrinth_token)));
        out.push(crate::text::concat2("github token:   ", set_word_exec(&self.github_token)));
        let m = if mcsm_effective {
            if self.mcsm_api_key.is_some() { "set" } else { "set (from mcbackup env)" }
        } else {
            "-"
        };
        out.push(crate::text::concat2("mcsm api key:   ", m));
        let mut keys: Vec<String> = Vec::new();
        let mut i: usize = 0;
        while i < self.rcon.len()
            invariant
                i <= self.rcon@.len(),
                crate::text::sviews(keys@) == rcon_names(self.rcon@).take(i as int),
            decreases self.rcon@.len() - i,
        {
            let ghost k0 = crate::text::sviews(keys@);
            keys.push(clone_string(&self.rcon[i].0));
            assert(crate::text::sviews(keys@) =~= k0.push(self.rcon@[i as int].0@));
            assert(rcon_names(self.rcon@).take(i + 1) =~= rcon_names(self.rcon@).take(i as int).push(self.rcon@[i as int].0@));
            i = i + 1;
        }
        assert(rcon_names(self.rcon@).take(self.rcon@.len() as int) =~= rcon_names(self.rcon@));
        let sorted = crate::util::sort::sort_strings(keys);
        let ghost names = crate::text::sviews(sorted@);
        proof {
            names.to_multiset_ensures();
            rcon_names(self.rcon@).to_multiset_ensures();
        }
        let mut j: usize = 0;
        while j < sorted.len()
            invariant
                j <= sorted@.len(),
                names == crate::text::sviews(sorted@),
                names.len() == self.rcon@.len(),
                out@.len() == 4 + j,
                out@[0]@ == "config dir: "@ + dir@,
                out@[1]@ == "modrinth token: "@ + set_word(opt_view(self.modrinth_token)),
                out@[2]@ == "github token:   "@ + set_word(opt_view(self.github_token)),
                out@[3]@ == "mcsm api key:   "@ + m@,
                forall|q: int| 0 <= q < j ==> (#[trigger] out@[4 + q])@ == "rcon/"@ + names[q] + ":        set"@,
            decreases sorted@.len() - j,
        {
            out.push(crate::text::concat3("rcon/", sorted[j].as_str(), ":        set"));
            j = j + 1;
        }
        proof {
            reveal_strlit("set");
            reveal_strlit("set (from mcbackup env)");
            reveal_strlit("-");
        }
        out
    }
}

} // verus!
