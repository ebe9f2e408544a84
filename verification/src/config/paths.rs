//! Where the configuration and the per-machine state live. The environment, the user id
//! and the files are read by the caller; the order in which they decide is here.

use vstd::prelude::*;
use crate::text::{clone_string, lines, lines_of, opt_view, split_chars, split_on, string_from_chars, to_chars, views};
use crate::util::path::{join, path_join};

verus! {

/// What decides the configuration directory, as the caller found it.
#[derive(Debug, Clone)]
pub struct DirInputs {
    /// `$MCPLUG_CONFIG_DIR` (or `$MCPLUG_STATE_DIR` for the state directory).
    pub env_dir: Option<String>,
    /// Running as root.
    pub is_root: bool,
    /// `/etc/mcplug/config.toml` exists.
    pub etc_config_exists: bool,
    /// The home directory of the user who ran `sudo`, if any.
    pub sudo_home: Option<String>,
    /// The platform's per-user directory (`~/.config`, or the state/local data directory).
    pub platform_dir: Option<String>,
}

/// The configuration directory: the environment's, then `/etc/mcplug` for root when it
/// holds a config, then the sudo user's `~/.config/mcplug`, then the platform's.
pub open spec fn config_dir_spec(i: DirInputs) -> Seq<char> {
    match i.env_dir {
        Some(d) => d@,
        None => if i.is_root && i.etc_config_exists {
            "/etc/mcplug"@
        } else {
            match i.sudo_home {
                Some(h) => path_join(path_join(h@, ".config"@), "mcplug"@),
                None => path_join(match i.platform_dir {
                    Some(p) => p@,
                    None => "."@,
                }, "mcplug"@),
            }
        },
    }
}

pub fn config_dir(i: &DirInputs) -> (r: String)
    ensures
        r@ == config_dir_spec(*i),
{
    proof {
        reveal_strlit("/etc/mcplug");
    }
    if let Some(d) = &i.env_dir {
        return clone_string(d);
    }
    if i.is_root && i.etc_config_exists {
        return String::from_str("/etc/mcplug");
    }
    match &i.sudo_home {
        Some(h) => {
            let c = join(h.as_str(), ".config");
            join(c.as_str(), "mcplug")
        },
        None => match &i.platform_dir {
            Some(p) => join(p.as_str(), "mcplug"),
            None => join(".", "mcplug"),
        },
    }
}

/// The state directory: the environment's, then `/var/lib/mcplug` for root, then the
/// platform's (its state directory, else its local data directory).
pub open spec fn state_dir_spec(env_dir: Option<Seq<char>>, is_root: bool, platform_dir: Option<Seq<char>>) -> Seq<char> {
    match env_dir {
        Some(d) => d,
        None => if is_root {
            "/var/lib/mcplug"@
        } else {
            path_join(match platform_dir {
                Some(p) => p,
                None => "."@,
            }, "mcplug"@)
        },
    }
}

pub fn state_dir(env_dir: &Option<String>, is_root: bool, platform_dir: &Option<String>) -> (r: String)
    ensures
        r@ == state_dir_spec(opt_view(*env_dir), is_root, opt_view(*platform_dir)),
{
    proof {
        reveal_strlit("/var/lib/mcplug");
    }
    if let Some(d) = env_dir {
        return clone_string(d);
    }
    if is_root {
        return String::from_str("/var/lib/mcplug");
    }
    match platform_dir {
        Some(p) => join(p.as_str(), "mcplug"),
        None => join(".", "mcplug"),
    }
}

/// The home directory `/etc/passwd` gives `user`: the sixth `:`-separated field of the
/// first line whose first field is the user and which has one.
pub open spec fn passwd_home(lines: Seq<Seq<char>>, user: Seq<char>) -> Option<Seq<char>>
    decreases lines.len(),
{
    if lines.len() == 0 {
        None
    } else {
        let f = split_on(lines[0], seq![':']);
        if f[0] == user && f.len() > 5 {
            Some(f[5])
        } else {
            passwd_home(lines.drop_first(), user)
        }
    }
}

/// The home of the user who ran `sudo` (`$SUDO_USER`), from the text of `/etc/passwd`;
/// none for root.
pub open spec fn sudo_home_spec(sudo_user: Option<Seq<char>>, passwd: Option<Seq<char>>) -> Option<Seq<char>> {
    match sudo_user {
        Some(u) => if u == "root"@ {
            None
        } else {
            match passwd {
                Some(t) => passwd_home(lines_of(t), u),
                None => None,
            }
        },
        None => None,
    }
}

pub fn sudo_user_home(sudo_user: Option<&str>, passwd: Option<&str>) -> (r: Option<String>)
    ensures
        opt_view(r) == sudo_home_spec(match sudo_user { Some(u) => Some(u@), None => None }, match passwd { Some(t) => Some(t@), None => None }),
{
    proof {
        reveal_strlit("root");
    }
    let user = match sudo_user {
        Some(u) => u,
        None => return None,
    };
    if crate::lockfile::str_eq(user, "root") {
        return None;
    }
    let text = match passwd {
        Some(t) => t,
        None => return None,
    };
    let ls = lines(to_chars(text).as_slice());
    let u = to_chars(user);
    let ghost lv = views(ls@);
    let mut i: usize = 0;
    assert(lv.skip(0) =~= lv);
    while i < ls.len()
        invariant
            i <= ls@.len(),
            lv == views(ls@),
            lv == lines_of(text@),
            u@ == user@,
            user@ != "root"@,
            sudo_user == Some(user),
            passwd == Some(text),
            passwd_home(lv, user@) == passwd_home(lv.skip(i as int), user@),
        decreases ls@.len() - i,
    {
        let seps = vec![':'];
        let f = split_chars(ls[i].as_slice(), seps.as_slice());
        proof {
            crate::text::lemma_split_on_nonempty(ls@[i as int]@, seq![':']);
            assert(seps@ =~= seq![':']);
            assert(lv.skip(i as int)[0] == ls@[i as int]@);
        }
        if f.len() > 5 && crate::text::eq_chars(f[0].as_slice(), u.as_slice()) {
            assert(views(f@)[0] == f@[0]@ && views(f@)[5] == f@[5]@);
            return Some(string_from_chars(f[5].as_slice()));
        }
        assert(views(f@)[0] == f@[0]@);
        assert(lv.skip(i as int).drop_first() =~= lv.skip(i + 1));
        i = i + 1;
    }
    assert(lv.skip(i as int) =~= Seq::<Seq<char>>::empty());
    None
}

} // verus!
