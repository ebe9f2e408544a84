//! Minecraft versions: classic `1.21.4` and year-based `26.2`, with an optional
//! pre-release suffix (`1.21.5-pre1`, `26.3-rc1`).

use vstd::prelude::*;
use crate::text::{lemma_find_char_at, lemma_find_char_none, lemma_split_on_none, lemma_split_on_append, decimal, find_char, find_char_exec, lemma_decimal, parse_digits, parse_digits_exec, push_all, push_decimal, split_chars, split_on, string_from_chars, to_chars, views};

verus! {

#[derive(Debug, Clone, PartialEq, Eq)]
pub struct McVersion {
    pub major: u32,
    pub minor: u32,
    pub patch: Option<u32>,
    /// Text after the first `-`; `None` for a release.
    pub pre: Option<String>,
}

/// The mathematical content of a version.
#[verifier::ext_equal]
pub struct VersionV {
    pub major: u32,
    pub minor: u32,
    pub patch: Option<u32>,
    pub pre: Option<Seq<char>>,
}

impl View for McVersion {
    type V = VersionV;

    open spec fn view(&self) -> VersionV {
        VersionV {
            major: self.major,
            minor: self.minor,
            patch: self.patch,
            pre: match self.pre {
                Some(p) => Some(p@),
                None => None,
            },
        }
    }
}

/// The numeric part `a.b` or `a.b.c` of a version.
pub open spec fn parse_numbers(base: Seq<char>) -> Option<(u32, u32, Option<u32>)> {
    let parts = split_on(base, seq!['.']);
    if parts.len() == 2 {
        match (parse_digits(parts[0]), parse_digits(parts[1])) {
            (Some(a), Some(b)) => Some((a, b, None)),
            _ => None,
        }
    } else if parts.len() == 3 {
        match (parse_digits(parts[0]), parse_digits(parts[1]), parse_digits(parts[2])) {
            (Some(a), Some(b), Some(c)) => Some((a, b, Some(c))),
            _ => None,
        }
    } else {
        None
    }
}

/// `a.b[.c][-pre]` with decimal numbers and a non-empty pre-release tag.
pub open spec fn parse_spec(s: Seq<char>) -> Option<VersionV> {
    let (base, pre) = match find_char(s, '-') {
        Some(k) => (s.take(k), Some(s.skip(k + 1))),
        None => (s, None),
    };
    match parse_numbers(base) {
        Some((a, b, c)) => {
            if pre matches Some(p) && p.len() == 0 {
                None
            } else {
                Some(VersionV { major: a, minor: b, patch: c, pre })
            }
        },
        None => None,
    }
}

/// Canonical text of a version.
pub open spec fn display_spec(v: VersionV) -> Seq<char> {
    let nums = decimal(v.major as nat) + seq!['.'] + decimal(v.minor as nat);
    let with_patch = match v.patch {
        Some(c) => nums + seq!['.'] + decimal(c as nat),
        None => nums,
    };
    match v.pre {
        Some(p) => with_patch + seq!['-'] + p,
        None => with_patch,
    }
}

/// `a` is older than `b`: numbers compared in order (a missing patch counts as 0), and at
/// equal numbers a pre-release is older than the release.
pub open spec fn older(a: VersionV, b: VersionV) -> bool {
    let pa = match a.patch { Some(p) => p, None => 0 };
    let pb = match b.patch { Some(p) => p, None => 0 };
    ||| a.major < b.major
    ||| a.major == b.major && a.minor < b.minor
    ||| a.major == b.major && a.minor == b.minor && pa < pb
    ||| a.major == b.major && a.minor == b.minor && pa == pb && a.pre is Some && b.pre is None
}

impl McVersion {
    /// Parse `a.b`, `a.b.c`, optionally followed by `-<pre-release>`.
    pub fn parse(s: &str) -> (r: Option<McVersion>)
        ensures
            match r {
                Some(v) => parse_spec(s@) == Some(v@),
                None => parse_spec(s@) is None,
            },
    {
        let cs = to_chars(s);
        let (base, pre): (Vec<char>, Option<Vec<char>>) = match find_char_exec(cs.as_slice(), '-') {
            Some(k) => {
                let mut b: Vec<char> = Vec::new();
                let mut p: Vec<char> = Vec::new();
                let mut i: usize = 0;
                while i < k
                    invariant
                        i <= k,
                        k < cs@.len(),
                        b@ == cs@.take(i as int),
                    decreases k - i,
                {
                    b.push(cs[i]);
                    i = i + 1;
                    assert(b@ =~= cs@.take(i as int));
                }
                let mut j: usize = k + 1;
                while j < cs.len()
                    invariant
                        k < j <= cs@.len(),
                        p@ == cs@.subrange(k + 1, j as int),
                    decreases cs@.len() - j,
                {
                    p.push(cs[j]);
                    j = j + 1;
                    assert(p@ =~= cs@.subrange(k + 1, j as int));
                }
                assert(p@ =~= cs@.skip(k + 1));
                (b, Some(p))
            },
            None => (cs, None),
        };
        let dot = vec!['.'];
        assert(dot@ =~= seq!['.']);
        let parts = split_chars(base.as_slice(), dot.as_slice());
        let ghost pv = views(parts@);
        assert(pv.len() == parts@.len());
        let nums: Option<(u32, u32, Option<u32>)> = if parts.len() == 2 {
            assert(pv[0] == parts@[0]@ && pv[1] == parts@[1]@);
            match (parse_digits_exec(parts[0].as_slice()), parse_digits_exec(parts[1].as_slice())) {
                (Some(a), Some(b)) => Some((a, b, None)),
                _ => None,
            }
        } else if parts.len() == 3 {
            assert(pv[0] == parts@[0]@ && pv[1] == parts@[1]@ && pv[2] == parts@[2]@);
            match (
                parse_digits_exec(parts[0].as_slice()),
                parse_digits_exec(parts[1].as_slice()),
                parse_digits_exec(parts[2].as_slice()),
            ) {
                (Some(a), Some(b), Some(c)) => Some((a, b, Some(c))),
                _ => None,
            }
        } else {
            None
        };
        assert(nums == parse_numbers(base@));
        match nums {
            Some((a, b, c)) => {
                match pre {
                    Some(p) => {
                        if p.len() == 0 {
                            None
                        } else {
                            Some(McVersion { major: a, minor: b, patch: c, pre: Some(string_from_chars(p.as_slice())) })
                        }
                    },
                    None => Some(McVersion { major: a, minor: b, patch: c, pre: None }),
                }
            },
            None => None,
        }
    }

    /// Canonical text: `a.b`, `a.b.c`, then `-pre` for a pre-release.
    pub fn to_string(&self) -> (r: String)
        ensures
            r@ == display_spec(self@),
    {
        let mut out: Vec<char> = Vec::new();
        push_decimal(&mut out, self.major);
        out.push('.');
        push_decimal(&mut out, self.minor);
        match self.patch {
            Some(c) => {
                out.push('.');
                push_decimal(&mut out, c);
            },
            None => {},
        }
        match &self.pre {
            Some(p) => {
                out.push('-');
                let pc = to_chars(p.as_str());
                push_all(&mut out, pc.as_slice());
            },
            None => {},
        }
        assert(out@ =~= display_spec(self@));
        string_from_chars(out.as_slice())
    }

    /// A copy of this version.
    pub fn copy(&self) -> (r: McVersion)
        ensures
            r@ == self@,
    {
        McVersion {
            major: self.major,
            minor: self.minor,
            patch: self.patch,
            pre: match &self.pre {
                Some(p) => Some(p.clone()),
                None => None,
            },
        }
    }

    /// Same release line: `26.2.x` for a `26.2` server.
    pub fn same_line(&self, other: &McVersion) -> (r: bool)
        ensures
            r == (self.major == other.major && self.minor == other.minor),
    {
        self.major == other.major && self.minor == other.minor
    }

    /// Not a pre-release.
    pub fn is_release(&self) -> (r: bool)
        ensures
            r == (self.pre is None),
    {
        self.pre.is_none()
    }

    /// `self` is older than `other`.
    pub fn older_than(&self, other: &McVersion) -> (r: bool)
        ensures
            r == older(self@, other@),
    {
        let pa = match self.patch {
            Some(p) => p,
            None => 0,
        };
        let pb = match other.patch {
            Some(p) => p,
            None => 0,
        };
        self.major < other.major || (self.major == other.major && self.minor < other.minor) || (
        self.major == other.major && self.minor == other.minor && pa < pb) || (self.major
            == other.major && self.minor == other.minor && pa == pb && self.pre.is_some()
            && other.pre.is_none())
    }

    /// The same version, pre-release tag included.
    pub fn same_version(&self, other: &McVersion) -> (r: bool)
        ensures
            r == (self@ == other@),
    {
        let pre = match (&self.pre, &other.pre) {
            (Some(a), Some(b)) => crate::text::str_eq_string(a, b),
            (None, None) => true,
            _ => false,
        };
        self.major == other.major && self.minor == other.minor && self.patch == other.patch && pre
    }

    /// `self` is newer than `other`.
    pub fn newer_than(&self, other: &McVersion) -> (r: bool)
        ensures
            r == older(other@, self@),
    {
        other.older_than(self)
    }
}

proof fn lemma_decimal_plain(n: nat)
    ensures
        parse_digits(decimal(n)) == (if n <= u32::MAX { Some(n as u32) } else { None::<u32> }),
        forall|j: int| 0 <= j < decimal(n).len() ==> #[trigger] decimal(n)[j] != '-' && decimal(n)[j] != '.',
{
    lemma_decimal(n);
    assert forall|j: int| 0 <= j < decimal(n).len() implies #[trigger] decimal(n)[j] != '-' && decimal(n)[j] != '.' by {
        assert(is_digit_char(decimal(n)[j]));
    }
}

spec fn is_digit_char(c: char) -> bool {
    crate::text::is_digit(c)
}

/// Reading back the canonical text of a version gives the version.
pub proof fn lemma_display_parse(v: VersionV)
    requires
        v.pre matches Some(p) ==> p.len() > 0,
    ensures
        parse_spec(display_spec(v)) == Some(v),
{
    let da = decimal(v.major as nat);
    let db = decimal(v.minor as nat);
    lemma_decimal_plain(v.major as nat);
    lemma_decimal_plain(v.minor as nat);
    let dot = seq!['.'];
    assert(dot[0] == '.');
    assert(dot.contains('.'));
    let nums = da + dot + db;
    lemma_split_on_none(da, dot);
    lemma_split_on_append(da, '.', db, dot);
    assert(split_on(nums, dot) =~~= seq![da, db]);
    let with_patch = match v.patch {
        Some(c) => nums + dot + decimal(c as nat),
        None => nums,
    };
    match v.patch {
        Some(c) => {
            lemma_decimal_plain(c as nat);
            lemma_split_on_append(nums, '.', decimal(c as nat), dot);
            assert(split_on(with_patch, dot) =~~= seq![da, db, decimal(c as nat)]);
        },
        None => {},
    }
    assert(parse_numbers(with_patch) == Some((v.major, v.minor, v.patch)));
    assert forall|j: int| 0 <= j < with_patch.len() implies #[trigger] with_patch[j] != '-' by {
        if j < da.len() {
            assert(with_patch[j] == da[j]);
        } else if j < da.len() + 1 {
        } else if j < nums.len() {
            assert(with_patch[j] == db[j - da.len() - 1]);
        } else if j < nums.len() + 1 {
        } else {
            assert(with_patch[j] == decimal(v.patch->0 as nat)[j - nums.len() - 1]);
        }
    }
    match v.pre {
        Some(p) => {
            let s = with_patch + seq!['-'] + p;
            assert(display_spec(v) == s);
            lemma_find_char_at(s, '-', with_patch.len() as int);
            assert(s.take(with_patch.len() as int) =~= with_patch);
            assert(s.skip(with_patch.len() as int + 1) =~= p);
        },
        None => {
            assert(display_spec(v) == with_patch);
            lemma_find_char_none(with_patch, '-');
        },
    }
}

} // verus!
