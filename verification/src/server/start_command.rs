//! Tokenise a server start command to find the java binary and the server jar.

use vstd::prelude::*;
use crate::text::{eq_chars, is_whitespace, is_ws, string_from_chars, sviews, to_chars, words};

verus! {

/// Where the tokenizer stands after reading a prefix of the command.
pub struct SplitState {
    pub out: Seq<Seq<char>>,
    pub cur: Seq<char>,
    pub in_tok: bool,
    pub quote: Option<char>,
    /// A backslash was read; the next character is taken literally.
    pub esc: bool,
}

pub open spec fn split_init() -> SplitState {
    SplitState { out: Seq::empty(), cur: Seq::empty(), in_tok: false, quote: None, esc: false }
}

/// One character of the POSIX-ish splitter: whitespace separates tokens, single and
/// double quotes group, a backslash escapes the next character (outside quotes and
/// inside double quotes).
pub open spec fn split_step(st: SplitState, c: char) -> SplitState {
    if st.esc {
        SplitState { cur: st.cur.push(c), in_tok: true, esc: false, ..st }
    } else {
        match st.quote {
            Some(q) => {
                if c == q {
                    SplitState { quote: None, ..st }
                } else if q == '"' && c == '\\' {
                    SplitState { esc: true, ..st }
                } else {
                    SplitState { cur: st.cur.push(c), ..st }
                }
            },
            None => {
                if c == '"' || c == '\'' {
                    SplitState { quote: Some(c), in_tok: true, ..st }
                } else if c == '\\' {
                    SplitState { esc: true, ..st }
                } else if is_ws(c) {
                    if st.in_tok {
                        SplitState { out: st.out.push(st.cur), cur: Seq::empty(), in_tok: false, ..st }
                    } else {
                        st
                    }
                } else {
                    SplitState { cur: st.cur.push(c), in_tok: true, ..st }
                }
            },
        }
    }
}

pub open spec fn split_from(st: SplitState, s: Seq<char>) -> SplitState
    decreases s.len(),
{
    if s.len() == 0 {
        st
    } else {
        split_step(split_from(st, s.drop_last()), s.last())
    }
}

/// The tokens of a command line.
pub open spec fn shell_words(s: Seq<char>) -> Seq<Seq<char>> {
    let st = split_from(split_init(), s);
    if st.in_tok {
        st.out.push(st.cur)
    } else {
        st.out
    }
}

/// A token must be quoted when it is empty or holds whitespace or a quote character.
pub open spec fn needs_quote(t: Seq<char>) -> bool {
    t.len() == 0 || exists|i: int| 0 <= i < t.len() && (is_ws(#[trigger] t[i]) || t[i] == '"' || t[i] == '\'')
}

/// Each `"` preceded by a backslash.
pub open spec fn escape_dq(t: Seq<char>) -> Seq<char>
    decreases t.len(),
{
    if t.len() == 0 {
        Seq::empty()
    } else if t.last() == '"' {
        escape_dq(t.drop_last()) + seq!['\\', '"']
    } else {
        escape_dq(t.drop_last()).push(t.last())
    }
}

/// A token as written back into a command line.
pub open spec fn quote_spec(t: Seq<char>) -> Seq<char> {
    if needs_quote(t) {
        seq!['"'] + escape_dq(t) + seq!['"']
    } else {
        t
    }
}

/// The tokens joined by single spaces.
pub open spec fn join_space(ts: Seq<Seq<char>>) -> Seq<char>
    decreases ts.len(),
{
    if ts.len() == 0 {
        Seq::empty()
    } else if ts.len() == 1 {
        ts[0]
    } else {
        join_space(ts.drop_last()) + seq![' '] + ts.last()
    }
}

pub open spec fn quote_all(ts: Seq<Seq<char>>) -> Seq<Seq<char>> {
    ts.map_values(|t: Seq<char>| quote_spec(t))
}

/// Index of the first token equal to `t`.
pub open spec fn first_index(ts: Seq<Seq<char>>, t: Seq<char>) -> Option<int>
    decreases ts.len(),
{
    if ts.len() == 0 {
        None
    } else {
        match first_index(ts.drop_last(), t) {
            Some(i) => Some(i),
            None => if ts.last() == t { Some(ts.len() - 1) } else { None },
        }
    }
}

/// The token after the first `-jar`, if there is one.
pub open spec fn jar_spec(ts: Seq<Seq<char>>) -> Option<Seq<char>> {
    match first_index(ts, "-jar"@) {
        Some(i) => if i + 1 < ts.len() { Some(ts[i + 1]) } else { None },
        None => None,
    }
}

/// The tokens with the argument after the first `-jar` replaced.
pub open spec fn replace_jar(ts: Seq<Seq<char>>, jar: Seq<char>) -> Seq<Seq<char>> {
    match first_index(ts, "-jar"@) {
        Some(i) => if i + 1 < ts.len() { ts.update(i + 1, jar) } else { ts },
        None => ts,
    }
}

/// The tokens with the first one replaced.
pub open spec fn replace_java(ts: Seq<Seq<char>>, java: Seq<char>) -> Seq<Seq<char>> {
    if ts.len() > 0 { ts.update(0, java) } else { ts }
}

#[derive(Debug, Clone, PartialEq, Eq)]
pub struct StartCommand {
    pub tokens: Vec<String>,
}

impl View for StartCommand {
    type V = Seq<Seq<char>>;

    open spec fn view(&self) -> Seq<Seq<char>> {
        sviews(self.tokens@)
    }
}

/// Minimal POSIX-ish splitter: whitespace separated, single/double quotes, backslash escapes.
pub fn shell_split(s: &str) -> (r: Vec<String>)
    ensures
        sviews(r@) == shell_words(s@),
{
    let cs = to_chars(s);
    let mut out: Vec<String> = Vec::new();
    let mut cur: Vec<char> = Vec::new();
    let mut in_tok = false;
    let mut quote: Option<char> = None;
    let mut esc = false;
    let mut i: usize = 0;
    assert(cs@.take(0) =~= Seq::<char>::empty());
    assert(sviews(out@) =~= Seq::<Seq<char>>::empty());
    assert(cur@ =~= Seq::<char>::empty());
    while i < cs.len()
        invariant
            i <= cs@.len(),
            cs@ == s@,
            split_from(split_init(), cs@.take(i as int)) == (SplitState {
                out: sviews(out@),
                cur: cur@,
                in_tok,
                quote,
                esc,
            }),
        decreases cs@.len() - i,
    {
        let c = cs[i];
        assert(cs@.take(i + 1).drop_last() =~= cs@.take(i as int));
        let ghost before = SplitState { out: sviews(out@), cur: cur@, in_tok, quote, esc };
        if esc {
            cur.push(c);
            in_tok = true;
            esc = false;
        } else {
            match quote {
                Some(q) => {
                    if c == q {
                        quote = None;
                    } else if q == '"' && c == '\\' {
                        esc = true;
                    } else {
                        cur.push(c);
                    }
                },
                None => {
                    if c == '"' || c == '\'' {
                        quote = Some(c);
                        in_tok = true;
                    } else if c == '\\' {
                        esc = true;
                    } else if is_whitespace(c) {
                        if in_tok {
                            let tok = string_from_chars(cur.as_slice());
                            out.push(tok);
                            cur = Vec::new();
                            in_tok = false;
                        }
                    } else {
                        cur.push(c);
                        in_tok = true;
                    }
                },
            }
        }
        i = i + 1;
        assert(sviews(out@) =~= split_step(before, c).out);
        assert(cur@ =~= split_step(before, c).cur);
    }
    assert(cs@.take(cs@.len() as int) =~= cs@);
    if in_tok {
        let tok = string_from_chars(cur.as_slice());
        out.push(tok);
    }
    assert(sviews(out@) =~= shell_words(s@));
    out
}

/// A token as written back into a command line: quoted (with `"` escaped) when it is
/// empty or holds whitespace or a quote character.
pub fn quote(t: &str) -> (r: String)
    ensures
        r@ == quote_spec(t@),
{
    let cs = to_chars(t);
    let mut need = cs.len() == 0;
    let mut i: usize = 0;
    while i < cs.len()
        invariant
            i <= cs@.len(),
            cs@ == t@,
            need == (cs@.len() == 0 || exists|j: int| 0 <= j < i && (is_ws(#[trigger] cs@[j]) || cs@[j] == '"' || cs@[j] == '\'')),
        decreases cs@.len() - i,
    {
        let c = cs[i];
        if is_whitespace(c) || c == '"' || c == '\'' {
            need = true;
        }
        i = i + 1;
    }
    if !need {
        return string_from_chars(cs.as_slice());
    }
    let mut out: Vec<char> = Vec::new();
    out.push('"');
    let mut k: usize = 0;
    assert(cs@.take(0) =~= Seq::<char>::empty());
    while k < cs.len()
        invariant
            k <= cs@.len(),
            out@ == seq!['"'] + escape_dq(cs@.take(k as int)),
        decreases cs@.len() - k,
    {
        let c = cs[k];
        assert(cs@.take(k + 1).drop_last() =~= cs@.take(k as int));
        if c == '"' {
            out.push('\\');
            out.push('"');
        } else {
            out.push(c);
        }
        k = k + 1;
        assert(out@ =~= seq!['"'] + escape_dq(cs@.take(k as int)));
    }
    assert(cs@.take(cs@.len() as int) =~= cs@);
    out.push('"');
    assert(out@ =~= quote_spec(t@));
    string_from_chars(out.as_slice())
}

/// The tokens quoted and joined by single spaces.
fn join_quoted(ts: &Vec<String>) -> (r: String)
    ensures
        r@ == join_space(quote_all(sviews(ts@))),
{
    let mut out: Vec<char> = Vec::new();
    let mut i: usize = 0;
    let ghost q = quote_all(sviews(ts@));
    assert(q.take(0) =~= Seq::<Seq<char>>::empty());
    while i < ts.len()
        invariant
            i <= ts@.len(),
            q == quote_all(sviews(ts@)),
            out@ == join_space(q.take(i as int)),
        decreases ts@.len() - i,
    {
        let t = quote(ts[i].as_str());
        let tc = to_chars(t.as_str());
        assert(q.take(i + 1).drop_last() =~= q.take(i as int));
        assert(q[i as int] == tc@);
        if i > 0 {
            out.push(' ');
        }
        let mut k: usize = 0;
        let ghost base = out@;
        while k < tc.len()
            invariant
                k <= tc@.len(),
                out@ == base + tc@.take(k as int),
            decreases tc@.len() - k,
        {
            out.push(tc[k]);
            k = k + 1;
            assert(out@ =~= base + tc@.take(k as int));
        }
        assert(tc@.take(tc@.len() as int) =~= tc@);
        i = i + 1;
        assert(out@ =~= join_space(q.take(i as int)));
    }
    assert(q.take(ts@.len() as int) =~= q);
    string_from_chars(out.as_slice())
}

fn is_jar_flag(t: &String) -> (r: bool)
    ensures
        r == (t@ == "-jar"@),
{
    let a = to_chars(t.as_str());
    let b = to_chars("-jar");
    eq_chars(a.as_slice(), b.as_slice())
}

/// Position of the first `-jar` token.
fn jar_flag_index(ts: &Vec<String>) -> (r: Option<usize>)
    ensures
        match r {
            Some(i) => i < ts@.len() && first_index(sviews(ts@), "-jar"@) == Some(i as int),
            None => first_index(sviews(ts@), "-jar"@) is None,
        },
{
    let ghost v = sviews(ts@);
    let mut i: usize = 0;
    assert(v.take(0) =~= Seq::<Seq<char>>::empty());
    while i < ts.len()
        invariant
            i <= ts@.len(),
            v == sviews(ts@),
            first_index(v.take(i as int), "-jar"@) is None,
        decreases ts@.len() - i,
    {
        assert(v.take(i + 1).drop_last() =~= v.take(i as int));
        if is_jar_flag(&ts[i]) {
            proof {
                lemma_first_index_extend(v, i as int);
            }
            return Some(i);
        }
        i = i + 1;
    }
    assert(v.take(ts@.len() as int) =~= v);
    None
}

proof fn lemma_first_index_extend(v: Seq<Seq<char>>, i: int)
    requires
        0 <= i < v.len(),
        first_index(v.take(i), "-jar"@) is None,
        v[i] == "-jar"@,
    ensures
        first_index(v, "-jar"@) == Some(i),
    decreases v.len(),
{
    if i + 1 == v.len() {
        assert(v.drop_last() =~= v.take(i));
    } else {
        assert(v.drop_last().take(i) =~= v.take(i));
        lemma_first_index_extend(v.drop_last(), i);
    }
}

impl StartCommand {
    pub fn parse(cmd: &str) -> (r: Self)
        ensures
            r@ == shell_words(cmd@),
    {
        StartCommand { tokens: shell_split(cmd) }
    }

    /// First token, e.g. `java` or `/usr/lib/jvm/java-25-openjdk-amd64/bin/java`.
    pub fn java(&self) -> (r: Option<&str>)
        ensures
            match r {
                Some(j) => self@.len() > 0 && j@ == self@[0],
                None => self@.len() == 0,
            },
    {
        if self.tokens.len() > 0 {
            Some(self.tokens[0].as_str())
        } else {
            None
        }
    }

    /// The argument after `-jar`.
    pub fn jar(&self) -> (r: Option<&str>)
        ensures
            match r {
                Some(j) => jar_spec(self@) == Some(j@),
                None => jar_spec(self@) is None,
            },
    {
        match jar_flag_index(&self.tokens) {
            Some(i) => {
                let n = self.tokens.len();
                if i < n - 1 {
                    Some(self.tokens[i + 1].as_str())
                } else {
                    None
                }
            },
            None => None,
        }
    }

    /// The command with the jar argument replaced, quoting preserved where needed.
    pub fn with_jar(&self, jar: &str) -> (r: String)
        ensures
            r@ == join_space(quote_all(replace_jar(self@, jar@))),
    {
        let mut out = self.tokens.clone();
        assert(sviews(out@) =~= self@);
        match jar_flag_index(&self.tokens) {
            Some(i) => {
                if i + 1 < out.len() {
                    out.set(i + 1, String::from_str(jar));
                }
            },
            None => {},
        }
        assert(sviews(out@) =~= replace_jar(self@, jar@));
        join_quoted(&out)
    }

    /// The command with the java binary replaced.
    pub fn with_java(&self, java: &str) -> (r: String)
        ensures
            r@ == join_space(quote_all(replace_java(self@, java@))),
    {
        let mut out = self.tokens.clone();
        assert(sviews(out@) =~= self@);
        if out.len() > 0 {
            out.set(0, String::from_str(java));
        }
        assert(sviews(out@) =~= replace_java(self@, java@));
        join_quoted(&out)
    }
}

pub proof fn lemma_split_from_concat(st: SplitState, a: Seq<char>, b: Seq<char>)
    ensures
        split_from(st, a + b) == split_from(split_from(st, a), b),
    decreases b.len(),
{
    if b.len() == 0 {
        assert(a + b =~= a);
    } else {
        assert((a + b).drop_last() =~= a + b.drop_last());
        assert((a + b).last() == b.last());
        lemma_split_from_concat(st, a, b.drop_last());
    }
}


proof fn lemma_split_one(st: SplitState, c: char)
    ensures
        split_from(st, seq![c]) == split_step(st, c),
{
    assert(seq![c].drop_last() =~= Seq::<char>::empty());
    assert(split_from(st, seq![c].drop_last()) == st);
}

proof fn lemma_split_two(st: SplitState, a: char, b: char)
    ensures
        split_from(st, seq![a, b]) == split_step(split_step(st, a), b),
{
    assert(seq![a, b].drop_last() =~= seq![a]);
    lemma_split_one(st, a);
}

/// No character of `t` is special to the splitter.
pub open spec fn plain_chars(t: Seq<char>) -> bool {
    forall|i: int| 0 <= i < t.len() ==> !is_ws(#[trigger] t[i]) && t[i] != '"' && t[i] != '\'' && t[i] != '\\'
}

pub open spec fn no_backslash(t: Seq<char>) -> bool {
    forall|i: int| 0 <= i < t.len() ==> #[trigger] t[i] != '\\'
}

proof fn lemma_plain_token(st: SplitState, t: Seq<char>)
    requires
        plain_chars(t),
        t.len() > 0,
        st.quote is None,
        !st.esc,
    ensures
        split_from(st, t) == (SplitState { cur: st.cur + t, in_tok: true, ..st }),
    decreases t.len(),
{
    let c = t.last();
    assert(!is_ws(t[t.len() - 1]));
    if t.len() == 1 {
        assert(t.drop_last() =~= Seq::<char>::empty());
        assert(st.cur.push(c) =~= st.cur + t);
    } else {
        assert(plain_chars(t.drop_last())) by {
            assert forall|i: int| 0 <= i < t.drop_last().len() implies !is_ws(#[trigger] t.drop_last()[i]) && t.drop_last()[i] != '"' && t.drop_last()[i] != '\'' && t.drop_last()[i] != '\\' by {
                assert(t.drop_last()[i] == t[i]);
            }
        }
        lemma_plain_token(st, t.drop_last());
        assert((st.cur + t.drop_last()).push(c) =~= st.cur + t);
    }
}

proof fn lemma_escaped_body(st: SplitState, t: Seq<char>)
    requires
        no_backslash(t),
        st.quote == Some('"'),
        !st.esc,
        st.in_tok,
    ensures
        split_from(st, escape_dq(t)) == (SplitState { cur: st.cur + t, ..st }),
    decreases t.len(),
{
    if t.len() == 0 {
        assert(st.cur + t =~= st.cur);
        assert(escape_dq(t) =~= Seq::<char>::empty());
    } else {
        let t0 = t.drop_last();
        let c = t.last();
        assert(no_backslash(t0)) by {
            assert forall|i: int| 0 <= i < t0.len() implies #[trigger] t0[i] != '\\' by {
                assert(t0[i] == t[i]);
            }
        }
        assert(c == t[t.len() - 1]);
        lemma_escaped_body(st, t0);
        let mid = SplitState { cur: st.cur + t0, ..st };
        if c == '"' {
            let piece = seq!['\\', '"'];
            assert(escape_dq(t) == escape_dq(t0) + piece);
            lemma_split_from_concat(st, escape_dq(t0), piece);
            lemma_split_two(mid, '\\', '"');
            assert((st.cur + t0).push(c) =~= st.cur + t);
        } else {
            let piece = seq![c];
            assert(escape_dq(t) == escape_dq(t0) + piece);
            lemma_split_from_concat(st, escape_dq(t0), piece);
            lemma_split_one(mid, c);
            assert((st.cur + t0).push(c) =~= st.cur + t);
        }
    }
}

proof fn lemma_quoted_token(st: SplitState, t: Seq<char>)
    requires
        no_backslash(t),
        st.quote is None,
        !st.esc,
    ensures
        split_from(st, quote_spec(t)) == (SplitState { cur: st.cur + t, in_tok: true, ..st }) || !needs_quote(t),
{
    if needs_quote(t) {
        let open = seq!['"'];
        lemma_split_from_concat(st, open + escape_dq(t), open);
        lemma_split_from_concat(st, open, escape_dq(t));
        lemma_split_one(st, '"');
        let inq = SplitState { quote: Some('"'), in_tok: true, ..st };
        assert(split_from(st, open) == inq);
        lemma_escaped_body(inq, t);
        let fin = SplitState { cur: st.cur + t, ..inq };
        lemma_split_one(fin, '"');
        assert(quote_spec(t) == open + escape_dq(t) + open);
    }
}

/// One token from a clean state between tokens.
proof fn lemma_one_token(st: SplitState, t: Seq<char>)
    requires
        no_backslash(t),
        st.quote is None,
        !st.esc,
        st.cur.len() == 0,
    ensures
        split_from(st, quote_spec(t)) == (SplitState { cur: t, in_tok: true, ..st }),
{
    assert(st.cur + t =~= t);
    if needs_quote(t) {
        lemma_quoted_token(st, t);
    } else {
        assert(plain_chars(t)) by {
            assert forall|i: int| 0 <= i < t.len() implies !is_ws(#[trigger] t[i]) && t[i] != '"' && t[i] != '\'' && t[i] != '\\' by {
                if is_ws(t[i]) || t[i] == '"' || t[i] == '\'' {
                    assert(needs_quote(t));
                }
            }
        }
        lemma_plain_token(st, t);
    }
}

proof fn lemma_join_prefix(ts: Seq<Seq<char>>)
    requires
        ts.len() >= 1,
        forall|i: int| 0 <= i < ts.len() ==> no_backslash(#[trigger] ts[i]),
    ensures
        split_from(split_init(), join_space(quote_all(ts))) == (SplitState {
            out: ts.drop_last(),
            cur: ts.last(),
            in_tok: true,
            quote: None,
            esc: false,
        }),
    decreases ts.len(),
{
    let q = quote_all(ts);
    assert(no_backslash(ts[ts.len() - 1]));
    if ts.len() == 1 {
        assert(join_space(q) == q[0]);
        lemma_one_token(split_init(), ts[0]);
        assert(ts.drop_last() =~= Seq::<Seq<char>>::empty());
    } else {
        let ts0 = ts.drop_last();
        assert forall|i: int| 0 <= i < ts0.len() implies no_backslash(#[trigger] ts0[i]) by {
            assert(ts0[i] == ts[i]);
        }
        lemma_join_prefix(ts0);
        assert(q.drop_last() =~= quote_all(ts0));
        let a = join_space(quote_all(ts0));
        let sp = seq![' '];
        let b = q.last();
        assert(join_space(q) == a + sp + b);
        lemma_split_from_concat(split_init(), a + sp, b);
        lemma_split_from_concat(split_init(), a, sp);
        lemma_split_one(split_from(split_init(), a), ' ');
        let st1 = SplitState { out: ts0.drop_last().push(ts0.last()), cur: Seq::empty(), in_tok: false, quote: None, esc: false };
        assert(split_from(split_from(split_init(), a), sp) == st1);
        assert(ts0.drop_last().push(ts0.last()) =~= ts0);
        lemma_one_token(st1, ts.last());
    }
}

/// Splitting a command line written from quoted tokens gives the tokens back, as long as
/// no token holds a backslash (quoting escapes `"` but not `\`).
pub proof fn lemma_split_join_roundtrip(ts: Seq<Seq<char>>)
    requires
        forall|i: int| 0 <= i < ts.len() ==> no_backslash(#[trigger] ts[i]),
    ensures
        shell_words(join_space(quote_all(ts))) == ts,
{
    if ts.len() == 0 {
        assert(join_space(quote_all(ts)) =~= Seq::<char>::empty());
        assert(split_init().out =~= ts);
    } else {
        lemma_join_prefix(ts);
        assert(ts.drop_last().push(ts.last()) =~= ts);
    }
}

/// A command rewritten for another jar names that jar.
pub proof fn lemma_with_jar_names_jar(ts: Seq<Seq<char>>, jar: Seq<char>)
    requires
        forall|i: int| 0 <= i < ts.len() ==> no_backslash(#[trigger] ts[i]),
        no_backslash(jar),
        jar_spec(ts) is Some,
    ensures
        jar_spec(shell_words(join_space(quote_all(replace_jar(ts, jar))))) == Some(jar),
{
    let r = replace_jar(ts, jar);
    let i = first_index(ts, "-jar"@)->0;
    lemma_first_index_bound(ts);
    assert(i + 1 < ts.len());
    assert(r == ts.update(i + 1, jar));
    assert forall|k: int| 0 <= k < r.len() implies no_backslash(#[trigger] r[k]) by {
        if k != i + 1 {
            assert(r[k] == ts[k]);
        }
    }
    lemma_split_join_roundtrip(r);
    lemma_first_index_update(ts, i + 1, jar);
}

proof fn lemma_first_index_update(ts: Seq<Seq<char>>, k: int, x: Seq<char>)
    requires
        first_index(ts, "-jar"@) is Some,
        first_index(ts, "-jar"@)->0 < k < ts.len(),
    ensures
        first_index(ts.update(k, x), "-jar"@) == first_index(ts, "-jar"@),
    decreases ts.len(),
{
    lemma_first_index_bound(ts);
    let u = ts.update(k, x);
    if k == ts.len() - 1 {
        assert(u.drop_last() =~= ts.drop_last());
        lemma_first_index_bound(ts);
    } else {
        assert(k < ts.len() - 1);
        let d = ts.drop_last();
        assert(d.len() == ts.len() - 1);
        assert(u.drop_last() =~= d.update(k, x)) by {
            assert forall|j: int| 0 <= j < d.len() implies u.drop_last()[j] == d.update(k, x)[j] by {
                assert(u.drop_last()[j] == u[j]);
            }
        }
        lemma_first_index_bound(ts);
        lemma_first_index_some_prefix(ts);
        lemma_first_index_update(ts.drop_last(), k, x);
    }
}

proof fn lemma_first_index_bound(ts: Seq<Seq<char>>)
    ensures
        first_index(ts, "-jar"@) matches Some(i) ==> 0 <= i < ts.len() && ts[i] == "-jar"@,
    decreases ts.len(),
{
    if ts.len() > 0 {
        lemma_first_index_bound(ts.drop_last());
    }
}

proof fn lemma_first_index_some_prefix(ts: Seq<Seq<char>>)
    requires
        ts.len() > 0,
        first_index(ts, "-jar"@) matches Some(i) && i < ts.len() - 1,
    ensures
        first_index(ts.drop_last(), "-jar"@) == first_index(ts, "-jar"@),
{
    lemma_first_index_bound(ts.drop_last());
}

/// A command line without quote characters or backslashes.
pub open spec fn plain(s: Seq<char>) -> bool {
    forall|i: int| 0 <= i < s.len() ==> #[trigger] s[i] != '"' && s[i] != '\'' && s[i] != '\\'
}

proof fn lemma_plain_split(s: Seq<char>)
    requires
        plain(s),
    ensures
        ({
            let st = split_from(split_init(), s);
            &&& st.quote is None
            &&& !st.esc
            &&& st.in_tok == (s.len() > 0 && !is_ws(s.last()))
            &&& st.in_tok ==> st.out.push(st.cur) == words(s)
            &&& !st.in_tok ==> st.out == words(s) && st.cur.len() == 0
        }),
    decreases s.len(),
{
    if s.len() > 0 {
        let p = s.drop_last();
        assert forall|i: int| 0 <= i < p.len() implies #[trigger] p[i] != '"' && p[i] != '\'' && p[i] != '\\' by {
            assert(p[i] == s[i]);
        }
        lemma_plain_split(p);
        let c = s.last();
        assert(c == s[s.len() - 1]);
        let st = split_from(split_init(), p);
        assert(c != '"' && c != '\'' && c != '\\');
        assert(split_from(split_init(), s) == split_step(st, c));
        if !is_ws(c) && p.len() > 0 && !is_ws(p.last()) {
            assert(s[s.len() - 2] == p.last());
            assert(words(p) == st.out.push(st.cur));
            assert(words(s) =~= st.out.push(st.cur.push(c)));
        } else if !is_ws(c) {
            if p.len() >= 1 {
                assert(s[s.len() - 2] == p.last());
            }
            assert(st.cur =~= Seq::<char>::empty());
            assert(st.cur.push(c) =~= seq![c]);
            assert(words(s) == words(p).push(seq![c]));
        } else {
            assert(words(s) == words(p));
        }
    }
}

/// Without quotes or backslashes, a command line splits at whitespace only, as
/// `split_whitespace` splits it.
pub proof fn lemma_plain_words(s: Seq<char>)
    requires
        plain(s),
    ensures
        shell_words(s) == words(s),
{
    lemma_plain_split(s);
}

/// Parsing what `with_jar` writes gives the command's tokens with the argument after the
/// first `-jar` replaced (the tokens unchanged where there is none), where no token and
/// not the jar holds a backslash.
pub proof fn lemma_with_jar_round_trip(ts: Seq<Seq<char>>, jar: Seq<char>)
    requires
        forall|i: int| 0 <= i < ts.len() ==> no_backslash(#[trigger] ts[i]),
        no_backslash(jar),
    ensures
        shell_words(join_space(quote_all(replace_jar(ts, jar)))) == replace_jar(ts, jar),
        jar_spec(ts) is Some ==> jar_spec(replace_jar(ts, jar)) == Some(jar),
{
    let r = replace_jar(ts, jar);
    lemma_first_index_bound(ts);
    assert forall|i: int| 0 <= i < r.len() implies no_backslash(#[trigger] r[i]) by {
        match first_index(ts, "-jar"@) {
            Some(k) => if k + 1 < ts.len() && i == k + 1 {
                assert(r[i] == jar);
            } else {
                assert(r[i] == ts[i]);
            },
            None => assert(r[i] == ts[i]),
        }
    }
    lemma_split_join_roundtrip(r);
    if jar_spec(ts) is Some {
        lemma_with_jar_names_jar(ts, jar);
    }
}

/// Parsing what `with_java` writes gives `java` followed by the command's other tokens
/// (nothing for an empty command), where no token and not `java` holds a backslash.
pub proof fn lemma_with_java_round_trip(ts: Seq<Seq<char>>, java: Seq<char>)
    requires
        forall|i: int| 0 <= i < ts.len() ==> no_backslash(#[trigger] ts[i]),
        no_backslash(java),
    ensures
        shell_words(join_space(quote_all(replace_java(ts, java)))) == replace_java(ts, java),
        ts.len() > 0 ==> replace_java(ts, java) == seq![java] + ts.skip(1),
        ts.len() == 0 ==> join_space(quote_all(replace_java(ts, java))).len() == 0,
{
    let r = replace_java(ts, java);
    assert forall|i: int| 0 <= i < r.len() implies no_backslash(#[trigger] r[i]) by {
        if i == 0 {
            assert(r[i] == java);
        } else {
            assert(r[i] == ts[i]);
        }
    }
    lemma_split_join_roundtrip(r);
    if ts.len() > 0 {
        assert(r =~= seq![java] + ts.skip(1));
    } else {
        assert(quote_all(r) =~= Seq::<Seq<char>>::empty());
    }
}

} // verus!
