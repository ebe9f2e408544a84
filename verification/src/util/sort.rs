//! Stable sorting by a lexicographically compared key of integers.

use vstd::prelude::*;

verus! {

/// `a` sorts strictly before `b` in lexicographic order (a proper prefix sorts first).
pub open spec fn key_lt(a: Seq<u64>, b: Seq<u64>) -> bool
    decreases a.len(),
{
    if b.len() == 0 {
        false
    } else if a.len() == 0 {
        true
    } else if a[0] < b[0] {
        true
    } else if a[0] > b[0] {
        false
    } else {
        key_lt(a.drop_first(), b.drop_first())
    }
}

pub open spec fn key_le(a: Seq<u64>, b: Seq<u64>) -> bool {
    !key_lt(b, a)
}

/// Where a stable insertion puts an element with key `k`: after every element whose
/// key is not greater.
pub open spec fn ins_pos<T>(s: Seq<(Vec<u64>, T)>, k: Seq<u64>) -> int
    decreases s.len(),
{
    if s.len() == 0 {
        0
    } else if key_lt(k, s[0].0@) {
        0
    } else {
        1 + ins_pos(s.drop_first(), k)
    }
}

/// Stable insertion sort by key.
pub open spec fn isort<T>(s: Seq<(Vec<u64>, T)>) -> Seq<(Vec<u64>, T)>
    decreases s.len(),
{
    if s.len() == 0 {
        Seq::empty()
    } else {
        let r = isort(s.drop_last());
        r.insert(ins_pos(r, s.last().0@), s.last())
    }
}

pub open spec fn sorted_keys<T>(s: Seq<(Vec<u64>, T)>) -> bool {
    forall|i: int, j: int| 0 <= i < j < s.len() ==> key_le(#[trigger] s[i].0@, #[trigger] s[j].0@)
}

pub proof fn lemma_key_lt_irrefl(a: Seq<u64>)
    ensures
        !key_lt(a, a),
    decreases a.len(),
{
    if a.len() > 0 {
        lemma_key_lt_irrefl(a.drop_first());
    }
}

pub proof fn lemma_key_lt_trans(a: Seq<u64>, b: Seq<u64>, c: Seq<u64>)
    requires
        key_lt(a, b),
        key_lt(b, c),
    ensures
        key_lt(a, c),
    decreases a.len(),
{
    if a.len() > 0 && b.len() > 0 && c.len() > 0 && a[0] == b[0] && b[0] == c[0] {
        lemma_key_lt_trans(a.drop_first(), b.drop_first(), c.drop_first());
    }
}

#[verifier::spinoff_prover]
pub proof fn lemma_key_total(a: Seq<u64>, b: Seq<u64>)
    ensures
        key_lt(a, b) || key_lt(b, a) || a == b,
    decreases a.len(),
{
    if a.len() > 0 && b.len() > 0 && a[0] == b[0] {
        lemma_key_total(a.drop_first(), b.drop_first());
        if a.drop_first() == b.drop_first() {
            assert(a.len() == b.len());
            assert forall|i: int| 0 <= i < a.len() implies a[i] == b[i] by {
                if i > 0 {
                    assert(a[i] == a.drop_first()[i - 1]);
                    assert(b[i] == b.drop_first()[i - 1]);
                }
            }
            assert(a =~= b);
        }
    } else if a.len() == 0 && b.len() == 0 {
        assert(a =~= b);
    }
}

pub proof fn lemma_key_le_trans(a: Seq<u64>, b: Seq<u64>, c: Seq<u64>)
    requires
        key_le(a, b),
        key_le(b, c),
    ensures
        key_le(a, c),
{
    if key_lt(c, a) {
        lemma_key_total(a, b);
        lemma_key_total(b, c);
        if key_lt(a, b) {
            lemma_key_lt_trans(c, a, b);
        } else if a == b {
        }
    }
}

proof fn lemma_ins_pos<T>(s: Seq<(Vec<u64>, T)>, k: Seq<u64>)
    requires
        sorted_keys(s),
    ensures
        0 <= ins_pos(s, k) <= s.len(),
        forall|i: int| 0 <= i < ins_pos(s, k) ==> key_le(#[trigger] s[i].0@, k),
        forall|i: int| ins_pos(s, k) <= i < s.len() ==> key_lt(k, #[trigger] s[i].0@),
    decreases s.len(),
{
    if s.len() > 0 {
        let t = s.drop_first();
        assert(sorted_keys(t)) by {
            assert forall|i: int, j: int| 0 <= i < j < t.len() implies key_le(#[trigger] t[i].0@, #[trigger] t[j].0@) by {
                assert(t[i] == s[i + 1] && t[j] == s[j + 1]);
            }
        }
        lemma_ins_pos(t, k);
        if key_lt(k, s[0].0@) {
            assert forall|i: int| 0 <= i < s.len() implies key_lt(k, #[trigger] s[i].0@) by {
                if i > 0 {
                    assert(key_le(s[0].0@, s[i].0@));
                    lemma_key_total(s[0].0@, s[i].0@);
                    if key_lt(s[0].0@, s[i].0@) {
                        lemma_key_lt_trans(k, s[0].0@, s[i].0@);
                    }
                }
            }
        } else {
            assert forall|i: int| 0 <= i < ins_pos(s, k) implies key_le(#[trigger] s[i].0@, k) by {
                if i > 0 {
                    assert(s[i] == t[i - 1]);
                }
            }
            assert forall|i: int| ins_pos(s, k) <= i < s.len() implies key_lt(k, #[trigger] s[i].0@) by {
                assert(s[i] == t[i - 1]);
            }
        }
    }
}

/// Insertion sort gives a sorted permutation.
pub proof fn lemma_isort<T>(s: Seq<(Vec<u64>, T)>)
    ensures
        sorted_keys(isort(s)),
        isort(s).to_multiset() == s.to_multiset(),
        isort(s).len() == s.len(),
    decreases s.len(),
{
    broadcast use vstd::seq_lib::group_to_multiset_ensures;
    if s.len() > 0 {
        let r = isort(s.drop_last());
        lemma_isort(s.drop_last());
        let x = s.last();
        let p = ins_pos(r, x.0@);
        lemma_ins_pos(r, x.0@);
        let n = r.insert(p, x);
        assert forall|i: int, j: int| 0 <= i < j < n.len() implies key_le(#[trigger] n[i].0@, #[trigger] n[j].0@) by {
            if j < p {
                assert(n[i] == r[i] && n[j] == r[j]);
            } else if j == p {
                assert(n[i] == r[i]);
            } else if i == p {
                assert(n[j] == r[j - 1]);
                lemma_key_total(x.0@, r[j - 1].0@);
                if key_lt(r[j - 1].0@, x.0@) {
                    lemma_key_lt_trans(x.0@, r[j - 1].0@, x.0@);
                    lemma_key_lt_irrefl(x.0@);
                }
            } else if i < p {
                assert(n[i] == r[i] && n[j] == r[j - 1]);
            } else {
                assert(n[i] == r[i - 1] && n[j] == r[j - 1]);
            }
        }
        assert(s =~= s.drop_last().push(x));
        assert(n.to_multiset() =~= r.to_multiset().insert(x)) by {
            assert(n.remove(p) =~= r);
        }
    }
}

fn key_less(a: &Vec<u64>, b: &Vec<u64>) -> (r: bool)
    ensures
        r == key_lt(a@, b@),
{
    let mut i: usize = 0;
    assert(a@.skip(0) =~= a@);
    assert(b@.skip(0) =~= b@);
    while i < a.len() && i < b.len()
        invariant
            i <= a@.len(),
            i <= b@.len(),
            key_lt(a@, b@) == key_lt(a@.skip(i as int), b@.skip(i as int)),
        decreases a@.len() - i,
    {
        if a[i] < b[i] {
            return true;
        }
        if a[i] > b[i] {
            return false;
        }
        assert(a@.skip(i as int).drop_first() =~= a@.skip(i + 1));
        assert(b@.skip(i as int).drop_first() =~= b@.skip(i + 1));
        i = i + 1;
    }
    i < b.len()
}

/// Stable sort of `(key, item)` pairs by key.
pub fn sort_by_key<T>(items: Vec<(Vec<u64>, T)>) -> (r: Vec<(Vec<u64>, T)>)
    ensures
        r@ == isort(items@),
        sorted_keys(r@),
        r@.to_multiset() == items@.to_multiset(),
{
    let ghost orig = items@;
    let mut rest = items;
    let mut out: Vec<(Vec<u64>, T)> = Vec::new();
    let mut done: usize = 0;
    let total = rest.len();
    assert(orig.take(0) =~= Seq::<(Vec<u64>, T)>::empty());
    while rest.len() > 0
        invariant
            done + rest@.len() == orig.len(),
            orig.len() == total,
            rest@ == orig.skip(done as int),
            out@ == isort(orig.take(done as int)),
            sorted_keys(out@),
        decreases rest@.len(),
    {
        let x = rest.remove(0);
        proof {
            lemma_isort(orig.take(done as int));
        }
        let mut p: usize = 0;
        assert(out@.skip(0) =~= out@);
        while p < out.len() && !key_less(&x.0, &out[p].0)
            invariant
                p <= out@.len(),
                ins_pos(out@, x.0@) == p + ins_pos(out@.skip(p as int), x.0@),
            decreases out@.len() - p,
        {
            assert(out@.skip(p as int).drop_first() =~= out@.skip(p + 1));
            p = p + 1;
        }
        assert(ins_pos(out@, x.0@) == p);
        assert(orig.take(done + 1).drop_last() =~= orig.take(done as int));
        assert(orig.take(done + 1).last() == x);
        out.insert(p, x);
        done = done + 1;
        assert(rest@ =~= orig.skip(done as int));
        proof {
            lemma_isort(orig.take(done as int));
        }
    }
    assert(orig.take(done as int) =~= orig);
    proof {
        lemma_isort(orig);
    }
    out
}

/// `a` sorts no later than `b`, comparing characters by code point (the order of their
/// UTF-8 bytes).
pub open spec fn str_le(a: Seq<char>, b: Seq<char>) -> bool {
    key_le(crate::text::char_key(a), crate::text::char_key(b))
}

pub open spec fn sorted_strs(s: Seq<Seq<char>>) -> bool {
    forall|i: int, j: int| 0 <= i < j < s.len() ==> str_le(#[trigger] s[i], #[trigger] s[j])
}

/// Sorts strings by code point.
pub fn sort_strings(v: Vec<String>) -> (r: Vec<String>)
    ensures
        sorted_strs(crate::text::sviews(r@)),
        crate::text::sviews(r@).to_multiset() == crate::text::sviews(v@).to_multiset(),
{
    let ghost orig = crate::text::sviews(v@);
    let mut rest = v;
    let mut out: Vec<String> = Vec::new();
    assert(crate::text::sviews(out@) =~= Seq::<Seq<char>>::empty());
    proof {
        broadcast use vstd::seq_lib::group_to_multiset_ensures;
        assert(crate::text::sviews(rest@) == orig);
        assert(crate::text::sviews(out@).to_multiset().len() == 0);
        assert(crate::text::sviews(out@).to_multiset().add(crate::text::sviews(rest@).to_multiset()) =~= orig.to_multiset());
    }
    while rest.len() > 0
        invariant
            sorted_strs(crate::text::sviews(out@)),
            forall|a: int, b: int| 0 <= a < out@.len() && 0 <= b < rest@.len() ==> str_le(#[trigger] out@[a]@, #[trigger] rest@[b]@),
            crate::text::sviews(out@).to_multiset().add(crate::text::sviews(rest@).to_multiset()) == orig.to_multiset(),
        decreases rest@.len(),
    {
        let mut best: usize = 0;
        let mut bk = crate::text::char_key_exec(crate::text::to_chars(rest[0].as_str()).as_slice());
        let mut j: usize = 1;
        proof {
            lemma_key_lt_irrefl(bk@);
        }
        while j < rest.len()
            invariant
                0 < rest@.len(),
                best < rest@.len(),
                1 <= j <= rest@.len(),
                bk@ == crate::text::char_key(rest@[best as int]@),
                forall|b: int| 0 <= b < j ==> str_le(rest@[best as int]@, #[trigger] rest@[b]@),
            decreases rest@.len() - j,
        {
            let kj = crate::text::char_key_exec(crate::text::to_chars(rest[j].as_str()).as_slice());
            if key_less(&kj, &bk) {
                proof {
                    assert forall|b: int| 0 <= b < j + 1 implies str_le(rest@[j as int]@, #[trigger] rest@[b]@) by {
                        if b < j {
                            if key_lt(bk@, kj@) {
                                lemma_key_lt_trans(kj@, bk@, kj@);
                                lemma_key_lt_irrefl(kj@);
                            }
                            lemma_key_le_trans(kj@, bk@, crate::text::char_key(rest@[b]@));
                        } else {
                            lemma_key_lt_irrefl(kj@);
                        }
                    }
                }
                best = j;
                bk = kj;
            } else {
                proof {
                    assert(str_le(rest@[best as int]@, rest@[j as int]@));
                }
            }
            j = j + 1;
        }
        let ghost before = rest@;
        let ghost out0 = out@;
        let x = rest.remove(best);
        proof {
            assert(crate::text::sviews(rest@) =~= crate::text::sviews(before).remove(best as int));
            assert(crate::text::sviews(before)[best as int] == x@);
            assert forall|b: int| 0 <= b < rest@.len() implies str_le(x@, #[trigger] rest@[b]@) by {
                if b < best {
                    assert(rest@[b] == before[b]);
                } else {
                    assert(rest@[b] == before[b + 1]);
                }
            }
        }
        out.push(x);
        proof {
            assert(crate::text::sviews(out@) =~= crate::text::sviews(out0).push(x@));
            assert forall|a: int, b: int| 0 <= a < out@.len() && 0 <= b < rest@.len() implies str_le(#[trigger] out@[a]@, #[trigger] rest@[b]@) by {
                if a < out0.len() {
                    assert(out@[a] == out0[a]);
                    if b < best {
                        assert(rest@[b] == before[b]);
                    } else {
                        assert(rest@[b] == before[b + 1]);
                    }
                }
            }
            assert forall|a: int, c: int| 0 <= a < c < crate::text::sviews(out@).len() implies str_le(#[trigger] crate::text::sviews(out@)[a], #[trigger] crate::text::sviews(out@)[c]) by {
                if c == out0.len() {
                    assert(out@[a] == out0[a]);
                    assert(before[best as int] == x);
                    assert(str_le(out0[a]@, before[best as int]@));
                } else {
                    assert(crate::text::sviews(out@)[a] == crate::text::sviews(out0)[a]);
                    assert(crate::text::sviews(out@)[c] == crate::text::sviews(out0)[c]);
                }
            }
            let m_out0 = crate::text::sviews(out0).to_multiset();
            let m_before = crate::text::sviews(before).to_multiset();
            crate::text::sviews(out0).to_multiset_ensures();
            crate::text::sviews(before).to_multiset_ensures();
            assert(crate::text::sviews(out0).push(x@).to_multiset() == m_out0.insert(x@));
            assert(crate::text::sviews(before).remove(best as int).to_multiset() == m_before.remove(crate::text::sviews(before)[best as int]));
            assert(crate::text::sviews(before).contains(x@));
            assert(m_before.count(x@) > 0);
            assert(crate::text::sviews(out@).to_multiset().add(crate::text::sviews(rest@).to_multiset()) =~= m_out0.add(m_before));
        }
    }
    assert(crate::text::sviews(rest@) =~= Seq::<Seq<char>>::empty());
    assert(crate::text::sviews(out@).to_multiset() =~= orig.to_multiset());
    out
}

} // verus!
