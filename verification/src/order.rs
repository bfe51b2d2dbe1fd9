//! The order of strings (`Ord` for `str`: by code points, which is the
//! order of their UTF-8 bytes), and sorting with duplicates removed.
use vstd::prelude::*;

verus! {

/// `a` comes before `b`.
pub open spec fn seq_less(a: Seq<char>, b: Seq<char>) -> bool
    decreases a.len(),
{
    if a.len() == 0 {
        b.len() > 0
    } else if b.len() == 0 {
        false
    } else if a[0] < b[0] {
        true
    } else if a[0] > b[0] {
        false
    } else {
        seq_less(a.drop_first(), b.drop_first())
    }
}

pub proof fn lemma_seq_less_irreflexive(a: Seq<char>)
    ensures
        !seq_less(a, a),
    decreases a.len(),
{
    if a.len() > 0 {
        lemma_seq_less_irreflexive(a.drop_first());
    }
}

pub proof fn lemma_seq_less_transitive(a: Seq<char>, b: Seq<char>, c: Seq<char>)
    requires
        seq_less(a, b),
        seq_less(b, c),
    ensures
        seq_less(a, c),
    decreases a.len(),
{
    if a.len() > 0 && b.len() > 0 && c.len() > 0 {
        if a[0] == b[0] && b[0] == c[0] {
            lemma_seq_less_transitive(a.drop_first(), b.drop_first(), c.drop_first());
        }
    }
}

pub proof fn lemma_seq_less_total(a: Seq<char>, b: Seq<char>)
    ensures
        a == b || seq_less(a, b) || seq_less(b, a),
        !(seq_less(a, b) && seq_less(b, a)),
    decreases a.len(),
{
    if a.len() > 0 && b.len() > 0 {
        lemma_seq_less_total(a.drop_first(), b.drop_first());
        if a[0] == b[0] && a.drop_first() == b.drop_first() {
            assert(a =~= seq![a[0]] + a.drop_first());
            assert(b =~= seq![b[0]] + b.drop_first());
        }
    } else if a.len() == 0 && b.len() == 0 {
        assert(a =~= b);
    }
}

/// Whether `a` comes before `b`.
pub fn chars_less(a: &[char], b: &[char]) -> (r: bool)
    ensures
        r == seq_less(a@, b@),
{
    let mut i: usize = 0;
    assert(a@.skip(0) =~= a@);
    assert(b@.skip(0) =~= b@);
    while i < a.len() && i < b.len() && a[i] == b[i]
        invariant
            i <= a@.len(),
            i <= b@.len(),
            seq_less(a@, b@) == seq_less(a@.skip(i as int), b@.skip(i as int)),
        decreases a.len() - i,
    {
        assert(a@.skip(i as int).drop_first() =~= a@.skip(i + 1));
        assert(b@.skip(i as int).drop_first() =~= b@.skip(i + 1));
        i = i + 1;
    }
    if i == a.len() {
        i < b.len()
    } else if i == b.len() {
        false
    } else {
        assert(a@.skip(i as int)[0] == a@[i as int]);
        assert(b@.skip(i as int)[0] == b@[i as int]);
        a[i] < b[i]
    }
}

/// Whether `a` comes before `b`.
pub fn str_less(a: &str, b: &str) -> (r: bool)
    ensures
        r == seq_less(a@, b@),
{
    let av = crate::text::chars_of(a);
    let bv = crate::text::chars_of(b);
    chars_less(av.as_slice(), bv.as_slice())
}

/// Each string comes before the next.
pub open spec fn strictly_sorted(v: Seq<String>) -> bool {
    forall|i: int, j: int| #![trigger v[i], v[j]] 0 <= i < j < v.len() ==> seq_less(v[i]@, v[j]@)
}

/// `a` holds the string `s`.
pub open spec fn holds_string(a: Seq<String>, s: Seq<char>) -> bool {
    exists|i: int| 0 <= i < a.len() && (#[trigger] a[i])@ == s
}

/// `a` and `b` hold the same strings.
pub open spec fn same_strings(a: Seq<String>, b: Seq<String>) -> bool {
    forall|s: Seq<char>| #[trigger] holds_string(a, s) == holds_string(b, s)
}

/// `v` sorted with duplicates removed (`sort` then `dedup`).
pub fn sort_dedup(v: Vec<String>) -> (r: Vec<String>)
    ensures
        strictly_sorted(r@),
        same_strings(r@, v@),
{
    let mut r: Vec<String> = Vec::new();
    let mut k: usize = 0;
    while k < v.len()
        invariant
            k <= v@.len(),
            strictly_sorted(r@),
            forall|s: Seq<char>| #[trigger] holds_string(r@, s) == holds_string(v@.take(k as int), s),
        decreases v.len() - k,
    {
        let s = v[k].clone();
        let mut p: usize = 0;
        while p < r.len() && str_less(r[p].as_str(), s.as_str())
            invariant
                p <= r@.len(),
                forall|i: int| 0 <= i < p ==> seq_less((#[trigger] r@[i])@, s@),
            decreases r.len() - p,
        {
            p = p + 1;
        }
        let dup = p < r.len() && !str_less(s.as_str(), r[p].as_str());
        proof {
            if p < r@.len() {
                lemma_seq_less_total(r@[p as int]@, s@);
            }
        }
        if !dup {
            let ghost before = r@;
            r.insert(p, s);
            proof {
                assert forall|i: int, j: int| #![trigger r@[i], r@[j]] 0 <= i < j < r@.len() implies seq_less(r@[i]@, r@[j]@) by {
                    if j < p {
                        assert(r@[i] == before[i] && r@[j] == before[j]);
                    } else if j == p {
                        assert(r@[i] == before[i]);
                    } else if i == p {
                        assert(r@[j] == before[j - 1]);
                        if j - 1 > p {
                            lemma_seq_less_transitive(s@, before[p as int]@, before[j - 1]@);
                        }
                    } else if i < p {
                        assert(r@[i] == before[i] && r@[j] == before[j - 1]);
                    } else {
                        assert(r@[i] == before[i - 1] && r@[j] == before[j - 1]);
                    }
                }
                let vk = v@.take(k + 1);
                assert forall|t: Seq<char>| #[trigger] holds_string(r@, t) == holds_string(vk, t) by {
                    assert(holds_string(before, t) == holds_string(v@.take(k as int), t));
                    if holds_string(r@, t) {
                        let i = choose|i: int| 0 <= i < r@.len() && (#[trigger] r@[i])@ == t;
                        if i < p {
                            assert(r@[i] == before[i]);
                            let j = choose|j: int| 0 <= j < k && (#[trigger] v@.take(k as int)[j])@ == t;
                            assert(vk[j] == v@.take(k as int)[j]);
                        } else if i == p {
                            assert(vk[k as int]@ == t);
                        } else {
                            assert(r@[i] == before[i - 1]);
                            let j = choose|j: int| 0 <= j < k && (#[trigger] v@.take(k as int)[j])@ == t;
                            assert(vk[j] == v@.take(k as int)[j]);
                        }
                    }
                    if holds_string(vk, t) {
                        let j = choose|j: int| 0 <= j < k + 1 && (#[trigger] vk[j])@ == t;
                        if j == k {
                            assert(r@[p as int]@ == t);
                        } else {
                            assert(v@.take(k as int)[j] == vk[j]);
                            let i = choose|i: int| 0 <= i < before.len() && (#[trigger] before[i])@ == t;
                            if i < p {
                                assert(r@[i] == before[i]);
                            } else {
                                assert(r@[i + 1] == before[i]);
                            }
                        }
                    }
                }
            }
        } else {
            proof {
                assert(r@[p as int]@ == s@);
                let vk = v@.take(k + 1);
                assert forall|t: Seq<char>| #[trigger] holds_string(r@, t) == holds_string(vk, t) by {
                    assert(holds_string(r@, t) == holds_string(v@.take(k as int), t));
                    if holds_string(vk, t) {
                        let j = choose|j: int| 0 <= j < k + 1 && (#[trigger] vk[j])@ == t;
                        if j == k {
                            assert(r@[p as int]@ == t);
                        } else {
                            assert(v@.take(k as int)[j] == vk[j]);
                        }
                    }
                    if holds_string(v@.take(k as int), t) {
                        let j = choose|j: int| 0 <= j < k && (#[trigger] v@.take(k as int)[j])@ == t;
                        assert(vk[j] == v@.take(k as int)[j]);
                    }
                }
            }
        }
        k = k + 1;
    }
    assert(v@.take(v@.len() as int) =~= v@);
    r
}

/// `p` lists every index below `n` once.
pub open spec fn is_permutation(p: Seq<usize>, n: nat) -> bool {
    &&& p.len() == n
    &&& forall|i: int| 0 <= i < p.len() ==> (#[trigger] p[i]) < n
    &&& forall|i: int, j: int| #![trigger p[i], p[j]] 0 <= i < j < p.len() ==> p[i] != p[j]
}

/// `p` orders the keys: no key comes before an earlier one, and equal keys
/// keep their order (a stable sort).
pub open spec fn stably_sorted(keys: Seq<Seq<char>>, p: Seq<usize>) -> bool {
    forall|i: int, j: int|
        #![trigger p[i], p[j]]
        0 <= i < j < p.len() ==> !seq_less(keys[p[j] as int], keys[p[i] as int]) && (keys[p[i] as int]
            == keys[p[j] as int] ==> p[i] < p[j])
}

/// The order in which a stable sort by `keys` puts the items.
pub fn stable_order(keys: &Vec<Vec<char>>) -> (p: Vec<usize>)
    ensures
        is_permutation(p@, keys@.len()),
        stably_sorted(keys@.map_values(|k: Vec<char>| k@), p@),
{
    let ghost ks = keys@.map_values(|k: Vec<char>| k@);
    let mut p: Vec<usize> = Vec::new();
    let mut k: usize = 0;
    while k < keys.len()
        invariant
            k <= keys@.len(),
            ks == keys@.map_values(|k: Vec<char>| k@),
            ks.len() == keys@.len(),
            is_permutation(p@, k as nat),
            stably_sorted(ks, p@),
        decreases keys.len() - k,
    {
        let mut pos: usize = 0;
        while pos < p.len() && !chars_less(keys[k].as_slice(), keys[p[pos]].as_slice())
            invariant
                pos <= p@.len(),
                k < keys@.len(),
                ks == keys@.map_values(|k: Vec<char>| k@),
                is_permutation(p@, k as nat),
                forall|i: int| 0 <= i < pos ==> !seq_less(ks[k as int], ks[(#[trigger] p@[i]) as int]),
            decreases p.len() - pos,
        {
            assert(ks[p@[pos as int] as int] == keys@[p@[pos as int] as int]@);
            assert(ks[k as int] == keys@[k as int]@);
            pos = pos + 1;
        }
        proof {
            if pos < p@.len() {
                assert(ks[p@[pos as int] as int] == keys@[p@[pos as int] as int]@);
                assert(ks[k as int] == keys@[k as int]@);
            }
        }
        let ghost before = p@;
        p.insert(pos, k);
        proof {
            assert forall|i: int| 0 <= i < p@.len() implies (#[trigger] p@[i]) < k + 1 by {
                if i < pos {
                    assert(p@[i] == before[i]);
                } else if i > pos {
                    assert(p@[i] == before[i - 1]);
                }
            }
            assert forall|i: int, j: int| #![trigger p@[i], p@[j]] 0 <= i < j < p@.len() implies p@[i] != p@[j] by {
                if i < pos && j < pos {
                    assert(p@[i] == before[i] && p@[j] == before[j]);
                } else if i < pos && j == pos {
                    assert(p@[i] == before[i]);
                } else if i < pos {
                    assert(p@[i] == before[i] && p@[j] == before[j - 1]);
                } else if i == pos {
                    assert(p@[j] == before[j - 1]);
                } else {
                    assert(p@[i] == before[i - 1] && p@[j] == before[j - 1]);
                }
            }
            assert forall|i: int, j: int|
                #![trigger p@[i], p@[j]]
                0 <= i < j < p@.len() implies !seq_less(ks[p@[j] as int], ks[p@[i] as int]) && (ks[p@[i] as int]
                    == ks[p@[j] as int] ==> p@[i] < p@[j]) by {
                if j < pos {
                    assert(p@[i] == before[i] && p@[j] == before[j]);
                } else if j == pos {
                    assert(p@[i] == before[i]);
                    lemma_seq_less_total(ks[k as int], ks[before[i] as int]);
                } else if i == pos {
                    let b = before[j - 1];
                    assert(p@[j] == b);
                    if j - 1 == pos {
                        lemma_seq_less_total(ks[k as int], ks[b as int]);
                    } else {
                        let c = before[pos as int];
                        lemma_seq_less_total(ks[k as int], ks[c as int]);
                        lemma_seq_less_total(ks[c as int], ks[b as int]);
                        if seq_less(ks[b as int], ks[k as int]) {
                            lemma_seq_less_transitive(ks[c as int], ks[b as int], ks[k as int]);
                        }
                        if ks[k as int] == ks[b as int] {
                            lemma_seq_less_irreflexive(ks[b as int]);
                            if seq_less(ks[c as int], ks[b as int]) {
                            } else {
                            }
                        }
                    }
                } else if i < pos {
                    assert(p@[i] == before[i] && p@[j] == before[j - 1]);
                } else {
                    assert(p@[i] == before[i - 1] && p@[j] == before[j - 1]);
                }
            }
        }
        k = k + 1;
    }
    p
}

} // verus!
