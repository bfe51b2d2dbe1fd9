//! Ranking named items by score: higher scores first, ties by name.
use vstd::prelude::*;
use crate::order::{lemma_seq_less_total, lemma_seq_less_transitive, seq_less, str_less};
use crate::text::strings_view;

verus! {

/// Item `a` ranks before item `b`: a higher score, or the same score and a
/// name that comes first.
pub open spec fn ranks_before(sa: usize, na: Seq<char>, sb: usize, nb: Seq<char>) -> bool {
    sa > sb || (sa == sb && seq_less(na, nb))
}

/// No two items share a name.
pub open spec fn distinct_names(names: Seq<Seq<char>>) -> bool {
    forall|i: int, j: int| 0 <= i < j < names.len() ==> names[i] != names[j]
}

/// `picked` lists the `k` best of the items, best first, with the index of
/// each item once: each ranks before the next, and before every item not
/// picked.
pub open spec fn top_of(scores: Seq<usize>, names: Seq<Seq<char>>, picked: Seq<usize>) -> bool {
    &&& forall|i: int| 0 <= i < picked.len() ==> (#[trigger] picked[i]) < scores.len()
    &&& forall|i: int, j: int| 0 <= i < j < picked.len() ==> ranks_before(
        scores[picked[i] as int],
        names[picked[i] as int],
        scores[picked[j] as int],
        names[picked[j] as int],
    )
    &&& forall|i: int, x: int|
        0 <= i < picked.len() && 0 <= x < scores.len() && !picked.contains(x as usize) ==> ranks_before(
            scores[picked[i] as int],
            names[picked[i] as int],
            scores[x],
            names[x],
        )
}

proof fn lemma_ranks_total(sa: usize, na: Seq<char>, sb: usize, nb: Seq<char>)
    requires
        na != nb,
    ensures
        ranks_before(sa, na, sb, nb) || ranks_before(sb, nb, sa, na),
        !(ranks_before(sa, na, sb, nb) && ranks_before(sb, nb, sa, na)),
{
    lemma_seq_less_total(na, nb);
}

proof fn lemma_ranks_transitive(sa: usize, na: Seq<char>, sb: usize, nb: Seq<char>, sc: usize, nc: Seq<char>)
    requires
        ranks_before(sa, na, sb, nb),
        ranks_before(sb, nb, sc, nc),
    ensures
        ranks_before(sa, na, sc, nc),
{
    if sa == sb && sb == sc {
        lemma_seq_less_transitive(na, nb, nc);
    }
}

proof fn lemma_ranks_irreflexive(s: usize, n: Seq<char>)
    ensures
        !ranks_before(s, n, s, n),
{
    crate::order::lemma_seq_less_irreflexive(n);
}

fn ranks_before_exec(sa: usize, na: &str, sb: usize, nb: &str) -> (b: bool)
    ensures
        b == ranks_before(sa, na@, sb, nb@),
{
    sa > sb || (sa == sb && str_less(na, nb))
}

/// The indices of the `k` best items (all of them where there are fewer),
/// best first.
pub fn top_ranked(scores: &Vec<usize>, names: &Vec<String>, k: usize) -> (r: Vec<usize>)
    requires
        scores@.len() == names@.len(),
        distinct_names(strings_view(names@)),
    ensures
        r@.len() == if k < scores@.len() { k as int } else { scores@.len() as int },
        top_of(scores@, strings_view(names@), r@),
{
    let n = scores.len();
    let ghost nv = strings_view(names@);
    let mut used: Vec<bool> = Vec::new();
    let mut t: usize = 0;
    while t < n
        invariant
            t <= n,
            used@.len() == t,
            forall|i: int| 0 <= i < t ==> !(#[trigger] used@[i]),
        decreases n - t,
    {
        used.push(false);
        t += 1;
    }
    let mut r: Vec<usize> = Vec::new();
    while r.len() < k && r.len() < n
        invariant
            n == scores@.len(),
            n == names@.len(),
            nv == strings_view(names@),
            distinct_names(nv),
            used@.len() == n,
            r@.len() <= n,
            r@.len() <= k,
            forall|x: int| 0 <= x < n ==> (used@[x] <==> r@.contains(x as usize)),
            forall|i: int, j: int| 0 <= i < j < r@.len() ==> r@[i] != r@[j],
            top_of(scores@, nv, r@),
        decreases n - r@.len(),
    {
        proof {
            if forall|x: int| 0 <= x < n ==> used@[x] {
                assert forall|x: usize| 0 <= x < n implies #[trigger] r@.contains(x) by {
                    assert(used@[x as int]);
                }
                lemma_all_used(r@, n as int);
            }
        }
        let mut best: usize = n;
        let mut j: usize = 0;
        while j < n
            invariant
                n == scores@.len(),
                n == names@.len(),
                nv == strings_view(names@),
                distinct_names(nv),
                used@.len() == n,
                j <= n,
                best == n || (best < j && !used@[best as int]),
                forall|x: int| 0 <= x < j && !used@[x] ==> best < n && (x == best || ranks_before(
                    scores@[best as int],
                    nv[best as int],
                    scores@[x],
                    nv[x],
                )),
            decreases n - j,
        {
            if !used[j] {
                if best == n || ranks_before_exec(scores[j], names[j].as_str(), scores[best], names[best].as_str()) {
                    proof {
                        if best < n {
                            assert forall|x: int| 0 <= x < j && !used@[x] implies (x == j || ranks_before(
                                scores@[j as int],
                                nv[j as int],
                                scores@[x],
                                nv[x],
                            )) by {
                                if x != best {
                                    lemma_ranks_transitive(
                                        scores@[j as int],
                                        nv[j as int],
                                        scores@[best as int],
                                        nv[best as int],
                                        scores@[x],
                                        nv[x],
                                    );
                                }
                            }
                        }
                    }
                    best = j;
                } else {
                    proof {
                        assert(nv[j as int] != nv[best as int]);
                        lemma_ranks_total(scores@[j as int], nv[j as int], scores@[best as int], nv[best as int]);
                    }
                }
            }
            j += 1;
        }
        proof {
            let w = choose|x: int| 0 <= x < n && !used@[x];
            assert(best < n);
        }
        let ghost before = r@;
        r.push(best);
        used.set(best, true);
        proof {
            assert forall|x: int| 0 <= x < n implies (used@[x] <==> r@.contains(x as usize)) by {
                if x == best {
                    assert(r@[before.len() as int] == best);
                } else {
                    if before.contains(x as usize) {
                        let q = choose|q: int| 0 <= q < before.len() && before[q] == x as usize;
                        assert(r@[q] == x as usize);
                    }
                    if r@.contains(x as usize) {
                        let q = choose|q: int| 0 <= q < r@.len() && r@[q] == x as usize;
                        assert(q < before.len());
                        assert(before[q] == x as usize);
                    }
                }
            }
            assert forall|i: int, j2: int| 0 <= i < j2 < r@.len() implies r@[i] != r@[j2] by {
                if j2 == before.len() {
                    assert(before.contains(r@[i]));
                }
            }
            assert forall|i: int, j2: int| 0 <= i < j2 < r@.len() implies ranks_before(
                scores@[r@[i] as int],
                nv[r@[i] as int],
                scores@[r@[j2] as int],
                nv[r@[j2] as int],
            ) by {
                if j2 == before.len() {
                    assert(!before.contains(best));
                }
            }
            assert(r@[before.len() as int] == best);
            assert forall|i: int, x: int|
                0 <= i < r@.len() && 0 <= x < n && !r@.contains(x as usize) implies ranks_before(
                scores@[r@[i] as int],
                nv[r@[i] as int],
                scores@[x],
                nv[x],
            ) by {
                assert(x != best);
                assert(!used@[x]);
                if i == before.len() {
                    assert(x != best);
                } else {
                    assert(!before.contains(x as usize)) by {
                        if before.contains(x as usize) {
                            let q = choose|q: int| 0 <= q < before.len() && before[q] == x as usize;
                            assert(r@[q] == x as usize);
                        }
                    }
                }
            }
        }
    }
    r
}

proof fn lemma_all_used(r: Seq<usize>, n: int)
    requires
        0 <= n <= usize::MAX,
        forall|i: int, j: int| 0 <= i < j < r.len() ==> r[i] != r[j],
        forall|x: usize| 0 <= x < n ==> #[trigger] r.contains(x),
    ensures
        r.len() >= n,
{
    assert(r.no_duplicates()) by {
        assert forall|i: int, j: int| 0 <= i < r.len() && 0 <= j < r.len() && i != j implies r[i] != r[j] by {
            if i > j {
                assert(r[j] != r[i]);
            }
        }
    }
    r.unique_seq_to_set();
    lemma_usize_range_len(n);
    let range = Set::new(|x: usize| 0 <= x < n);
    assert(range.subset_of(r.to_set())) by {
        assert forall|x: usize| range.contains(x) implies r.to_set().contains(x) by {
        }
    }
    vstd::set_lib::lemma_len_subset(range, r.to_set());
}

proof fn lemma_usize_range_len(n: int)
    requires
        0 <= n <= usize::MAX,
    ensures
        Set::new(|x: usize| 0 <= x < n).finite(),
        Set::new(|x: usize| 0 <= x < n).len() == n,
    decreases n,
{
    if n == 0 {
        assert(Set::new(|x: usize| 0 <= x < n) =~= Set::<usize>::empty());
    } else {
        lemma_usize_range_len(n - 1);
        assert(!Set::new(|x: usize| 0 <= x < n - 1).contains((n - 1) as usize));
        assert(Set::new(|x: usize| 0 <= x < n) =~= Set::new(|x: usize| 0 <= x < n - 1).insert((n - 1) as usize));
    }
}

} // verus!
