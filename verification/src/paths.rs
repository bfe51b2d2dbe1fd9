//! Paths as the standard library compares and relates them.
use vstd::prelude::*;

verus! {

pub open spec fn opt_string_view(o: Option<String>) -> Option<Seq<char>> {
    match o {
        Some(s) => Some(s@),
        None => None,
    }
}

/// Order of two paths as `Path::cmp` gives it: negative, zero or positive.
pub uninterp spec fn path_order(a: Seq<char>, b: Seq<char>) -> i8;

/// `Path::cmp` on the two paths, as -1, 0 or 1. Claimed: the result is the
/// order named `path_order` of the two paths; as `Ord` for `Path` is a total
/// order consistent with its `Eq`, the result is zero exactly when the paths
/// are equal (a string is equal to itself), comparing the other way round
/// gives the opposite sign, the order is transitive from `a` through `b`,
/// and two equal paths compare alike with every path.
#[verifier::external_body]
pub fn compare_paths(a: &str, b: &str) -> (r: i8)
    ensures
        r == path_order(a@, b@),
        -1 <= r <= 1,
        (r == 0) == (a@ == b@ || path_eq(a@, b@)),
        r == -path_order(b@, a@),
        forall|c: Seq<char>| #![trigger path_order(b@, c)]
            r < 0 && path_order(b@, c) < 0 ==> path_order(a@, c) < 0,
        forall|c: Seq<char>| #![trigger path_order(b@, c)]
            r == 0 ==> path_order(a@, c) == path_order(b@, c),
{
    match std::path::Path::new(a).cmp(std::path::Path::new(b)) {
        std::cmp::Ordering::Less => -1,
        std::cmp::Ordering::Equal => 0,
        std::cmp::Ordering::Greater => 1,
    }
}

/// Each path orders at or before the next, as `Path::cmp` orders them.
pub open spec fn paths_sorted(v: Seq<String>) -> bool {
    forall|i: int| 0 <= i < v.len() - 1 ==> path_order(#[trigger] v[i]@, v[i + 1]@) <= 0
}

/// The paths sorted as `Path::cmp` orders them (a stable insertion sort):
/// the same paths, each at or before the next.
pub fn sort_paths(v: Vec<String>) -> (r: Vec<String>)
    ensures
        r@.to_multiset() == v@.to_multiset(),
        paths_sorted(r@),
{
    let mut r: Vec<String> = Vec::new();
    let mut k: usize = 0;
    proof {
        assert(v@.take(0) =~= r@);
    }
    while k < v.len()
        invariant
            k <= v@.len(),
            r@.to_multiset() == v@.take(k as int).to_multiset(),
            paths_sorted(r@),
        decreases v.len() - k,
    {
        let x = v[k].clone();
        let mut i: usize = 0;
        let mut placed = false;
        while !placed && i < r.len()
            invariant
                i <= r@.len(),
                paths_sorted(r@),
                !placed ==> (i > 0 ==> path_order(r@[i - 1]@, x@) < 0),
                placed ==> i < r@.len() && path_order(x@, r@[i as int]@) <= 0 && (i > 0 ==> path_order(
                    r@[i - 1]@,
                    x@,
                ) < 0),
            decreases r.len() - i + (if placed { 0int } else { 1int }),
        {
            let c = compare_paths(x.as_str(), r[i].as_str());
            if c <= 0 {
                placed = true;
            } else {
                i = i + 1;
            }
        }
        let ghost before = r@;
        proof {
            assert(x == v@[k as int]);
        }
        r.insert(i, x);
        proof {
            assert(r@ == before.insert(i as int, v@[k as int]));
            vstd::seq_lib::to_multiset_insert(before, i as int, v@[k as int]);
            v@.take(k as int).to_multiset_ensures();
            assert(v@.take(k + 1) =~= v@.take(k as int).push(v@[k as int]));
            assert forall|j: int| 0 <= j < r@.len() - 1 implies path_order(#[trigger] r@[j]@, r@[j + 1]@) <= 0 by {
                if j + 1 < i {
                    assert(r@[j] == before[j] && r@[j + 1] == before[j + 1]);
                } else if j + 1 == i {
                    assert(r@[j] == before[j] && r@[j + 1] == v@[k as int]);
                } else if j == i {
                    assert(r@[j + 1] == before[j]);
                } else {
                    assert(r@[j] == before[j - 1] && r@[j + 1] == before[j]);
                }
            }
        }
        k = k + 1;
    }
    assert(v@.take(v@.len() as int) =~= v@);
    r
}

/// What `Path::strip_prefix` leaves of `path` under `cwd`, if it is under it.
pub uninterp spec fn stripped_path(cwd: Seq<char>, path: Seq<char>) -> Option<Seq<char>>;

/// `Path::strip_prefix`, shown as a string. Claimed: the result is the
/// remainder named `stripped_path` of the two paths.
#[verifier::external_body]
pub fn strip_cwd(cwd: &str, path: &str) -> (r: Option<String>)
    ensures
        opt_string_view(r) == stripped_path(cwd@, path@),
{
    match std::path::Path::new(path).strip_prefix(cwd) {
        Ok(rest) => Some(rest.to_string_lossy().into_owned()),
        Err(_) => None,
    }
}

/// What `Path::eq` says of two paths (component by component).
pub uninterp spec fn path_eq(a: Seq<char>, b: Seq<char>) -> bool;

/// Whether two paths are equal as `Path`s: `Path::eq` is an equivalence, so
/// equal strings are equal paths and the order of the two does not matter.
pub open spec fn paths_equal(a: Seq<char>, b: Seq<char>) -> bool {
    a == b || path_eq(a, b) || path_eq(b, a)
}

/// `Path::eq` on the two paths. Claimed: the result is `paths_equal`, that
/// is, the equality named `path_eq`, taken as reflexive and symmetric.
#[verifier::external_body]
pub fn same_path(a: &str, b: &str) -> (r: bool)
    ensures
        r == (a@ == b@ || path_eq(a@, b@) || path_eq(b@, a@)),
{
    std::path::Path::new(a) == std::path::Path::new(b)
}

/// The last component of a path, as `Path::file_name` gives it.
pub uninterp spec fn path_file_name(p: Seq<char>) -> Option<Seq<char>>;

/// `Path::file_name`, shown as a string. Claimed: the result is the name
/// named `path_file_name`.
#[verifier::external_body]
pub(crate) fn file_name_of(p: &str) -> (r: Option<String>)
    ensures
        opt_string_view(r) == path_file_name(p@),
{
    std::path::Path::new(p).file_name().map(|n| n.to_string_lossy().into_owned())
}

/// A relative path's first component when it is a plain name, and the
/// path after it, as `Path::components` splits them.
pub uninterp spec fn leading_name(p: Seq<char>) -> Option<(Seq<char>, Seq<char>)>;

/// The first component of `p` when it is a plain name (not `.`, `..` or
/// a root), with the rest of the path. Claimed: the result is the split
/// named `leading_name`.
#[verifier::external_body]
pub(crate) fn split_leading_name(p: &str) -> (r: Option<(String, String)>)
    ensures
        match r {
            Some((a, b)) => leading_name(p@) == Some((a@, b@)),
            None => leading_name(p@) is None,
        },
{
    let mut components = std::path::Path::new(p).components();
    match components.next() {
        Some(std::path::Component::Normal(first)) => Some((
            first.to_string_lossy().into_owned(),
            components.as_path().to_string_lossy().into_owned(),
        )),
        _ => None,
    }
}

/// Whether `p` starts with the components of `base`, as `Path::starts_with`
/// says.
pub uninterp spec fn path_has_prefix(p: Seq<char>, base: Seq<char>) -> bool;

/// `Path::starts_with`. Claimed: the result is the relation named
/// `path_has_prefix`.
#[verifier::external_body]
pub(crate) fn path_starts_with(p: &str, base: &str) -> (r: bool)
    ensures
        r == path_has_prefix(p@, base@),
{
    std::path::Path::new(p).starts_with(base)
}

} // verus!
