//! The protocol map: which files look central to a wire protocol, which
//! message families occur, and where versions are mentioned, ranked from
//! what file listings and searches found.
use vstd::prelude::*;
use crate::ranking::{distinct_names, top_of, top_ranked};
use crate::read_file::GrepMatch;
use crate::read_pipeline::{
    HotFileEntry, HotFileRecord, HotFileScores, MessageFamilyRecord, VersionClueRecord, entry_index, entry_view,
    lemma_entry_index,
    extract_protocol_tokens, protocol_tokens, scored_with,
};
use crate::text::{self, contains_seq, push_str, str_contains, strings_view, trim, trim_string};

verus! {

/// The lower-case form of a text, as `str::to_lowercase` gives it.
pub uninterp spec fn lowercased(s: Seq<char>) -> Seq<char>;

/// `str::to_lowercase`: claimed to give the text named `lowercased`.
#[verifier::external_body]
fn lowercase(s: &str) -> (r: String)
    ensures
        r@ == lowercased(s@),
{
    s.to_lowercase()
}

/// A reason a file scores: where it was seen, its weight, and why.
pub type HotRecordView = (Seq<char>, nat, Seq<char>);

/// Words in file names that suggest a protocol, each with its weight and reason.
pub open spec fn hot_needles() -> Seq<(Seq<char>, nat, Seq<char>)> {
    seq![
        ("protocol"@, 8nat, "filename suggests protocol spine"@),
        ("communication"@, 8nat, "filename suggests communication schema"@),
        ("message"@, 7nat, "filename suggests message definitions"@),
        ("packet"@, 7nat, "filename suggests packet definitions"@),
        ("rpc"@, 6nat, "filename suggests RPC surface"@),
        ("api"@, 5nat, "filename suggests API boundary"@),
        ("schema"@, 5nat, "filename suggests schema boundary"@),
        ("opcode"@, 6nat, "filename suggests opcode table"@),
        ("wire"@, 5nat, "filename suggests wire format"@),
    ]
}

/// The reasons a file's name gives, for the words in `ns`, in order.
pub open spec fn needle_records(path: Seq<char>, lower: Seq<char>, ns: Seq<(Seq<char>, nat, Seq<char>)>) -> Seq<
    HotRecordView,
>
    decreases ns.len(),
{
    if ns.len() == 0 {
        Seq::empty()
    } else {
        let prev = needle_records(path, lower, ns.drop_last());
        if contains_seq(lower, ns.last().0) {
            prev.push((path, ns.last().1, ns.last().2))
        } else {
            prev
        }
    }
}

/// The reasons the names of the listed files give, in order.
pub open spec fn path_records(paths: Seq<Seq<char>>) -> Seq<HotRecordView>
    decreases paths.len(),
{
    if paths.len() == 0 {
        Seq::empty()
    } else {
        path_records(paths.drop_last()) + needle_records(paths.last(), lowercased(paths.last()), hot_needles())
    }
}

/// A search hit as the contracts speak of it: its path, line and text.
pub open spec fn match_view(m: GrepMatch) -> (Seq<char>, usize, Seq<char>) {
    (m.path@, m.line, m.text@)
}

pub open spec fn matches_view(s: Seq<GrepMatch>) -> Seq<(Seq<char>, usize, Seq<char>)> {
    s.map_values(|m: GrepMatch| match_view(m))
}

/// The reasons search hits give: each hit's file, with the weight, and the
/// reason followed by the hit's trimmed text.
pub open spec fn match_records(ms: Seq<(Seq<char>, usize, Seq<char>)>, weight: nat, reason: Seq<char>) -> Seq<
    HotRecordView,
> {
    ms.map_values(|m: (Seq<char>, usize, Seq<char>)| (m.0, weight, reason + ": "@ + trim(m.2)))
}

/// Every reason, in the order they are taken: file names, then hits of
/// message identifiers, of protocol terms, and of version clues.
pub open spec fn all_records(
    paths: Seq<Seq<char>>,
    families: Seq<(Seq<char>, usize, Seq<char>)>,
    terms: Seq<(Seq<char>, usize, Seq<char>)>,
    versions: Seq<(Seq<char>, usize, Seq<char>)>,
) -> Seq<HotRecordView> {
    path_records(paths) + match_records(families, 10, "contains protocol/message family identifiers"@)
        + match_records(terms, 4, "contains protocol terminology"@) + match_records(
        versions,
        3,
        "contains versioning clues"@,
    )
}

/// The scores after the reasons, taken in order.
pub open spec fn scores_after(recs: Seq<HotRecordView>) -> Seq<(Seq<char>, nat, Seq<Seq<char>>)>
    decreases recs.len(),
{
    if recs.len() == 0 {
        Seq::empty()
    } else {
        let r = recs.last();
        scored_with(scores_after(recs.drop_last()), r.0, r.1, r.2)
    }
}

/// A reason, as it is built.
pub struct HotRecord {
    pub path: String,
    pub weight: usize,
    pub reason: String,
}

pub open spec fn hot_record_view(r: HotRecord) -> HotRecordView {
    (r.path@, r.weight as nat, r.reason@)
}

pub open spec fn hot_records_view(s: Seq<HotRecord>) -> Seq<HotRecordView> {
    s.map_values(|r: HotRecord| hot_record_view(r))
}

fn push_record(v: &mut Vec<HotRecord>, r: HotRecord)
    ensures
        hot_records_view(final(v)@) == hot_records_view(old(v)@).push(hot_record_view(r)),
{
    let ghost before = hot_records_view(v@);
    v.push(r);
    assert(hot_records_view(v@) =~= before.push(hot_record_view(r)));
}

fn needle_table() -> (t: Vec<(&'static str, usize, &'static str)>)
    ensures
        t@.map_values(|n: (&'static str, usize, &'static str)| (n.0@, n.1 as nat, n.2@)) == hot_needles(),
{
    let mut t: Vec<(&'static str, usize, &'static str)> = Vec::new();
    t.push(("protocol", 8, "filename suggests protocol spine"));
    t.push(("communication", 8, "filename suggests communication schema"));
    t.push(("message", 7, "filename suggests message definitions"));
    t.push(("packet", 7, "filename suggests packet definitions"));
    t.push(("rpc", 6, "filename suggests RPC surface"));
    t.push(("api", 5, "filename suggests API boundary"));
    t.push(("schema", 5, "filename suggests schema boundary"));
    t.push(("opcode", 6, "filename suggests opcode table"));
    t.push(("wire", 5, "filename suggests wire format"));
    assert(t@.map_values(|n: (&'static str, usize, &'static str)| (n.0@, n.1 as nat, n.2@)) =~= hot_needles());
    t
}

/// Appends the reasons a file's name gives.
fn push_path_records(out: &mut Vec<HotRecord>, path: &str)
    ensures
        hot_records_view(final(out)@) == hot_records_view(old(out)@) + needle_records(
            path@,
            lowercased(path@),
            hot_needles(),
        ),
{
    let lower = lowercase(path);
    let table = needle_table();
    let ghost ns = hot_needles();
    let ghost start = hot_records_view(out@);
    let mut i: usize = 0;
    assert(ns.take(0) =~= Seq::<(Seq<char>, nat, Seq<char>)>::empty());
    assert(start + Seq::<HotRecordView>::empty() =~= start);
    while i < table.len()
        invariant
            i <= table@.len(),
            table@.map_values(|n: (&'static str, usize, &'static str)| (n.0@, n.1 as nat, n.2@)) == ns,
            lower@ == lowercased(path@),
            hot_records_view(out@) == start + needle_records(path@, lower@, ns.take(i as int)),
        decreases table@.len() - i,
    {
        assert(ns.take(i + 1).drop_last() =~= ns.take(i as int));
        assert(ns.take(i + 1).last() == ns[i as int]);
        let (needle, weight, reason) = table[i];
        if str_contains(lower.as_str(), needle) {
            let ghost before = hot_records_view(out@);
            push_record(out, HotRecord { path: String::from_str(path), weight, reason: String::from_str(reason) });
            assert(hot_records_view(out@) =~= start + needle_records(path@, lower@, ns.take(i + 1)));
        }
        i += 1;
    }
    assert(ns.take(table@.len() as int) =~= ns);
}

/// Appends the reasons search hits give.
fn push_match_records(out: &mut Vec<HotRecord>, ms: &Vec<GrepMatch>, weight: usize, reason: &str)
    ensures
        hot_records_view(final(out)@) == hot_records_view(old(out)@) + match_records(
            matches_view(ms@),
            weight as nat,
            reason@,
        ),
{
    let ghost mv = matches_view(ms@);
    let ghost start = hot_records_view(out@);
    let mut i: usize = 0;
    assert(start + match_records(mv.take(0), weight as nat, reason@) =~= start);
    while i < ms.len()
        invariant
            i <= ms@.len(),
            mv == matches_view(ms@),
            hot_records_view(out@) == start + match_records(mv.take(i as int), weight as nat, reason@),
        decreases ms@.len() - i,
    {
        let mut why = String::from_str(reason);
        push_str(&mut why, ": ");
        let trimmed = trim_string(ms[i].text.as_str());
        push_str(&mut why, trimmed.as_str());
        let ghost before = hot_records_view(out@);
        push_record(out, HotRecord { path: ms[i].path.clone(), weight, reason: why });
        assert(match_records(mv.take(i + 1), weight as nat, reason@) =~= match_records(
            mv.take(i as int),
            weight as nat,
            reason@,
        ).push((mv[i as int].0, weight as nat, reason@ + ": "@ + trim(mv[i as int].2))));
        assert(hot_records_view(out@) =~= start + match_records(mv.take(i + 1), weight as nat, reason@));
        i += 1;
    }
    assert(mv.take(ms@.len() as int) =~= mv);
}

/// The reasons found, in the order they are taken.
pub fn collect_hot_records(
    paths: &Vec<String>,
    families: &Vec<GrepMatch>,
    terms: &Vec<GrepMatch>,
    versions: &Vec<GrepMatch>,
) -> (r: Vec<HotRecord>)
    ensures
        hot_records_view(r@) == all_records(
            strings_view(paths@),
            matches_view(families@),
            matches_view(terms@),
            matches_view(versions@),
        ),
{
    let mut out: Vec<HotRecord> = Vec::new();
    let ghost pv = strings_view(paths@);
    let mut i: usize = 0;
    assert(hot_records_view(out@) =~= path_records(pv.take(0)));
    while i < paths.len()
        invariant
            i <= paths@.len(),
            pv == strings_view(paths@),
            hot_records_view(out@) == path_records(pv.take(i as int)),
        decreases paths@.len() - i,
    {
        assert(pv.take(i + 1).drop_last() =~= pv.take(i as int));
        assert(pv.take(i + 1).last() == paths@[i as int]@);
        push_path_records(&mut out, paths[i].as_str());
        i += 1;
    }
    assert(pv.take(paths@.len() as int) =~= pv);
    push_match_records(&mut out, families, 10, "contains protocol/message family identifiers");
    push_match_records(&mut out, terms, 4, "contains protocol terminology");
    push_match_records(&mut out, versions, 3, "contains versioning clues");
    assert(hot_records_view(out@) =~= all_records(
        pv,
        matches_view(families@),
        matches_view(terms@),
        matches_view(versions@),
    ));
    out
}


/// No two scored files share a path.
pub open spec fn distinct_paths(es: Seq<(Seq<char>, nat, Seq<Seq<char>>)>) -> bool {
    forall|i: int, j: int| 0 <= i < j < es.len() ==> es[i].0 != es[j].0
}

proof fn lemma_scored_with_keeps(es: Seq<(Seq<char>, nat, Seq<Seq<char>>)>, path: Seq<char>, w: nat, reason: Seq<char>, b: nat)
    requires
        distinct_paths(es),
        forall|i: int| 0 <= i < es.len() ==> (#[trigger] es[i]).1 <= b,
        w <= 10,
    ensures
        distinct_paths(scored_with(es, path, w, reason)),
        forall|i: int|
            0 <= i < scored_with(es, path, w, reason).len() ==> (#[trigger] scored_with(es, path, w, reason)[i]).1
                <= b + 10,
{
    lemma_entry_index(es, path);
    let n = scored_with(es, path, w, reason);
    match entry_index(es, path) {
        Some(k) => {
            assert forall|i: int, j: int| 0 <= i < j < n.len() implies n[i].0 != n[j].0 by {
                assert(n[i].0 == es[i].0 && n[j].0 == es[j].0);
            }
            assert forall|i: int| 0 <= i < n.len() implies (#[trigger] n[i]).1 <= b + 10 by {
                if i != k {
                    assert(n[i] == es[i]);
                }
            }
        },
        None => {
            assert forall|i: int, j: int| 0 <= i < j < n.len() implies n[i].0 != n[j].0 by {
                if j == es.len() {
                    assert(n[i] == es[i]);
                } else {
                    assert(n[i] == es[i] && n[j] == es[j]);
                }
            }
            assert forall|i: int| 0 <= i < n.len() implies (#[trigger] n[i]).1 <= b + 10 by {
                if i < es.len() {
                    assert(n[i] == es[i]);
                }
            }
        },
    }
}

/// The total weight the reasons give to `p`.
pub open spec fn weight_of(recs: Seq<HotRecordView>, p: Seq<char>) -> nat
    decreases recs.len(),
{
    if recs.len() == 0 {
        0
    } else {
        weight_of(recs.drop_last(), p) + if recs.last().0 == p { recs.last().1 } else { 0 }
    }
}

/// Some reason is about `p`.
pub open spec fn has_reason_for(recs: Seq<HotRecordView>, p: Seq<char>) -> bool
    decreases recs.len(),
{
    recs.len() > 0 && (recs.last().0 == p || has_reason_for(recs.drop_last(), p))
}

/// No reason is listed twice.
pub open spec fn no_repeated_reason(rs: Seq<Seq<char>>) -> bool {
    forall|i: int, j: int| 0 <= i < j < rs.len() ==> rs[i] != rs[j]
}

proof fn lemma_weight_without_reason(recs: Seq<HotRecordView>, p: Seq<char>)
    requires
        !has_reason_for(recs, p),
    ensures
        weight_of(recs, p) == 0,
    decreases recs.len(),
{
    if recs.len() > 0 {
        lemma_weight_without_reason(recs.drop_last(), p);
    }
}

/// After the reasons, each file appears once, with the sum of its reasons'
/// weights and its reasons without repeats; the files are exactly those
/// some reason is about.
pub proof fn lemma_scores_after(recs: Seq<HotRecordView>)
    ensures
        distinct_paths(scores_after(recs)),
        forall|i: int|
            0 <= i < scores_after(recs).len() ==> (#[trigger] scores_after(recs)[i]).1 == weight_of(
                recs,
                scores_after(recs)[i].0,
            ) && no_repeated_reason(scores_after(recs)[i].2),
        forall|p: Seq<char>| (#[trigger] entry_index(scores_after(recs), p) is Some) == has_reason_for(recs, p),
    decreases recs.len(),
{
    if recs.len() > 0 {
        let init = recs.drop_last();
        let r = recs.last();
        lemma_scores_after(init);
        let es = scores_after(init);
        let n = scores_after(recs);
        assert(n == scored_with(es, r.0, r.1, r.2));
        lemma_entry_index(es, r.0);
        match entry_index(es, r.0) {
            Some(k) => {
                assert forall|i: int, j: int| 0 <= i < j < n.len() implies n[i].0 != n[j].0 by {
                    assert(n[i].0 == es[i].0 && n[j].0 == es[j].0);
                }
                assert forall|i: int| 0 <= i < n.len() implies (#[trigger] n[i]).1 == weight_of(recs, n[i].0)
                    && no_repeated_reason(n[i].2) by {
                    if i != k {
                        assert(n[i] == es[i]);
                        assert(es[i].0 != r.0);
                    } else {
                        let rs = es[k].2;
                        if !rs.contains(r.2) {
                            assert forall|a: int, b: int| 0 <= a < b < rs.push(r.2).len() implies rs.push(r.2)[a]
                                != rs.push(r.2)[b] by {
                                if b == rs.len() {
                                    assert(rs.push(r.2)[a] == rs[a]);
                                }
                            }
                        }
                    }
                }
                assert forall|p: Seq<char>| (#[trigger] entry_index(n, p) is Some) == has_reason_for(recs, p) by {
                    lemma_entry_index(n, p);
                    lemma_entry_index(es, p);
                    match entry_index(es, p) {
                        Some(x) => assert(n[x].0 == p),
                        None => {},
                    }
                    match entry_index(n, p) {
                        Some(x) => assert(es[x].0 == p),
                        None => {},
                    }
                }
            },
            None => {
                assert(!has_reason_for(init, r.0));
                lemma_weight_without_reason(init, r.0);
                assert forall|i: int, j: int| 0 <= i < j < n.len() implies n[i].0 != n[j].0 by {
                    if j == es.len() {
                        assert(n[i] == es[i]);
                    } else {
                        assert(n[i] == es[i] && n[j] == es[j]);
                    }
                }
                assert forall|i: int| 0 <= i < n.len() implies (#[trigger] n[i]).1 == weight_of(recs, n[i].0)
                    && no_repeated_reason(n[i].2) by {
                    if i < es.len() {
                        assert(n[i] == es[i]);
                        assert(es[i].0 != r.0);
                    }
                }
                assert forall|p: Seq<char>| (#[trigger] entry_index(n, p) is Some) == has_reason_for(recs, p) by {
                    lemma_entry_index(n, p);
                    lemma_entry_index(es, p);
                    match entry_index(es, p) {
                        Some(x) => assert(n[x].0 == p),
                        None => {},
                    }
                    match entry_index(n, p) {
                        Some(x) => if x < es.len() {
                            assert(es[x].0 == p);
                        },
                        None => {},
                    }
                }
            },
        }
    }
}

/// The hot files come out best first (higher score, then lower path), each
/// file once, each scored with the sum of its reasons' weights and listing
/// its reasons without repeats; only files that some reason is about are
/// scored, and each of them is.
pub proof fn lemma_hot_files_ranked(recs: Seq<HotRecordView>, picked: Seq<usize>)
    requires
        top_of(score_list(scores_after(recs)), path_list(scores_after(recs)), picked),
    ensures
        ({
            let es = scores_after(recs);
            let h = picked.map_values(|x: usize| es[x as int]);
            &&& forall|i: int, j: int|
                0 <= i < j < h.len() ==> crate::ranking::ranks_before(h[i].1 as usize, h[i].0, h[j].1 as usize, h[j].0)
            &&& forall|i: int, j: int| 0 <= i < j < h.len() ==> h[i].0 != h[j].0
            &&& forall|i: int|
                0 <= i < h.len() ==> (#[trigger] h[i]).1 == weight_of(recs, h[i].0) && no_repeated_reason(h[i].2)
            &&& forall|p: Seq<char>| (#[trigger] entry_index(es, p) is Some) == has_reason_for(recs, p)
            &&& distinct_paths(es)
        }),
{
    lemma_scores_after(recs);
    let es = scores_after(recs);
    let h = picked.map_values(|x: usize| es[x as int]);
    assert forall|i: int, j: int| 0 <= i < j < h.len() implies crate::ranking::ranks_before(
        h[i].1 as usize,
        h[i].0,
        h[j].1 as usize,
        h[j].0,
    ) by {
        assert(score_list(es)[picked[i] as int] == es[picked[i] as int].1 as usize);
        assert(score_list(es)[picked[j] as int] == es[picked[j] as int].1 as usize);
        assert(path_list(es)[picked[i] as int] == es[picked[i] as int].0);
        assert(path_list(es)[picked[j] as int] == es[picked[j] as int].0);
    }
    assert forall|i: int, j: int| 0 <= i < j < h.len() implies h[i].0 != h[j].0 by {
        assert(path_list(es)[picked[i] as int] == es[picked[i] as int].0);
        assert(path_list(es)[picked[j] as int] == es[picked[j] as int].0);
        if h[i].0 == h[j].0 {
            crate::order::lemma_seq_less_irreflexive(h[i].0);
            assert(picked[i] < es.len() && picked[j] < es.len());
            if picked[i] != picked[j] {
                if picked[i] < picked[j] {
                    assert(es[picked[i] as int].0 != es[picked[j] as int].0);
                } else {
                    assert(es[picked[j] as int].0 != es[picked[i] as int].0);
                }
            }
        }
    }
}

proof fn lemma_needle_records(path: Seq<char>, lower: Seq<char>, ns: Seq<(Seq<char>, nat, Seq<char>)>)
    requires
        forall|k: int| 0 <= k < ns.len() ==> (#[trigger] ns[k]).1 <= 10,
    ensures
        needle_records(path, lower, ns).len() <= ns.len(),
        forall|i: int|
            0 <= i < needle_records(path, lower, ns).len() ==> (#[trigger] needle_records(path, lower, ns)[i]).1 <= 10,
    decreases ns.len(),
{
    if ns.len() > 0 {
        assert forall|k: int| 0 <= k < ns.drop_last().len() implies (#[trigger] ns.drop_last()[k]).1 <= 10 by {
            assert(ns.drop_last()[k] == ns[k]);
        }
        lemma_needle_records(path, lower, ns.drop_last());
    }
}

proof fn lemma_path_records(paths: Seq<Seq<char>>)
    ensures
        path_records(paths).len() <= 9 * paths.len(),
        forall|i: int| 0 <= i < path_records(paths).len() ==> (#[trigger] path_records(paths)[i]).1 <= 10,
    decreases paths.len(),
{
    if paths.len() > 0 {
        lemma_path_records(paths.drop_last());
        lemma_needle_records(paths.last(), lowercased(paths.last()), hot_needles());
        let a = path_records(paths.drop_last());
        let b = needle_records(paths.last(), lowercased(paths.last()), hot_needles());
        assert forall|i: int| 0 <= i < (a + b).len() implies (#[trigger] (a + b)[i]).1 <= 10 by {
            if i < a.len() {
                assert((a + b)[i] == a[i]);
            } else {
                assert((a + b)[i] == b[i - a.len()]);
            }
        }
    }
}

proof fn lemma_all_records(
    paths: Seq<Seq<char>>,
    f: Seq<(Seq<char>, usize, Seq<char>)>,
    t: Seq<(Seq<char>, usize, Seq<char>)>,
    v: Seq<(Seq<char>, usize, Seq<char>)>,
)
    ensures
        all_records(paths, f, t, v).len() <= 9 * paths.len() + f.len() + t.len() + v.len(),
        forall|i: int| 0 <= i < all_records(paths, f, t, v).len() ==> (#[trigger] all_records(paths, f, t, v)[i]).1 <= 10,
{
    lemma_path_records(paths);
    let a = path_records(paths);
    let b = match_records(f, 10, "contains protocol/message family identifiers"@);
    let c = match_records(t, 4, "contains protocol terminology"@);
    let d = match_records(v, 3, "contains versioning clues"@);
    assert forall|i: int| 0 <= i < (a + b + c + d).len() implies (#[trigger] (a + b + c + d)[i]).1 <= 10 by {
        if i < a.len() {
            assert((a + b + c + d)[i] == a[i]);
        } else if i < a.len() + b.len() {
            assert((a + b + c + d)[i] == b[i - a.len()]);
        } else if i < a.len() + b.len() + c.len() {
            assert((a + b + c + d)[i] == c[i - a.len() - b.len()]);
        } else {
            assert((a + b + c + d)[i] == d[i - a.len() - b.len() - c.len()]);
        }
    }
}

/// A hot file as the contracts speak of it.
pub open spec fn hot_file_view(r: HotFileRecord) -> (Seq<char>, nat, Seq<Seq<char>>) {
    (r.path@, r.score as nat, strings_view(r.reasons@))
}

/// The scores of scored files.
pub open spec fn score_list(es: Seq<(Seq<char>, nat, Seq<Seq<char>>)>) -> Seq<usize> {
    es.map_values(|e: (Seq<char>, nat, Seq<Seq<char>>)| e.1 as usize)
}

/// The paths of scored files.
pub open spec fn path_list(es: Seq<(Seq<char>, nat, Seq<Seq<char>>)>) -> Seq<Seq<char>> {
    es.map_values(|e: (Seq<char>, nat, Seq<Seq<char>>)| e.0)
}

/// At least one.
pub open spec fn at_least_one(limit: usize) -> usize {
    if limit < 1 { 1 } else { limit }
}

/// The files most likely to define the protocol: each listed file scores
/// for the protocol words in its (lower-cased) name, and each search hit
/// scores for its file with its reason; the `limit` best (at least one)
/// come out, highest score first, ties by path.
pub fn build_protocol_hot_files(
    paths: &Vec<String>,
    families: &Vec<GrepMatch>,
    terms: &Vec<GrepMatch>,
    versions: &Vec<GrepMatch>,
    limit: usize,
) -> (r: Vec<HotFileRecord>)
    requires
        (9 * paths@.len() + families@.len() + terms@.len() + versions@.len()) * 10 <= usize::MAX,
    ensures
        ({
            let es = scores_after(
                all_records(strings_view(paths@), matches_view(families@), matches_view(terms@), matches_view(versions@)),
            );
            exists|picked: Seq<usize>|
                {
                    &&& picked.len() == if at_least_one(limit) < es.len() { at_least_one(limit) as int } else { es.len() as int }
                    &&& top_of(score_list(es), path_list(es), picked)
                    &&& r@.map_values(|h: HotFileRecord| hot_file_view(h)) == picked.map_values(|p: usize| es[p as int])
                }
        }),
{
    let recs = collect_hot_records(paths, families, terms, versions);
    let ghost rv = hot_records_view(recs@);
    proof {
        lemma_all_records(strings_view(paths@), matches_view(families@), matches_view(terms@), matches_view(versions@));
    }
    let mut scores = HotFileScores { entries: Vec::new() };
    assert(scores.view() =~= scores_after(rv.take(0)));
    let mut i: usize = 0;
    while i < recs.len()
        invariant
            i <= recs@.len(),
            rv == hot_records_view(recs@),
            recs@.len() * 10 <= usize::MAX,
            forall|k: int| 0 <= k < rv.len() ==> (#[trigger] rv[k]).1 <= 10,
            scores.view() == scores_after(rv.take(i as int)),
            distinct_paths(scores.view()),
            forall|k: int| 0 <= k < scores.view().len() ==> (#[trigger] scores.view()[k]).1 <= 10 * i,
        decreases recs@.len() - i,
    {
        assert(rv.take(i + 1).drop_last() =~= rv.take(i as int));
        assert(rv.take(i + 1).last() == rv[i as int]);
        assert(rv[i as int].1 <= 10);
        proof {
            lemma_entry_index(scores.view(), recs@[i as int].path@);
            lemma_scored_with_keeps(scores.view(), rv[i as int].0, rv[i as int].1, rv[i as int].2, (10 * i) as nat);
        }
        scores.record_hot_file_reason(recs[i].path.as_str(), recs[i].weight, recs[i].reason.as_str());
        i += 1;
    }
    assert(rv.take(recs@.len() as int) =~= rv);
    let ghost es = scores.view();
    let mut score_vec: Vec<usize> = Vec::new();
    let mut names: Vec<String> = Vec::new();
    let mut j: usize = 0;
    while j < scores.entries.len()
        invariant
            j <= scores.entries@.len(),
            es == scores.view(),
            score_vec@.len() == j,
            strings_view(names@) == path_list(es).take(j as int),
            forall|k: int| 0 <= k < j ==> score_vec@[k] == es[k].1,
        decreases scores.entries@.len() - j,
    {
        score_vec.push(scores.entries[j].score);
        let ghost before = names@;
        let p = scores.entries[j].path.clone();
        assert(es[j as int].0 == scores.entries@[j as int].path@);
        names.push(p);
        assert(strings_view(names@) =~= strings_view(before).push(p@));
        assert(path_list(es).take(j + 1) =~= path_list(es).take(j as int).push(es[j as int].0));
        j += 1;
    }
    assert(strings_view(names@) =~= path_list(es));
    assert(score_vec@ =~= score_list(es));
    let picked = top_ranked(&score_vec, &names, at_least_one_exec(limit));
    let mut out: Vec<HotFileRecord> = Vec::new();
    let mut q: usize = 0;
    while q < picked.len()
        invariant
            q <= picked@.len(),
            es == scores.view(),
            top_of(score_list(es), path_list(es), picked@),
            out@.map_values(|h: HotFileRecord| hot_file_view(h)) == picked@.take(q as int).map_values(
                |p: usize| es[p as int],
            ),
        decreases picked@.len() - q,
    {
        let e = &scores.entries[picked[q]];
        let rec = HotFileRecord { path: e.path.clone(), score: e.score, reasons: e.reasons.clone() };
        assert(strings_view(rec.reasons@) =~= strings_view(e.reasons@));
        assert(hot_file_view(rec) == es[picked@[q as int] as int]);
        let ghost before = out@;
        out.push(rec);
        assert(out@.map_values(|h: HotFileRecord| hot_file_view(h)) =~= before.map_values(
            |h: HotFileRecord| hot_file_view(h),
        ).push(hot_file_view(rec)));
        assert(picked@.take(q + 1).map_values(|p: usize| es[p as int]) =~= picked@.take(q as int).map_values(
            |p: usize| es[p as int],
        ).push(es[picked@[q as int] as int]));
        q += 1;
    }
    assert(picked@.take(picked@.len() as int) =~= picked@);
    out
}

fn at_least_one_exec(limit: usize) -> (r: usize)
    ensures
        r == at_least_one(limit),
{
    if limit < 1 { 1 } else { limit }
}


/// The family of a message token: its part before the first underscore.
pub open spec fn family_of(token: Seq<char>) -> Seq<char> {
    match text::find_char(token, '_') {
        Some(i) => token.take(i),
        None => token,
    }
}

fn family_name(token: &str) -> (r: String)
    ensures
        r@ == family_of(token@),
{
    let v = text::chars_of(token);
    proof {
        text::lemma_find_char(v@, '_');
    }
    match text::find_char_from(v.as_slice(), '_', 0) {
        Some(i) => {
            proof {
                text::lemma_find_char_unique(v@, '_', i as int);
            }
            let head = text::sub_chars(v.as_slice(), 0, i);
            assert(head@ =~= v@.take(i as int));
            text::string_of(head.as_slice())
        },
        None => {
            assert(text::find_char(v@, '_') is None);
            text::string_of(v.as_slice())
        },
    }
}

/// Examples kept per family, at most.
pub const MAX_FAMILY_EXAMPLES: usize = 6;

/// A family as the contracts speak of it: its name, count and examples.
pub type FamilyView = (Seq<char>, nat, Seq<Seq<char>>);

/// Where the family `name` is.
pub open spec fn family_index(fs: Seq<FamilyView>, name: Seq<char>) -> Option<int>
    decreases fs.len(),
{
    if fs.len() == 0 {
        None
    } else if fs.last().0 == name {
        Some(fs.len() - 1)
    } else {
        family_index(fs.drop_last(), name)
    }
}

proof fn lemma_family_index(fs: Seq<FamilyView>, name: Seq<char>)
    ensures
        family_index(fs, name) matches Some(i) ==> 0 <= i < fs.len() && fs[i].0 == name,
        family_index(fs, name) is None ==> forall|j: int| 0 <= j < fs.len() ==> fs[j].0 != name,
    decreases fs.len(),
{
    if fs.len() > 0 {
        lemma_family_index(fs.drop_last(), name);
        if fs.last().0 != name {
            assert forall|j: int| 0 <= j < fs.len() - 1 implies fs[j] == fs.drop_last()[j] by {}
        }
    }
}

/// The families after one more token: its family counts it, and keeps it
/// as an example if it has fewer than six and not this one.
pub open spec fn counted_with(fs: Seq<FamilyView>, token: Seq<char>) -> Seq<FamilyView> {
    let name = family_of(token);
    match family_index(fs, name) {
        Some(i) => fs.update(
            i,
            (
                name,
                fs[i].1 + 1,
                if fs[i].2.len() < MAX_FAMILY_EXAMPLES && !fs[i].2.contains(token) {
                    fs[i].2.push(token)
                } else {
                    fs[i].2
                },
            ),
        ),
        None => fs.push((name, 1, seq![token])),
    }
}

/// The families after the tokens, taken in order.
pub open spec fn families_after(tokens: Seq<Seq<char>>) -> Seq<FamilyView>
    decreases tokens.len(),
{
    if tokens.len() == 0 {
        Seq::empty()
    } else {
        counted_with(families_after(tokens.drop_last()), tokens.last())
    }
}

/// The message tokens of the hits, in order.
pub open spec fn hit_tokens(ms: Seq<(Seq<char>, usize, Seq<char>)>) -> Seq<Seq<char>>
    decreases ms.len(),
{
    if ms.len() == 0 {
        Seq::empty()
    } else {
        hit_tokens(ms.drop_last()) + protocol_tokens(ms.last().2)
    }
}

fn collect_hit_tokens(ms: &Vec<GrepMatch>) -> (r: Vec<String>)
    ensures
        strings_view(r@) == hit_tokens(matches_view(ms@)),
{
    let ghost mv = matches_view(ms@);
    let mut r: Vec<String> = Vec::new();
    let mut i: usize = 0;
    assert(strings_view(r@) =~= hit_tokens(mv.take(0)));
    while i < ms.len()
        invariant
            i <= ms@.len(),
            mv == matches_view(ms@),
            strings_view(r@) == hit_tokens(mv.take(i as int)),
        decreases ms@.len() - i,
    {
        assert(mv.take(i + 1).drop_last() =~= mv.take(i as int));
        assert(mv.take(i + 1).last() == mv[i as int]);
        let tokens = extract_protocol_tokens(ms[i].text.as_str());
        let ghost start = strings_view(r@);
        let mut k: usize = 0;
        assert(start + strings_view(tokens@).take(0) =~= start);
        while k < tokens.len()
            invariant
                k <= tokens@.len(),
                strings_view(r@) == start + strings_view(tokens@).take(k as int),
            decreases tokens@.len() - k,
        {
            let ghost before = r@;
            let t = tokens[k].clone();
            r.push(t);
            assert(strings_view(r@) =~= strings_view(before).push(t@));
            assert(strings_view(tokens@).take(k + 1) =~= strings_view(tokens@).take(k as int).push(tokens@[k as int]@));
            k += 1;
        }
        assert(strings_view(tokens@).take(tokens@.len() as int) =~= strings_view(tokens@));
        i += 1;
    }
    assert(mv.take(ms@.len() as int) =~= mv);
    r
}

/// A family as the contracts speak of it.
pub open spec fn family_view(f: MessageFamilyRecord) -> FamilyView {
    (f.name@, f.count as nat, strings_view(f.examples@))
}

pub open spec fn families_view(s: Seq<MessageFamilyRecord>) -> Seq<FamilyView> {
    s.map_values(|f: MessageFamilyRecord| family_view(f))
}

fn find_family(fs: &Vec<MessageFamilyRecord>, name: &str) -> (r: Option<usize>)
    ensures
        match r {
            Some(i) => family_index(families_view(fs@), name@) == Some(i as int),
            None => family_index(families_view(fs@), name@) is None,
        },
{
    let ghost v = families_view(fs@);
    let mut k: usize = fs.len();
    assert(v.take(k as int) =~= v);
    while k > 0
        invariant
            k <= fs@.len(),
            v == families_view(fs@),
            family_index(v, name@) == family_index(v.take(k as int), name@),
        decreases k,
    {
        assert(v.take(k as int).drop_last() =~= v.take(k - 1));
        assert(v.take(k as int).last() == v[k - 1]);
        if str_equal_text(fs[k - 1].name.as_str(), name) {
            return Some(k - 1);
        }
        k -= 1;
    }
    assert(v.take(0) =~= Seq::<FamilyView>::empty());
    None
}

fn str_equal_text(a: &str, b: &str) -> (r: bool)
    ensures
        r == (a@ == b@),
{
    text::str_equal(a, b)
}

fn contains_text(v: &Vec<String>, s: &str) -> (b: bool)
    ensures
        b == strings_view(v@).contains(s@),
{
    let mut i: usize = 0;
    while i < v.len()
        invariant
            i <= v@.len(),
            forall|j: int| 0 <= j < i ==> v@[j]@ != s@,
        decreases v@.len() - i,
    {
        if text::str_equal(v[i].as_str(), s) {
            assert(strings_view(v@)[i as int] == s@);
            return true;
        }
        i += 1;
    }
    assert(!strings_view(v@).contains(s@)) by {
        if strings_view(v@).contains(s@) {
            let k = choose|k: int| 0 <= k < strings_view(v@).len() && strings_view(v@)[k] == s@;
            assert(v@[k]@ == s@);
        }
    }
    false
}

/// Counts one more token into its family.
fn count_token(fs: &mut Vec<MessageFamilyRecord>, token: &str)
    requires
        forall|j: int| 0 <= j < old(fs)@.len() ==> (#[trigger] old(fs)@[j]).count < usize::MAX,
    ensures
        families_view(final(fs)@) == counted_with(families_view(old(fs)@), token@),
{
    let ghost before = families_view(fs@);
    let name = family_name(token);
    proof {
        lemma_family_index(before, name@);
    }
    match find_family(fs, name.as_str()) {
        Some(i) => {
            let f = &fs[i];
            let mut examples = f.examples.clone();
            assert(strings_view(examples@) =~= strings_view(f.examples@));
            if examples.len() < MAX_FAMILY_EXAMPLES && !contains_text(&examples, token) {
                let ghost e0 = strings_view(examples@);
                examples.push(String::from_str(token));
                assert(strings_view(examples@) =~= e0.push(token@));
            }
            let updated = MessageFamilyRecord { name: f.name.clone(), count: f.count + 1, examples };
            let ghost uv = family_view(updated);
            fs.set(i, updated);
            assert(families_view(fs@) =~~= counted_with(before, token@));
        },
        None => {
            let mut examples: Vec<String> = Vec::new();
            examples.push(String::from_str(token));
            let fresh = MessageFamilyRecord { name, count: 1, examples };
            assert(strings_view(fresh.examples@) =~= seq![token@]);
            fs.push(fresh);
            assert(families_view(fs@) =~~= before.push((family_of(token@), 1nat, seq![token@])));
        },
    }
}

/// No two families share a name.
pub open spec fn distinct_families(fs: Seq<FamilyView>) -> bool {
    forall|i: int, j: int| 0 <= i < j < fs.len() ==> fs[i].0 != fs[j].0
}

proof fn lemma_counted_keeps(fs: Seq<FamilyView>, token: Seq<char>, b: nat)
    requires
        distinct_families(fs),
        forall|i: int| 0 <= i < fs.len() ==> (#[trigger] fs[i]).1 <= b,
    ensures
        distinct_families(counted_with(fs, token)),
        forall|i: int| 0 <= i < counted_with(fs, token).len() ==> (#[trigger] counted_with(fs, token)[i]).1 <= b + 1,
{
    let name = family_of(token);
    lemma_family_index(fs, name);
    let n = counted_with(fs, token);
    match family_index(fs, name) {
        Some(k) => {
            assert forall|i: int, j: int| 0 <= i < j < n.len() implies n[i].0 != n[j].0 by {
                assert(n[i].0 == fs[i].0 && n[j].0 == fs[j].0);
            }
            assert forall|i: int| 0 <= i < n.len() implies (#[trigger] n[i]).1 <= b + 1 by {
                if i != k {
                    assert(n[i] == fs[i]);
                }
            }
        },
        None => {
            assert forall|i: int, j: int| 0 <= i < j < n.len() implies n[i].0 != n[j].0 by {
                if j == fs.len() {
                    assert(n[i] == fs[i]);
                } else {
                    assert(n[i] == fs[i] && n[j] == fs[j]);
                }
            }
            assert forall|i: int| 0 <= i < n.len() implies (#[trigger] n[i]).1 <= b + 1 by {
                if i < fs.len() {
                    assert(n[i] == fs[i]);
                }
            }
        },
    }
}

/// The counts of families.
pub open spec fn family_counts(fs: Seq<FamilyView>) -> Seq<usize> {
    fs.map_values(|f: FamilyView| f.1 as usize)
}

/// The names of families.
pub open spec fn family_names(fs: Seq<FamilyView>) -> Seq<Seq<char>> {
    fs.map_values(|f: FamilyView| f.0)
}

/// The message families the hits show: each protocol token of a hit
/// counts for its family (the part before its first underscore), which
/// keeps up to six distinct examples; the `limit` most frequent families (at
/// least one) come out, most frequent first, ties by name.
pub fn discover_message_families(ms: &Vec<GrepMatch>, limit: usize) -> (r: Vec<MessageFamilyRecord>)
    ensures
        ({
            let fs = families_after(hit_tokens(matches_view(ms@)));
            exists|picked: Seq<usize>|
                {
                    &&& picked.len() == if at_least_one(limit) < fs.len() { at_least_one(limit) as int } else { fs.len() as int }
                    &&& top_of(family_counts(fs), family_names(fs), picked)
                    &&& families_view(r@) == picked.map_values(|p: usize| fs[p as int])
                }
        }),
{
    let tokens = collect_hit_tokens(ms);
    let ghost tv = strings_view(tokens@);
    let mut fs: Vec<MessageFamilyRecord> = Vec::new();
    assert(families_view(fs@) =~= families_after(tv.take(0)));
    let mut i: usize = 0;
    while i < tokens.len()
        invariant
            i <= tokens@.len(),
            tv == strings_view(tokens@),
            families_view(fs@) == families_after(tv.take(i as int)),
            distinct_families(families_view(fs@)),
            forall|k: int| 0 <= k < fs@.len() ==> (#[trigger] fs@[k]).count <= i,
        decreases tokens@.len() - i,
    {
        assert(tv.take(i + 1).drop_last() =~= tv.take(i as int));
        assert(tv.take(i + 1).last() == tokens@[i as int]@);
        proof {
            assert forall|k: int| 0 <= k < families_view(fs@).len() implies (#[trigger] families_view(fs@)[k]).1
                <= i by {
                assert(families_view(fs@)[k].1 == fs@[k].count);
            }
            lemma_counted_keeps(families_view(fs@), tokens@[i as int]@, i as nat);
        }
        count_token(&mut fs, tokens[i].as_str());
        proof {
            let n = families_view(fs@);
            assert forall|k: int| 0 <= k < fs@.len() implies (#[trigger] fs@[k]).count <= i + 1 by {
                assert(n[k].1 == fs@[k].count);
            }
        }
        i += 1;
    }
    assert(tv.take(tokens@.len() as int) =~= tv);
    let ghost fv = families_view(fs@);
    let mut counts: Vec<usize> = Vec::new();
    let mut names: Vec<String> = Vec::new();
    let mut j: usize = 0;
    while j < fs.len()
        invariant
            j <= fs@.len(),
            fv == families_view(fs@),
            counts@.len() == j,
            strings_view(names@) == family_names(fv).take(j as int),
            forall|k: int| 0 <= k < j ==> counts@[k] == fv[k].1,
        decreases fs@.len() - j,
    {
        counts.push(fs[j].count);
        let ghost before = names@;
        let p = fs[j].name.clone();
        names.push(p);
        assert(strings_view(names@) =~= strings_view(before).push(p@));
        assert(family_names(fv).take(j + 1) =~= family_names(fv).take(j as int).push(fv[j as int].0));
        j += 1;
    }
    assert(strings_view(names@) =~= family_names(fv));
    assert(counts@ =~= family_counts(fv));
    let picked = top_ranked(&counts, &names, at_least_one_exec(limit));
    let mut out: Vec<MessageFamilyRecord> = Vec::new();
    let mut q: usize = 0;
    while q < picked.len()
        invariant
            q <= picked@.len(),
            fv == families_view(fs@),
            top_of(family_counts(fv), family_names(fv), picked@),
            families_view(out@) == picked@.take(q as int).map_values(|p: usize| fv[p as int]),
        decreases picked@.len() - q,
    {
        let f = &fs[picked[q]];
        let rec = MessageFamilyRecord { name: f.name.clone(), count: f.count, examples: f.examples.clone() };
        assert(strings_view(rec.examples@) =~= strings_view(f.examples@));
        let ghost before = out@;
        out.push(rec);
        assert(families_view(out@) =~= families_view(before).push(family_view(rec)));
        assert(picked@.take(q + 1).map_values(|p: usize| fv[p as int]) =~= picked@.take(q as int).map_values(
            |p: usize| fv[p as int],
        ).push(fv[picked@[q as int] as int]));
        q += 1;
    }
    assert(picked@.take(picked@.len() as int) =~= picked@);
    out
}

/// A version clue as the contracts speak of it.
pub open spec fn clue_view(c: VersionClueRecord) -> (Seq<char>, usize, Seq<char>) {
    (c.path@, c.line, c.text@)
}

/// The first `limit` version hits (at least one), as clues.
pub fn discover_version_clues(ms: &Vec<GrepMatch>, limit: usize) -> (r: Vec<VersionClueRecord>)
    ensures
        r@.map_values(|c: VersionClueRecord| clue_view(c)) == matches_view(ms@).take(
            if at_least_one(limit) < ms@.len() { at_least_one(limit) as int } else { ms@.len() as int },
        ),
{
    let n = if at_least_one_exec(limit) < ms.len() { at_least_one_exec(limit) } else { ms.len() };
    let ghost mv = matches_view(ms@);
    let mut r: Vec<VersionClueRecord> = Vec::new();
    let mut i: usize = 0;
    while i < n
        invariant
            i <= n <= ms@.len(),
            mv == matches_view(ms@),
            r@.map_values(|c: VersionClueRecord| clue_view(c)) == mv.take(i as int),
        decreases n - i,
    {
        let c = VersionClueRecord { path: ms[i].path.clone(), line: ms[i].line, text: ms[i].text.clone() };
        let ghost before = r@;
        r.push(c);
        assert(r@.map_values(|c: VersionClueRecord| clue_view(c)) =~= before.map_values(
            |c: VersionClueRecord| clue_view(c),
        ).push(clue_view(c)));
        assert(mv.take(i + 1) =~= mv.take(i as int).push(mv[i as int]));
        i += 1;
    }
    r
}

/// The evidence lines of the best files: for each of the first eight, each
/// reason, as `path :: reason`.
pub open spec fn evidence_lines(hot: Seq<(Seq<char>, nat, Seq<Seq<char>>)>) -> Seq<Seq<char>>
    decreases hot.len(),
{
    if hot.len() == 0 {
        Seq::empty()
    } else {
        let h = hot.last();
        evidence_lines(hot.drop_last()) + h.2.map_values(|reason: Seq<char>| h.0 + " :: "@ + reason)
    }
}

/// The evidence lines of a protocol map.
pub fn protocol_map_evidence(hot_files: &Vec<HotFileRecord>) -> (r: Vec<String>)
    ensures
        strings_view(r@) == evidence_lines(
            hot_files@.map_values(|h: HotFileRecord| hot_file_view(h)).take(
                if hot_files@.len() < 8 { hot_files@.len() as int } else { 8 },
            ),
        ),
{
    let n = if hot_files.len() < 8 { hot_files.len() } else { 8 };
    let ghost hv = hot_files@.map_values(|h: HotFileRecord| hot_file_view(h));
    let mut r: Vec<String> = Vec::new();
    let mut i: usize = 0;
    assert(strings_view(r@) =~= evidence_lines(hv.take(0)));
    while i < n
        invariant
            i <= n <= hot_files@.len(),
            hv == hot_files@.map_values(|h: HotFileRecord| hot_file_view(h)),
            strings_view(r@) == evidence_lines(hv.take(i as int)),
        decreases n - i,
    {
        assert(hv.take(i + 1).drop_last() =~= hv.take(i as int));
        assert(hv.take(i + 1).last() == hv[i as int]);
        let h = &hot_files[i];
        let ghost start = strings_view(r@);
        let ghost reasons = strings_view(h.reasons@);
        let mut k: usize = 0;
        assert(start + reasons.take(0).map_values(|reason: Seq<char>| h.path@ + " :: "@ + reason) =~= start);
        while k < h.reasons.len()
            invariant
                k <= h.reasons@.len(),
                reasons == strings_view(h.reasons@),
                strings_view(r@) == start + reasons.take(k as int).map_values(
                    |reason: Seq<char>| h.path@ + " :: "@ + reason,
                ),
            decreases h.reasons@.len() - k,
        {
            let mut line = h.path.clone();
            push_str(&mut line, " :: ");
            push_str(&mut line, h.reasons[k].as_str());
            let ghost before = r@;
            r.push(line);
            assert(strings_view(r@) =~= strings_view(before).push(line@));
            assert(reasons.take(k + 1).map_values(|reason: Seq<char>| h.path@ + " :: "@ + reason) =~= reasons.take(
                k as int,
            ).map_values(|reason: Seq<char>| h.path@ + " :: "@ + reason).push(h.path@ + " :: "@ + reasons[k as int]));
            k += 1;
        }
        assert(reasons.take(h.reasons@.len() as int) =~= reasons);
        i += 1;
    }
    r
}

} // verus!
