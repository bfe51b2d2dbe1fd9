//! The `edit` tool: a batch of structured file operations (create, delete,
//! move, replace, insert before or after an anchor) is applied to working
//! copies of the files it touches and compiled into one patch.
use vstd::prelude::*;
use crate::text;
use crate::error::FunctionCallError;
use crate::error::respond;
use crate::error::respond_with;
use crate::paths::compare_paths;
use crate::paths::same_path;
use crate::paths::strip_cwd;
use crate::paths;

verus! {

broadcast use vstd::slice::group_slice_axioms;

/// One operation of an edit.
pub enum EditOperation {
    Create { path: String, content: String, overwrite: Option<bool> },
    Delete { path: String, ignore_missing: Option<bool> },
    Move { from: String, to: String, overwrite: Option<bool> },
    Replace {
        path: String,
        old: String,
        new: String,
        replace_all: Option<bool>,
        expected_replacements: Option<usize>,
    },
    InsertBefore {
        path: String,
        anchor: String,
        content: String,
        insert_all: Option<bool>,
        expected_occurrences: Option<usize>,
    },
    InsertAfter {
        path: String,
        anchor: String,
        content: String,
        insert_all: Option<bool>,
        expected_occurrences: Option<usize>,
    },
}

/// What reading a path from disk gave: the error of a failed read, or the
/// file's text (`None` when no file exists there).
pub struct DiskFile {
    pub path: String,
    pub content: Option<String>,
    pub error: Option<String>,
}

/// A file the edit touches: its text before the edit and now (`None` when
/// the file does not exist).
pub struct WorkingFile {
    pub path: String,
    pub original_content: Option<String>,
    pub current_content: Option<String>,
}

/// The model of a working file.
pub struct FileState {
    pub path: Seq<char>,
    pub original: Option<Seq<char>>,
    pub current: Option<Seq<char>>,
}

/// Where an insertion goes relative to its anchor.
#[derive(Clone, Copy, PartialEq, Eq, Structural)]
pub enum InsertPosition {
    Before,
    After,
}

pub open spec fn opt_view(o: Option<String>) -> Option<Seq<char>> {
    match o {
        Some(s) => Some(s@),
        None => None,
    }
}

pub open spec fn file_state(f: WorkingFile) -> FileState {
    FileState { path: f.path@, original: opt_view(f.original_content), current: opt_view(f.current_content) }
}

pub open spec fn files_view(v: Seq<WorkingFile>) -> Seq<FileState> {
    v.map_values(|f: WorkingFile| file_state(f))
}

/// `raw` resolved against `cwd` as `Path::join` does: an absolute path
/// stands for itself, a relative one is appended after a separator.
pub open spec fn joined_path(cwd: Seq<char>, raw: Seq<char>) -> Seq<char> {
    if raw.len() > 0 && raw[0] == '/' {
        raw
    } else if cwd.len() == 0 || cwd.last() == '/' {
        cwd + raw
    } else {
        cwd + seq!['/'] + raw
    }
}

/// A path of the edit resolved against the working directory.
pub fn resolve_path(cwd: &str, raw: &str) -> (p: String)
    ensures
        p@ == joined_path(cwd@, raw@),
{
    let r = text::chars_of(raw);
    if r.len() > 0 && r[0] == '/' {
        return text::string_of(r.as_slice());
    }
    let mut v = text::chars_of(cwd);
    if !(v.len() == 0 || v[v.len() - 1] == '/') {
        v.push('/');
    }
    text::extend_chars(&mut v, r.as_slice());
    text::string_of(v.as_slice())
}

/// How a patch names a path: relative to `cwd` when under it.
pub open spec fn shown_path(cwd: Seq<char>, p: Seq<char>) -> Seq<char> {
    match paths::stripped_path(cwd, p) {
        Some(r) => r,
        None => p,
    }
}

/// The path as the patch shows it.
pub fn display_path(cwd: &str, path: &str) -> (s: String)
    ensures
        s@ == shown_path(cwd@, path@),
{
    match strip_cwd(cwd, path) {
        Some(r) => r,
        None => path.to_owned(),
    }
}

/// What reading `p` gave, from the first disk entry for that path; a path
/// with no entry holds no file.
pub open spec fn disk_lookup(disk: Seq<DiskFile>, p: Seq<char>, i: int) -> Result<Option<Seq<char>>, Seq<char>>
    decreases disk.len() - i,
{
    if i < 0 || i >= disk.len() {
        Ok(None)
    } else if paths::path_order(disk[i].path@, p) == 0 {
        match disk[i].error {
            Some(e) => Err(e@),
            None => Ok(opt_view(disk[i].content)),
        }
    } else {
        disk_lookup(disk, p, i + 1)
    }
}

/// Where `p` is in the working set (kept in path order): whether it is
/// there, and its index or the index it is inserted at.
pub open spec fn locate(files: Seq<FileState>, p: Seq<char>, i: int) -> (bool, int)
    decreases files.len() - i,
{
    if i < 0 || i >= files.len() {
        (false, files.len() as int)
    } else if paths::path_order(p, files[i].path) == 0 {
        (true, i)
    } else if paths::path_order(p, files[i].path) < 0 {
        (false, i)
    } else {
        locate(files, p, i + 1)
    }
}

/// The working set with `p` loaded, and its index; loading reads the disk.
pub open spec fn ensure_loaded(files: Seq<FileState>, disk: Seq<DiskFile>, p: Seq<char>) -> Result<(Seq<FileState>, int), Seq<char>> {
    let (found, i) = locate(files, p, 0);
    if found {
        Ok((files, i))
    } else {
        match disk_lookup(disk, p, 0) {
            Err(e) => Err("failed to read "@ + p + ": "@ + e),
            Ok(c) => Ok((files.insert(i, FileState { path: p, original: c, current: c }), i)),
        }
    }
}

/// The working set with the current text of file `i` set to `c`.
pub open spec fn with_current(files: Seq<FileState>, i: int, c: Option<Seq<char>>) -> Seq<FileState> {
    files.update(i, FileState { current: c, ..files[i] })
}

pub open spec fn flag(b: Option<bool>) -> bool {
    match b {
        Some(x) => x,
        None => false,
    }
}

/// The count check of a replace or insert: `expected`, when given, must be
/// the count found.
pub open spec fn match_count_check(actual: nat, expected: Option<usize>, context: Seq<char>) -> Result<(), Seq<char>> {
    match expected {
        Some(e) => if e != actual {
            Err(context + " expected "@ + text::decimal(e as nat) + " matches but found "@ + text::decimal(actual))
        } else {
            Ok(())
        },
        None => Ok(()),
    }
}

/// A replacement with `replace_all` replaces every occurrence of `old`: the
/// text changes in length by `new.len() - old.len()` once per occurrence;
/// without it, only once.
pub proof fn lemma_replace_counts(
    current: Seq<char>,
    old: Seq<char>,
    new: Seq<char>,
    all: bool,
    expected: Option<usize>,
    p: Seq<char>,
)
    requires
        old.len() > 0,
    ensures
        all ==> (replaced(current, old, new, all, expected, p) matches Ok(r) ==> r.len() == current.len()
            + text::count_matches(current, old) * (new.len() - old.len())),
        !all ==> (replaced(current, old, new, all, expected, p) matches Ok(r) ==> r.len() == current.len()
            + new.len() - old.len()),
{
    text::lemma_replace_all_len(current, old, new);
    text::lemma_first_occurrence_from(current, old, 0);
    if text::count_matches(current, old) > 0 {
        lemma_count_positive_occurs(current, old);
    }
}

/// `content` inserted before or after the first, or every, occurrence of
/// `anchor` in `current`.
pub open spec fn inserted(
    current: Seq<char>,
    anchor: Seq<char>,
    content: Seq<char>,
    position: InsertPosition,
    insert_all: bool,
    expected: Option<usize>,
    p: Seq<char>,
) -> Result<Seq<char>, Seq<char>> {
    let n = text::count_matches(current, anchor);
    match match_count_check(n, expected, "insert in "@ + p) {
        Err(e) => Err(e),
        Ok(_) => if n == 0 {
            Err("insert anchor not found in "@ + p)
        } else if insert_all {
            match position {
                InsertPosition::Before => Ok(text::replace_all(current, anchor, content + anchor)),
                InsertPosition::After => Ok(text::replace_all(current, anchor, anchor + content)),
            }
        } else {
            match text::first_occurrence(current, anchor) {
                None => Err("insert anchor not found in "@ + p),
                Some(i) => match position {
                    InsertPosition::Before => Ok(current.take(i) + content + current.skip(i)),
                    InsertPosition::After => Ok(
                        current.take(i + anchor.len()) + content + current.skip(i + anchor.len()),
                    ),
                },
            }
        },
    }
}

/// `old` replaced by `new` in `current`, at its first or every occurrence.
pub open spec fn replaced(
    current: Seq<char>,
    old: Seq<char>,
    new: Seq<char>,
    all: bool,
    expected: Option<usize>,
    p: Seq<char>,
) -> Result<Seq<char>, Seq<char>> {
    let n = text::count_matches(current, old);
    match match_count_check(n, expected, "replace in "@ + p) {
        Err(e) => Err(e),
        Ok(_) => if n == 0 {
            Err("replace did not find target text in "@ + p)
        } else if all {
            Ok(text::replace_all(current, old, new))
        } else {
            Ok(text::replace_first(current, old, new))
        },
    }
}

/// The text of file `i` changed by `f`, or the error `missing`.
pub open spec fn change_current(
    files: Seq<FileState>,
    i: int,
    missing: Seq<char>,
    changed: spec_fn(Seq<char>) -> Result<Seq<char>, Seq<char>>,
) -> Result<Seq<FileState>, Seq<char>> {
    match files[i].current {
        None => Err(missing),
        Some(cur) => match changed(cur) {
            Err(e) => Err(e),
            Ok(c) => Ok(with_current(files, i, Some(c))),
        },
    }
}

/// The working set after one operation, or the error that stops the edit.
pub open spec fn apply_op(files: Seq<FileState>, disk: Seq<DiskFile>, cwd: Seq<char>, op: EditOperation) -> Result<Seq<FileState>, Seq<char>> {
    match op {
        EditOperation::Create { path, content, overwrite } => {
            if content@.len() == 0 {
                Err("edit cannot create an empty file at "@ + path@ + "; use at least one newline-terminated line"@)
            } else {
                let p = joined_path(cwd, path@);
                match ensure_loaded(files, disk, p) {
                    Err(e) => Err(e),
                    Ok((fs, i)) => if fs[i].current is Some && !flag(overwrite) {
                        Err("create would overwrite existing file "@ + p)
                    } else {
                        Ok(with_current(fs, i, Some(content@)))
                    },
                }
            }
        },
        EditOperation::Delete { path, ignore_missing } => {
            let p = joined_path(cwd, path@);
            match ensure_loaded(files, disk, p) {
                Err(e) => Err(e),
                Ok((fs, i)) => if fs[i].current is None && !flag(ignore_missing) {
                    Err("delete target does not exist: "@ + p)
                } else {
                    Ok(with_current(fs, i, None))
                },
            }
        },
        EditOperation::Move { from, to, overwrite } => {
            let f = joined_path(cwd, from@);
            let t = joined_path(cwd, to@);
            if paths::paths_equal(f, t) {
                Ok(files)
            } else {
                match ensure_loaded(files, disk, f) {
                    Err(e) => Err(e),
                    Ok((f1, i)) => match f1[i].current {
                        None => Err("move source does not exist: "@ + f),
                        Some(src) => match ensure_loaded(f1, disk, t) {
                            Err(e) => Err(e),
                            Ok((f2, j)) => if f2[j].current is Some && !flag(overwrite) {
                                Err("move destination already exists: "@ + t)
                            } else {
                                let f3 = with_current(f2, j, Some(src));
                                match ensure_loaded(f3, disk, f) {
                                    Err(e) => Err(e),
                                    Ok((f4, k)) => Ok(with_current(f4, k, None)),
                                }
                            },
                        },
                    },
                }
            }
        },
        EditOperation::Replace { path, old, new, replace_all, expected_replacements } => {
            let p = joined_path(cwd, path@);
            match ensure_loaded(files, disk, p) {
                Err(e) => Err(e),
                Ok((fs, i)) => change_current(
                    fs,
                    i,
                    "replace target does not exist: "@ + p,
                    |cur: Seq<char>| replaced(cur, old@, new@, flag(replace_all), expected_replacements, p),
                ),
            }
        },
        EditOperation::InsertBefore { path, anchor, content, insert_all, expected_occurrences } => {
            let p = joined_path(cwd, path@);
            match ensure_loaded(files, disk, p) {
                Err(e) => Err(e),
                Ok((fs, i)) => change_current(
                    fs,
                    i,
                    "insert_before target does not exist: "@ + p,
                    |cur: Seq<char>|
                        inserted(
                            cur,
                            anchor@,
                            content@,
                            InsertPosition::Before,
                            flag(insert_all),
                            expected_occurrences,
                            p,
                        ),
                ),
            }
        },
        EditOperation::InsertAfter { path, anchor, content, insert_all, expected_occurrences } => {
            let p = joined_path(cwd, path@);
            match ensure_loaded(files, disk, p) {
                Err(e) => Err(e),
                Ok((fs, i)) => change_current(
                    fs,
                    i,
                    "insert_after target does not exist: "@ + p,
                    |cur: Seq<char>|
                        inserted(
                            cur,
                            anchor@,
                            content@,
                            InsertPosition::After,
                            flag(insert_all),
                            expected_occurrences,
                            p,
                        ),
                ),
            }
        },
    }
}

/// A positive count of matches means the pattern occurs somewhere.
proof fn lemma_count_positive_occurs(s: Seq<char>, p: Seq<char>)
    requires
        text::count_matches(s, p) > 0,
    ensures
        text::first_occurrence(s, p) is Some,
    decreases s.len(),
{
    text::lemma_first_occurrence_from(s, p, 0);
    if p.len() == 0 {
        assert(s.subrange(0, 0) =~= p);
        assert(text::occurs_at(s, p, 0));
    } else if s.take(p.len() as int) == p {
        assert(s.subrange(0, p.len() as int) =~= s.take(p.len() as int));
        assert(text::occurs_at(s, p, 0));
    } else {
        let t = s.drop_first();
        lemma_count_positive_occurs(t, p);
        text::lemma_first_occurrence_from(t, p, 0);
        let k = text::first_occurrence(t, p).unwrap();
        assert(t.subrange(k, k + p.len()) =~= s.subrange(k + 1, k + 1 + p.len()));
        assert(text::occurs_at(s, p, k + 1));
    }
}

/// An insertion is refused exactly when the anchor does not occur or occurs
/// another number of times than expected; otherwise the content goes before
/// or after every occurrence, or only the first one.
pub proof fn lemma_insert_around_anchor(
    current: Seq<char>,
    anchor: Seq<char>,
    content: Seq<char>,
    position: InsertPosition,
    insert_all: bool,
    expected: Option<usize>,
    p: Seq<char>,
)
    ensures
        ({
            let k = text::count_matches(current, anchor);
            let r = inserted(current, anchor, content, position, insert_all, expected, p);
            &&& (r is Err) == (k == 0 || (expected matches Some(e) && e != k))
            &&& r matches Ok(out) ==> (insert_all && position == InsertPosition::Before ==> out == text::replace_all(
                current,
                anchor,
                content + anchor,
            ))
            &&& r matches Ok(out) ==> (insert_all && position == InsertPosition::After ==> out == text::replace_all(
                current,
                anchor,
                anchor + content,
            ))
            &&& match r {
                Ok(out) => !insert_all ==> match text::first_occurrence(current, anchor) {
                    Some(i) => (position == InsertPosition::Before ==> out == current.take(i) + content + current.skip(
                        i,
                    )) && (position == InsertPosition::After ==> out == current.take(i + anchor.len()) + content
                        + current.skip(i + anchor.len())),
                    None => false,
                },
                Err(_) => true,
            }
        }),
{
    if text::count_matches(current, anchor) > 0 {
        lemma_count_positive_occurs(current, anchor);
    }
}

/// Looking a path up in the working set reads the paths only: changing a
/// file's current text does not move where a path is found.
proof fn lemma_locate_ignores_current(files: Seq<FileState>, p: Seq<char>, k: int, j: int, c: Option<Seq<char>>)
    requires
        0 <= j < files.len(),
    ensures
        locate(with_current(files, j, c), p, k) == locate(files, p, k),
    decreases files.len() - k,
{
    let g = with_current(files, j, c);
    assert(g.len() == files.len());
    if 0 <= k < files.len() {
        assert(g[k].path == files[k].path);
        lemma_locate_ignores_current(files, p, k + 1, j, c);
    }
}

/// A move between two files the working set already holds, with a source
/// that exists and a destination that may be written, succeeds without
/// reading the disk: between equal paths it changes nothing; otherwise the
/// destination takes the source's text and the source is gone, and every
/// other file and every original text stay as they were.
pub proof fn lemma_move_within_working_set(
    files: Seq<FileState>,
    disk: Seq<DiskFile>,
    cwd: Seq<char>,
    from: String,
    to: String,
    overwrite: Option<bool>,
)
    requires
        locate(files, joined_path(cwd, from@), 0).0,
        locate(files, joined_path(cwd, to@), 0).0,
        files[locate(files, joined_path(cwd, from@), 0).1].current is Some,
        files[locate(files, joined_path(cwd, to@), 0).1].current is None || flag(overwrite),
    ensures
        ({
            let f = joined_path(cwd, from@);
            let t = joined_path(cwd, to@);
            let i = locate(files, f, 0).1;
            let j = locate(files, t, 0).1;
            let op = EditOperation::Move { from, to, overwrite };
            &&& paths::paths_equal(f, t) ==> apply_op(files, disk, cwd, op) == Ok::<Seq<FileState>, Seq<char>>(files)
            &&& !paths::paths_equal(f, t) ==> apply_op(files, disk, cwd, op) == Ok::<Seq<FileState>, Seq<char>>(
                with_current(with_current(files, j, files[i].current), i, None),
            )
            &&& (!paths::paths_equal(f, t) && i != j) ==> (apply_op(files, disk, cwd, op) matches Ok(g) && g.len()
                == files.len() && g[j].current == files[i].current && g[i].current is None && forall|k: int|
                0 <= k < files.len() ==> (#[trigger] g[k]).path == files[k].path && g[k].original == files[k].original
                    && (k != i && k != j ==> g[k] == files[k]))
        }),
{
    let f = joined_path(cwd, from@);
    let t = joined_path(cwd, to@);
    let i = locate(files, f, 0).1;
    let j = locate(files, t, 0).1;
    lemma_locate_found_in_range(files, f, 0);
    lemma_locate_found_in_range(files, t, 0);
    lemma_locate_ignores_current(files, f, 0, j, files[i].current);
}

/// A path found in the working set is found at one of its files.
proof fn lemma_locate_found_in_range(files: Seq<FileState>, p: Seq<char>, k: int)
    requires
        locate(files, p, k).0,
    ensures
        0 <= locate(files, p, k).1 < files.len(),
    decreases files.len() - k,
{
    if 0 <= k < files.len() && paths::path_order(p, files[k].path) > 0 {
        lemma_locate_found_in_range(files, p, k + 1);
    }
}

/// The working set once `p` is loaded, or as it was when loading fails.
pub open spec fn loaded_files(files: Seq<FileState>, disk: Seq<DiskFile>, p: Seq<char>) -> Seq<FileState> {
    match ensure_loaded(files, disk, p) {
        Ok((fs, _)) => fs,
        Err(_) => files,
    }
}

/// The working set an operation leaves when it is refused: the files it
/// loaded before the refusal stay loaded, and nothing else changed (for a
/// move refused at its last step, the destination already holds the text).
pub open spec fn files_on_error(files: Seq<FileState>, disk: Seq<DiskFile>, cwd: Seq<char>, op: EditOperation) -> Seq<FileState> {
    match op {
        EditOperation::Create { path, content, overwrite } => if content@.len() == 0 {
            files
        } else {
            loaded_files(files, disk, joined_path(cwd, path@))
        },
        EditOperation::Delete { path, ignore_missing } => loaded_files(files, disk, joined_path(cwd, path@)),
        EditOperation::Move { from, to, overwrite } => {
            let f = joined_path(cwd, from@);
            let t = joined_path(cwd, to@);
            match ensure_loaded(files, disk, f) {
                Err(_) => files,
                Ok((f1, i)) => match f1[i].current {
                    None => f1,
                    Some(src) => match ensure_loaded(f1, disk, t) {
                        Err(_) => f1,
                        Ok((f2, j)) => if f2[j].current is Some && !flag(overwrite) {
                            f2
                        } else {
                            with_current(f2, j, Some(src))
                        },
                    },
                },
            }
        },
        EditOperation::Replace { path, .. } => loaded_files(files, disk, joined_path(cwd, path@)),
        EditOperation::InsertBefore { path, .. } => loaded_files(files, disk, joined_path(cwd, path@)),
        EditOperation::InsertAfter { path, .. } => loaded_files(files, disk, joined_path(cwd, path@)),
    }
}

/// The working set after the operations in order, or the first error.
pub open spec fn apply_all(files: Seq<FileState>, disk: Seq<DiskFile>, cwd: Seq<char>, ops: Seq<EditOperation>) -> Result<Seq<FileState>, Seq<char>>
    decreases ops.len(),
{
    if ops.len() == 0 {
        Ok(files)
    } else {
        match apply_op(files, disk, cwd, ops[0]) {
            Err(e) => Err(e),
            Ok(fs) => apply_all(fs, disk, cwd, ops.drop_first()),
        }
    }
}

/// `a` followed by `b`.
fn concat(a: &str, b: &str) -> (r: String)
    ensures
        r@ == a@ + b@,
{
    let mut v = text::chars_of(a);
    let w = text::chars_of(b);
    text::extend_chars(&mut v, w.as_slice());
    text::string_of(v.as_slice())
}

fn clone_opt(o: &Option<String>) -> (r: Option<String>)
    ensures
        opt_view(r) == opt_view(*o),
{
    match o {
        Some(s) => Some(s.clone()),
        None => None,
    }
}

/// What reading `p` gave, as recorded in `disk`.
fn lookup_disk(disk: &[DiskFile], p: &str) -> (r: Result<Option<String>, String>)
    ensures
        match r {
            Ok(c) => disk_lookup(disk@, p@, 0) == Ok::<Option<Seq<char>>, Seq<char>>(opt_view(c)),
            Err(e) => disk_lookup(disk@, p@, 0) == Err::<Option<Seq<char>>, Seq<char>>(e@),
        },
{
    let mut i: usize = 0;
    while i < disk.len()
        invariant
            i <= disk@.len(),
            disk_lookup(disk@, p@, 0) == disk_lookup(disk@, p@, i as int),
        decreases disk.len() - i,
    {
        if compare_paths(disk[i].path.as_str(), p) == 0 {
            return match &disk[i].error {
                Some(e) => Err(e.clone()),
                None => Ok(clone_opt(&disk[i].content)),
            };
        }
        i = i + 1;
    }
    Ok(None)
}

/// Whether `p` is in the working set, and its index or insertion index.
fn locate_file(files: &Vec<WorkingFile>, p: &str) -> (r: (bool, usize))
    ensures
        (r.0, r.1 as int) == locate(files_view(files@), p@, 0),
        r.1 <= files@.len(),
        r.0 ==> r.1 < files@.len(),
{
    let ghost fv = files_view(files@);
    let mut i: usize = 0;
    while i < files.len()
        invariant
            i <= files@.len(),
            fv == files_view(files@),
            fv.len() == files@.len(),
            locate(fv, p@, 0) == locate(fv, p@, i as int),
        decreases files.len() - i,
    {
        assert(fv[i as int] == file_state(files@[i as int]));
        let c = compare_paths(p, files[i].path.as_str());
        if c == 0 {
            return (true, i);
        }
        if c < 0 {
            return (false, i);
        }
        i = i + 1;
    }
    (false, i)
}

/// Loads `p` into the working set, reading it from `disk` if it is not
/// there yet; returns its index.
fn load_file(files: &mut Vec<WorkingFile>, disk: &[DiskFile], p: &str) -> (r: Result<usize, FunctionCallError>)
    ensures
        match r {
            Ok(i) => ensure_loaded(files_view(old(files)@), disk@, p@) == Ok::<(Seq<FileState>, int), Seq<char>>(
                (files_view(final(files)@), i as int),
            ) && i < final(files)@.len(),
            Err(e) => ensure_loaded(files_view(old(files)@), disk@, p@) == Err::<(Seq<FileState>, int), Seq<char>>(e.message())
                && final(files)@ == old(files)@,
        },
{
    let (found, i) = locate_file(files, p);
    if found {
        return Ok(i);
    }
    match lookup_disk(disk, p) {
        Err(e) => {
            let m = concat("failed to read ", p);
            let m = concat(m.as_str(), ": ");
            let m = concat(m.as_str(), e.as_str());
            Err(respond_with(m))
        },
        Ok(c) => {
            let ghost before = files_view(files@);
            let wf = WorkingFile { path: p.to_owned(), original_content: clone_opt(&c), current_content: c };
            files.insert(i, wf);
            proof {
                let want = before.insert(i as int, FileState { path: p@, original: opt_view(c), current: opt_view(c) });
                assert(files_view(files@) =~= want);
            }
            Ok(i)
        },
    }
}

/// Sets the current text of file `i`.
fn set_current(files: &mut Vec<WorkingFile>, i: usize, c: Option<String>)
    requires
        i < old(files)@.len(),
    ensures
        files_view(final(files)@) == with_current(files_view(old(files)@), i as int, opt_view(c)),
        final(files)@.len() == old(files)@.len(),
{
    let ghost before = files_view(files@);
    let f = files.remove(i);
    let nf = WorkingFile { path: f.path, original_content: f.original_content, current_content: c };
    files.insert(i, nf);
    assert(files_view(files@) =~= with_current(before, i as int, opt_view(c)));
}

/// Checks a match count against the expected one.
pub fn validate_match_count(actual: u128, expected: Option<usize>, context: &str) -> (r: Result<(), FunctionCallError>)
    ensures
        match r {
            Ok(_) => match_count_check(actual as nat, expected, context@) is Ok,
            Err(e) => match_count_check(actual as nat, expected, context@) == Err::<(), Seq<char>>(e.message()),
        },
{
    match expected {
        Some(e) => {
            if e as u128 != actual {
                let mut v = text::chars_of(context);
                let w = text::chars_of(" expected ");
                text::extend_chars(&mut v, w.as_slice());
                text::push_decimal(&mut v, e);
                let w = text::chars_of(" matches but found ");
                text::extend_chars(&mut v, w.as_slice());
                text::push_decimal_wide(&mut v, actual);
                Err(respond_with(text::string_of(v.as_slice())))
            } else {
                Ok(())
            }
        },
        None => Ok(()),
    }
}

/// Inserts `content` before or after the first (or every) occurrence of
/// `anchor` in `current`.
pub fn insert_relative_to_anchor(
    current: &str,
    anchor: &str,
    content: &str,
    position: InsertPosition,
    insert_all: bool,
    expected_occurrences: Option<usize>,
    path: &str,
) -> (r: Result<String, FunctionCallError>)
    ensures
        match r {
            Ok(s) => inserted(current@, anchor@, content@, position, insert_all, expected_occurrences, path@)
                == Ok::<Seq<char>, Seq<char>>(s@),
            Err(e) => inserted(current@, anchor@, content@, position, insert_all, expected_occurrences, path@)
                == Err::<Seq<char>, Seq<char>>(e.message()),
        },
{
    let cur = text::chars_of(current);
    let anc = text::chars_of(anchor);
    let con = text::chars_of(content);
    let n = text::count_matches_chars(cur.as_slice(), anc.as_slice());
    let context = concat("insert in ", path);
    match validate_match_count(n, expected_occurrences, context.as_str()) {
        Err(e) => return Err(e),
        Ok(_) => {},
    }
    if n == 0 {
        return Err(respond_with(concat("insert anchor not found in ", path)));
    }
    if insert_all {
        let mut with = Vec::new();
        match position {
            InsertPosition::Before => {
                text::extend_chars(&mut with, con.as_slice());
                text::extend_chars(&mut with, anc.as_slice());
            },
            InsertPosition::After => {
                text::extend_chars(&mut with, anc.as_slice());
                text::extend_chars(&mut with, con.as_slice());
            },
        }
        let out = text::replace_all_chars(cur.as_slice(), anc.as_slice(), with.as_slice());
        return Ok(text::string_of(out.as_slice()));
    }
    match text::find_chars(cur.as_slice(), anc.as_slice()) {
        None => Err(respond_with(concat("insert anchor not found in ", path))),
        Some(i) => {
            let clen = cur.len();
            assert(i + anc@.len() <= clen);
            let at = match position {
                InsertPosition::Before => i,
                InsertPosition::After => i + anc.len(),
            };
            let out = text::splice_chars(cur.as_slice(), at, 0, con.as_slice());
            proof {
                assert(cur@.skip(at + 0) =~= cur@.skip(at as int));
            }
            Ok(text::string_of(out.as_slice()))
        },
    }
}

/// Replaces `old` by `new` in `current`, once or everywhere.
fn replace_in(
    current: &str,
    old: &str,
    new: &str,
    all: bool,
    expected: Option<usize>,
    path: &str,
) -> (r: Result<String, FunctionCallError>)
    ensures
        match r {
            Ok(s) => replaced(current@, old@, new@, all, expected, path@) == Ok::<Seq<char>, Seq<char>>(s@),
            Err(e) => replaced(current@, old@, new@, all, expected, path@) == Err::<Seq<char>, Seq<char>>(e.message()),
        },
{
    let cur = text::chars_of(current);
    let o = text::chars_of(old);
    let w = text::chars_of(new);
    let n = text::count_matches_chars(cur.as_slice(), o.as_slice());
    let context = concat("replace in ", path);
    match validate_match_count(n, expected, context.as_str()) {
        Err(e) => return Err(e),
        Ok(_) => {},
    }
    if n == 0 {
        return Err(respond_with(concat("replace did not find target text in ", path)));
    }
    let out = if all {
        text::replace_all_chars(cur.as_slice(), o.as_slice(), w.as_slice())
    } else {
        text::replace_first_chars(cur.as_slice(), o.as_slice(), w.as_slice())
    };
    Ok(text::string_of(out.as_slice()))
}

fn flag_of(b: &Option<bool>) -> (r: bool)
    ensures
        r == flag(*b),
{
    match b {
        Some(x) => *x,
        None => false,
    }
}

/// Applies one operation to the working set.
pub fn apply_operation(cwd: &str, files: &mut Vec<WorkingFile>, disk: &[DiskFile], operation: &EditOperation) -> (r: Result<(), FunctionCallError>)
    ensures
        match r {
            Ok(_) => apply_op(files_view(old(files)@), disk@, cwd@, *operation) == Ok::<Seq<FileState>, Seq<char>>(
                files_view(final(files)@),
            ),
            Err(e) => apply_op(files_view(old(files)@), disk@, cwd@, *operation) == Err::<Seq<FileState>, Seq<char>>(
                e.message(),
            ) && files_view(final(files)@) == files_on_error(files_view(old(files)@), disk@, cwd@, *operation),
        },
{
    match operation {
        EditOperation::Create { path, content, overwrite } => {
            if content.as_str().is_empty() {
                let m = concat("edit cannot create an empty file at ", path.as_str());
                return Err(respond_with(concat(m.as_str(), "; use at least one newline-terminated line")));
            }
            let p = resolve_path(cwd, path.as_str());
            let i = match load_file(files, disk, p.as_str()) {
                Ok(i) => i,
                Err(e) => return Err(e),
            };
            assert(files_view(files@)[i as int] == file_state(files@[i as int]));
            if files[i].current_content.is_some() && !flag_of(overwrite) {
                return Err(respond_with(concat("create would overwrite existing file ", p.as_str())));
            }
            set_current(files, i, Some(content.clone()));
            Ok(())
        },
        EditOperation::Delete { path, ignore_missing } => {
            let p = resolve_path(cwd, path.as_str());
            let i = match load_file(files, disk, p.as_str()) {
                Ok(i) => i,
                Err(e) => return Err(e),
            };
            assert(files_view(files@)[i as int] == file_state(files@[i as int]));
            if files[i].current_content.is_none() && !flag_of(ignore_missing) {
                return Err(respond_with(concat("delete target does not exist: ", p.as_str())));
            }
            set_current(files, i, None);
            Ok(())
        },
        EditOperation::Move { from, to, overwrite } => {
            let f = resolve_path(cwd, from.as_str());
            let t = resolve_path(cwd, to.as_str());
            if same_path(f.as_str(), t.as_str()) {
                return Ok(());
            }
            let i = match load_file(files, disk, f.as_str()) {
                Ok(i) => i,
                Err(e) => return Err(e),
            };
            assert(files_view(files@)[i as int] == file_state(files@[i as int]));
            let src = match clone_opt(&files[i].current_content) {
                Some(c) => c,
                None => return Err(respond_with(concat("move source does not exist: ", f.as_str()))),
            };
            let j = match load_file(files, disk, t.as_str()) {
                Ok(j) => j,
                Err(e) => return Err(e),
            };
            assert(files_view(files@)[j as int] == file_state(files@[j as int]));
            if files[j].current_content.is_some() && !flag_of(overwrite) {
                return Err(respond_with(concat("move destination already exists: ", t.as_str())));
            }
            set_current(files, j, Some(src));
            let k = match load_file(files, disk, f.as_str()) {
                Ok(k) => k,
                Err(e) => return Err(e),
            };
            set_current(files, k, None);
            Ok(())
        },
        EditOperation::Replace { path, old, new, replace_all, expected_replacements } => {
            let p = resolve_path(cwd, path.as_str());
            let i = match load_file(files, disk, p.as_str()) {
                Ok(i) => i,
                Err(e) => return Err(e),
            };
            assert(files_view(files@)[i as int] == file_state(files@[i as int]));
            let out = match &files[i].current_content {
                None => return Err(respond_with(concat("replace target does not exist: ", p.as_str()))),
                Some(cur) => replace_in(
                    cur.as_str(),
                    old.as_str(),
                    new.as_str(),
                    flag_of(replace_all),
                    *expected_replacements,
                    p.as_str(),
                ),
            };
            match out {
                Err(e) => Err(e),
                Ok(c) => {
                    set_current(files, i, Some(c));
                    Ok(())
                },
            }
        },
        EditOperation::InsertBefore { path, anchor, content, insert_all, expected_occurrences } => {
            let p = resolve_path(cwd, path.as_str());
            let i = match load_file(files, disk, p.as_str()) {
                Ok(i) => i,
                Err(e) => return Err(e),
            };
            assert(files_view(files@)[i as int] == file_state(files@[i as int]));
            let out = match &files[i].current_content {
                None => return Err(respond_with(concat("insert_before target does not exist: ", p.as_str()))),
                Some(cur) => insert_relative_to_anchor(
                    cur.as_str(),
                    anchor.as_str(),
                    content.as_str(),
                    InsertPosition::Before,
                    flag_of(insert_all),
                    *expected_occurrences,
                    p.as_str(),
                ),
            };
            match out {
                Err(e) => Err(e),
                Ok(c) => {
                    set_current(files, i, Some(c));
                    Ok(())
                },
            }
        },
        EditOperation::InsertAfter { path, anchor, content, insert_all, expected_occurrences } => {
            let p = resolve_path(cwd, path.as_str());
            let i = match load_file(files, disk, p.as_str()) {
                Ok(i) => i,
                Err(e) => return Err(e),
            };
            assert(files_view(files@)[i as int] == file_state(files@[i as int]));
            let out = match &files[i].current_content {
                None => return Err(respond_with(concat("insert_after target does not exist: ", p.as_str()))),
                Some(cur) => insert_relative_to_anchor(
                    cur.as_str(),
                    anchor.as_str(),
                    content.as_str(),
                    InsertPosition::After,
                    flag_of(insert_all),
                    *expected_occurrences,
                    p.as_str(),
                ),
            };
            match out {
                Err(e) => Err(e),
                Ok(c) => {
                    set_current(files, i, Some(c));
                    Ok(())
                },
            }
        },
    }
}

/// Each line of `ls` behind the marker `c` and followed by a newline.
pub open spec fn marked_lines(ls: Seq<Seq<char>>, c: char) -> Seq<char>
    decreases ls.len(),
{
    if ls.len() == 0 {
        seq![]
    } else {
        marked_lines(ls.drop_last(), c) + seq![c] + ls.last() + seq!['\n']
    }
}

/// The patch section for one working file: `None` when it did not change,
/// or the error when the change cannot be written as a patch.
pub open spec fn file_section(cwd: Seq<char>, f: FileState) -> Result<Option<Seq<char>>, Seq<char>> {
    let shown = shown_path(cwd, f.path);
    match (f.original, f.current) {
        (None, None) => Ok(None),
        (None, Some(c)) => if c.len() == 0 {
            Err("edit cannot represent an empty add for "@ + f.path)
        } else {
            Ok(Some("*** Add File: "@ + shown + "\n"@ + marked_lines(text::lines(c), '+')))
        },
        (Some(_), None) => Ok(Some("*** Delete File: "@ + shown + "\n"@)),
        (Some(o), Some(c)) => if o == c {
            Ok(None)
        } else {
            Ok(
                Some(
                    "*** Update File: "@ + shown + "\n@@\n"@ + marked_lines(text::lines(o), '-')
                        + marked_lines(text::lines(c), '+') + if c.len() > 0 && c.last() != '\n' {
                        "*** End of File\n"@
                    } else {
                        seq![]
                    },
                ),
            )
        },
    }
}

/// The sections of the first `n` working files and how many there are, or
/// the first error.
pub open spec fn sections(cwd: Seq<char>, files: Seq<FileState>, n: int) -> Result<(Seq<char>, nat), Seq<char>>
    decreases n,
{
    if n <= 0 {
        Ok((seq![], 0))
    } else {
        match sections(cwd, files, n - 1) {
            Err(e) => Err(e),
            Ok((body, count)) => match file_section(cwd, files[n - 1]) {
                Err(e) => Err(e),
                Ok(None) => Ok((body, count)),
                Ok(Some(sec)) => Ok((body + sec, count + 1)),
            },
        }
    }
}

/// The patch an edit compiles to, or the error that stops it.
pub open spec fn compiled_patch(cwd: Seq<char>, disk: Seq<DiskFile>, ops: Seq<EditOperation>) -> Result<Seq<char>, Seq<char>> {
    match apply_all(seq![], disk, cwd, ops) {
        Err(e) => Err(e),
        Ok(files) => match sections(cwd, files, files.len() as int) {
            Err(e) => Err(e),
            Ok((body, count)) => if count == 0 {
                Err("edit produced no filesystem changes"@)
            } else {
                Ok("*** Begin Patch\n"@ + body + "*** End Patch\n"@)
            },
        },
    }
}

/// Files whose text is what it was make no section.
proof fn lemma_sections_unchanged(cwd: Seq<char>, files: Seq<FileState>, n: int)
    requires
        n <= files.len(),
        forall|i: int| 0 <= i < files.len() ==> (#[trigger] files[i]).original == files[i].current,
    ensures
        sections(cwd, files, n) == Ok::<(Seq<char>, nat), Seq<char>>((seq![], 0)),
    decreases n,
{
    if n > 0 {
        lemma_sections_unchanged(cwd, files, n - 1);
        assert(files[n - 1].original == files[n - 1].current);
    }
}

/// Running the first `k` operations and then the rest is running them all.
proof fn lemma_apply_all_split(files: Seq<FileState>, disk: Seq<DiskFile>, cwd: Seq<char>, ops: Seq<EditOperation>, k: int)
    requires
        0 <= k <= ops.len(),
        apply_all(files, disk, cwd, ops.take(k)) is Ok,
    ensures
        apply_all(files, disk, cwd, ops) == apply_all(
            apply_all(files, disk, cwd, ops.take(k))->Ok_0,
            disk,
            cwd,
            ops.skip(k),
        ),
    decreases k,
{
    if k == 0 {
        assert(ops.take(0).len() == 0);
        assert(ops.skip(0) =~= ops);
    } else {
        assert(ops.take(k)[0] == ops[0]);
        assert(ops.take(k).drop_first() =~= ops.drop_first().take(k - 1));
        assert(ops.skip(k) =~= ops.drop_first().skip(k - 1));
        let fs = apply_op(files, disk, cwd, ops[0])->Ok_0;
        lemma_apply_all_split(fs, disk, cwd, ops.drop_first(), k - 1);
    }
}

/// An edit whose operations all apply but change no file's text is refused
/// as making no change; and an edit stops at its first failing operation,
/// with that operation's error.
pub proof fn lemma_edit_refusals(cwd: Seq<char>, disk: Seq<DiskFile>, ops: Seq<EditOperation>, k: int)
    ensures
        (apply_all(seq![], disk, cwd, ops) matches Ok(files) && forall|i: int|
            0 <= i < files.len() ==> (#[trigger] files[i]).original == files[i].current) ==> compiled_patch(cwd, disk, ops)
            == Err::<Seq<char>, Seq<char>>("edit produced no filesystem changes"@),
        (0 <= k < ops.len() && apply_all(seq![], disk, cwd, ops.take(k)) is Ok && apply_op(
            apply_all(seq![], disk, cwd, ops.take(k))->Ok_0,
            disk,
            cwd,
            ops[k],
        ) is Err) ==> compiled_patch(cwd, disk, ops) == Err::<Seq<char>, Seq<char>>(
            apply_op(apply_all(seq![], disk, cwd, ops.take(k))->Ok_0, disk, cwd, ops[k])->Err_0,
        ),
{
    if apply_all(seq![], disk, cwd, ops) is Ok {
        let files = apply_all(seq![], disk, cwd, ops)->Ok_0;
        if forall|i: int| 0 <= i < files.len() ==> (#[trigger] files[i]).original == files[i].current {
            lemma_sections_unchanged(cwd, files, files.len() as int);
        }
    }
    if 0 <= k < ops.len() && apply_all(seq![], disk, cwd, ops.take(k)) is Ok {
        lemma_apply_all_split(seq![], disk, cwd, ops, k);
        let fs = apply_all(seq![], disk, cwd, ops.take(k))->Ok_0;
        assert(ops.skip(k)[0] == ops[k]);
    }
}

proof fn lemma_sections_err(cwd: Seq<char>, files: Seq<FileState>, a: int, b: int)
    requires
        0 <= a <= b,
        sections(cwd, files, a) is Err,
    ensures
        sections(cwd, files, b) == sections(cwd, files, a),
    decreases b - a,
{
    if a < b {
        lemma_sections_err(cwd, files, a, b - 1);
    }
}

/// Appends each line of `content` behind `marker`, one per line.
fn push_marked_lines(v: &mut Vec<char>, content: &str, marker: char)
    ensures
        final(v)@ == old(v)@ + marked_lines(text::lines(content@), marker),
{
    let chars = text::chars_of(content);
    let ls = text::lines_of(chars.as_slice());
    let ghost want = text::lines(content@);
    let mut k: usize = 0;
    assert(want.take(0) =~= seq![]);
    while k < ls.len()
        invariant
            k <= ls@.len(),
            ls@.len() == want.len(),
            want == text::lines(content@),
            forall|j: int| 0 <= j < ls@.len() ==> #[trigger] ls@[j]@ == want[j],
            v@ == old(v)@ + marked_lines(want.take(k as int), marker),
        decreases ls.len() - k,
    {
        v.push(marker);
        text::extend_chars(v, ls[k].as_slice());
        v.push('\n');
        proof {
            let t = want.take(k + 1);
            assert(t.drop_last() =~= want.take(k as int));
            assert(t.last() == ls@[k as int]@);
        }
        k = k + 1;
        assert(v@ =~= old(v)@ + marked_lines(want.take(k as int), marker));
    }
    assert(want.take(ls@.len() as int) =~= want);
}

fn push_str_chars(v: &mut Vec<char>, s: &str)
    ensures
        final(v)@ == old(v)@ + s@,
{
    let w = text::chars_of(s);
    text::extend_chars(v, w.as_slice());
}

/// The section adding a file: its lines behind `+`.
pub open spec fn add_section(cwd: Seq<char>, path: Seq<char>, content: Seq<char>) -> Seq<char> {
    "*** Add File: "@ + shown_path(cwd, path) + "\n"@ + marked_lines(text::lines(content), '+')
}

/// The section deleting a file.
pub open spec fn delete_section(cwd: Seq<char>, path: Seq<char>) -> Seq<char> {
    "*** Delete File: "@ + shown_path(cwd, path) + "\n"@
}

/// The section replacing a file's lines: the old ones behind `-`, the new
/// ones behind `+`, and an end-of-file mark where the new text does not end
/// with a newline.
pub open spec fn update_section(cwd: Seq<char>, path: Seq<char>, original: Seq<char>, current: Seq<char>) -> Seq<char> {
    "*** Update File: "@ + shown_path(cwd, path) + "\n@@\n"@ + marked_lines(text::lines(original), '-')
        + marked_lines(text::lines(current), '+') + if current.len() > 0 && current.last() != '\n' {
        "*** End of File\n"@
    } else {
        seq![]
    }
}

/// Appends the section adding `path` with `content`; an empty file cannot
/// be written as an addition.
fn append_add_file(patch: &mut Vec<char>, cwd: &str, path: &str, content: &str) -> (r: Result<(), FunctionCallError>)
    ensures
        content@.len() == 0 ==> (r matches Err(e) && e.message() == "edit cannot represent an empty add for "@ + path@),
        content@.len() == 0 ==> final(patch)@ == old(patch)@,
        content@.len() > 0 ==> r is Ok && final(patch)@ == old(patch)@ + add_section(cwd@, path@, content@),
{
    if content.is_empty() {
        return Err(respond_with(concat("edit cannot represent an empty add for ", path)));
    }
    let shown = display_path(cwd, path);
    push_str_chars(patch, "*** Add File: ");
    push_str_chars(patch, shown.as_str());
    push_str_chars(patch, "\n");
    push_marked_lines(patch, content, '+');
    assert(patch@ =~= old(patch)@ + add_section(cwd@, path@, content@));
    Ok(())
}

/// Appends the section deleting `path`.
fn append_delete_file(patch: &mut Vec<char>, cwd: &str, path: &str)
    ensures
        final(patch)@ == old(patch)@ + delete_section(cwd@, path@),
{
    let shown = display_path(cwd, path);
    push_str_chars(patch, "*** Delete File: ");
    push_str_chars(patch, shown.as_str());
    push_str_chars(patch, "\n");
    assert(patch@ =~= old(patch)@ + delete_section(cwd@, path@));
}

/// Appends the section replacing the lines of `path`; two empty texts
/// give no section.
fn append_update_file(patch: &mut Vec<char>, cwd: &str, path: &str, original: &str, current: &str) -> (r: Result<
    (),
    FunctionCallError,
>)
    ensures
        r is Ok,
        original@.len() == 0 && current@.len() == 0 ==> final(patch)@ == old(patch)@,
        !(original@.len() == 0 && current@.len() == 0) ==> final(patch)@ == old(patch)@ + update_section(
            cwd@,
            path@,
            original@,
            current@,
        ),
{
    if original.is_empty() && current.is_empty() {
        return Ok(());
    }
    let shown = display_path(cwd, path);
    push_str_chars(patch, "*** Update File: ");
    push_str_chars(patch, shown.as_str());
    push_str_chars(patch, "\n@@\n");
    push_marked_lines(patch, original, '-');
    push_marked_lines(patch, current, '+');
    let cv = text::chars_of(current);
    if cv.len() > 0 && cv[cv.len() - 1] != '\n' {
        push_str_chars(patch, "*** End of File\n");
    }
    assert(patch@ =~= old(patch)@ + update_section(cwd@, path@, original@, current@));
    Ok(())
}

/// Appends the patch section of one working file; returns whether there was
/// one.
fn append_section(patch: &mut Vec<char>, cwd: &str, f: &WorkingFile) -> (r: Result<bool, FunctionCallError>)
    ensures
        match r {
            Ok(b) => match file_section(cwd@, file_state(*f)) {
                Ok(Some(sec)) => b && final(patch)@ == old(patch)@ + sec,
                Ok(None) => !b && final(patch)@ == old(patch)@,
                Err(_) => false,
            },
            Err(e) => file_section(cwd@, file_state(*f)) == Err::<Option<Seq<char>>, Seq<char>>(e.message()),
        },
{
    match (&f.original_content, &f.current_content) {
        (None, None) => Ok(false),
        (None, Some(c)) => {
            match append_add_file(patch, cwd, f.path.as_str(), c.as_str()) {
                Err(e) => Err(e),
                Ok(()) => Ok(true),
            }
        },
        (Some(_), None) => {
            append_delete_file(patch, cwd, f.path.as_str());
            Ok(true)
        },
        (Some(o), Some(c)) => {
            let ov = text::chars_of(o.as_str());
            let cv = text::chars_of(c.as_str());
            if text::starts_with_chars(ov.as_slice(), cv.as_slice()) && ov.len() == cv.len() {
                assert(ov@ =~= cv@);
                return Ok(false);
            }
            proof {
                if ov@ == cv@ {
                    assert(ov@.take(cv@.len() as int) =~= cv@);
                }
                if o@.len() == 0 && c@.len() == 0 {
                    assert(o@ =~= c@);
                }
            }
            let _ = append_update_file(patch, cwd, f.path.as_str(), o.as_str(), c.as_str());
            Ok(true)
        },
    }
}

/// Compiles the operations into one patch, applying them in order to
/// working copies of the files (read from `disk` when first touched) and
/// writing one section per file that changed, in path order.
pub fn compile_edit_operations_to_patch(cwd: &str, disk: &[DiskFile], operations: &[EditOperation]) -> (r: Result<String, FunctionCallError>)
    ensures
        match r {
            Ok(s) => compiled_patch(cwd@, disk@, operations@) == Ok::<Seq<char>, Seq<char>>(s@),
            Err(e) => compiled_patch(cwd@, disk@, operations@) == Err::<Seq<char>, Seq<char>>(e.message()),
        },
{
    let mut files: Vec<WorkingFile> = Vec::new();
    let mut k: usize = 0;
    assert(files_view(files@) =~= seq![]);
    assert(operations@.skip(0) =~= operations@);
    while k < operations.len()
        invariant
            k <= operations@.len(),
            apply_all(seq![], disk@, cwd@, operations@) == apply_all(
                files_view(files@),
                disk@,
                cwd@,
                operations@.skip(k as int),
            ),
        decreases operations.len() - k,
    {
        let ghost before = files_view(files@);
        assert(operations@.skip(k as int).drop_first() =~= operations@.skip(k + 1));
        assert(operations@.skip(k as int)[0] == operations@[k as int]);
        match apply_operation(cwd, &mut files, disk, &operations[k]) {
            Err(e) => return Err(e),
            Ok(_) => {},
        }
        k = k + 1;
    }
    assert(operations@.skip(k as int).len() == 0);
    let ghost fv = files_view(files@);
    assert(apply_all(seq![], disk@, cwd@, operations@) == Ok::<Seq<FileState>, Seq<char>>(fv));
    let mut patch: Vec<char> = text::chars_of("*** Begin Patch\n");
    let ghost head = patch@;
    let mut changed: usize = 0;
    let mut i: usize = 0;
    while i < files.len()
        invariant
            i <= files@.len(),
            fv == files_view(files@),
            fv.len() == files@.len(),
            apply_all(seq![], disk@, cwd@, operations@) == Ok::<Seq<FileState>, Seq<char>>(fv),
            changed <= i,
            sections(cwd@, fv, i as int) matches Ok((body, n)) && patch@ == head + body && n == changed,
        decreases files.len() - i,
    {
        assert(fv[i as int] == file_state(files@[i as int]));
        match append_section(&mut patch, cwd, &files[i]) {
            Err(e) => {
                proof {
                    lemma_sections_err(cwd@, fv, i + 1, fv.len() as int);
                }
                return Err(e);
            },
            Ok(b) => {
                if b {
                    changed = changed + 1;
                }
            },
        }
        i = i + 1;
        assert(patch@ =~= head + sections(cwd@, fv, i as int)->Ok_0.0);
    }
    if changed == 0 {
        return Err(respond("edit produced no filesystem changes"));
    }
    push_str_chars(&mut patch, "*** End Patch\n");
    Ok(text::string_of(patch.as_slice()))
}

/// The patch for an edit; an edit needs at least one operation.
pub fn edit_patch(cwd: &str, disk: &[DiskFile], operations: &[EditOperation]) -> (r: Result<String, FunctionCallError>)
    ensures
        operations@.len() == 0 ==> (r matches Err(e) && e.message() == "edit requires at least one operation"@),
        operations@.len() > 0 ==> match r {
            Ok(s) => compiled_patch(cwd@, disk@, operations@) == Ok::<Seq<char>, Seq<char>>(s@),
            Err(e) => compiled_patch(cwd@, disk@, operations@) == Err::<Seq<char>, Seq<char>>(e.message()),
        },
{
    if operations.len() == 0 {
        return Err(respond("edit requires at least one operation"));
    }
    compile_edit_operations_to_patch(cwd, disk, operations)
}

/// The paths an operation reads, resolved against `cwd`, in the order the
/// operation touches them.
pub open spec fn op_paths(cwd: Seq<char>, op: EditOperation) -> Seq<Seq<char>> {
    match op {
        EditOperation::Create { path, .. } => seq![joined_path(cwd, path@)],
        EditOperation::Delete { path, .. } => seq![joined_path(cwd, path@)],
        EditOperation::Move { from, to, .. } => seq![joined_path(cwd, from@), joined_path(cwd, to@)],
        EditOperation::Replace { path, .. } => seq![joined_path(cwd, path@)],
        EditOperation::InsertBefore { path, .. } => seq![joined_path(cwd, path@)],
        EditOperation::InsertAfter { path, .. } => seq![joined_path(cwd, path@)],
    }
}

/// The paths of all the operations, in order.
pub open spec fn all_op_paths(cwd: Seq<char>, ops: Seq<EditOperation>) -> Seq<Seq<char>>
    decreases ops.len(),
{
    if ops.len() == 0 {
        seq![]
    } else {
        all_op_paths(cwd, ops.drop_last()) + op_paths(cwd, ops.last())
    }
}

/// Every path the operations may read, so that they can be read up front.
pub fn paths_to_load(cwd: &str, operations: &[EditOperation]) -> (r: Vec<String>)
    ensures
        text::strings_view(r@) == all_op_paths(cwd@, operations@),
{
    let mut r: Vec<String> = Vec::new();
    let mut k: usize = 0;
    assert(operations@.take(0) =~= seq![]);
    assert(text::strings_view(r@) =~= seq![]);
    while k < operations.len()
        invariant
            k <= operations@.len(),
            text::strings_view(r@) == all_op_paths(cwd@, operations@.take(k as int)),
        decreases operations.len() - k,
    {
        let ghost before = r@;
        match &operations[k] {
            EditOperation::Create { path, .. } => r.push(resolve_path(cwd, path.as_str())),
            EditOperation::Delete { path, .. } => r.push(resolve_path(cwd, path.as_str())),
            EditOperation::Move { from, to, .. } => {
                r.push(resolve_path(cwd, from.as_str()));
                r.push(resolve_path(cwd, to.as_str()));
            },
            EditOperation::Replace { path, .. } => r.push(resolve_path(cwd, path.as_str())),
            EditOperation::InsertBefore { path, .. } => r.push(resolve_path(cwd, path.as_str())),
            EditOperation::InsertAfter { path, .. } => r.push(resolve_path(cwd, path.as_str())),
        }
        proof {
            let t = operations@.take(k + 1);
            assert(t.drop_last() =~= operations@.take(k as int));
            assert(t.last() == operations@[k as int]);
            assert(text::strings_view(r@) =~= text::strings_view(before) + op_paths(cwd@, operations@[k as int]));
        }
        k = k + 1;
    }
    assert(operations@.take(operations@.len() as int) =~= operations@);
    r
}

} // verus!
