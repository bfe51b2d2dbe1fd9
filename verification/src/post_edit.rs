//! The analysis appended to an edit's output: for a few edited files, the
//! code layers worth showing, each compacted to a short excerpt.
use vstd::prelude::*;
use crate::paths::{file_name_of, opt_string_view, path_file_name, strip_cwd, stripped_path};
use crate::smart_read::CodeLayer;
use crate::text::{
    chars_of, ends_with, ends_with_chars, is_blank, is_blank_chars, join, join_strings, lines, lines_of,
    push_str, str_contains, str_equal, string_of, strings_view, sub_chars, contains_seq,
};

verus! {

/// Files analysed after an edit, at most.
pub const MAX_ANALYZED_FILES: usize = 4;

/// Lines kept of a layer's excerpt, at most.
pub const MAX_LAYER_LINES: usize = 12;

/// Bytes kept of a layer's excerpt, at most.
pub const MAX_LAYER_CHARS: usize = 700;

/// The name a layer is shown with.
pub open spec fn layer_label(layer: CodeLayer) -> Seq<char> {
    match layer {
        CodeLayer::Raw => "raw"@,
        CodeLayer::Ast => "ast"@,
        CodeLayer::CallGraph => "call_graph"@,
        CodeLayer::Cfg => "cfg"@,
        CodeLayer::Dfg => "dfg"@,
        CodeLayer::Pdg => "pdg"@,
        CodeLayer::TheoryGraph => "theory_graph"@,
    }
}

/// The name a layer is shown with.
pub fn layer_name(layer: CodeLayer) -> (r: &'static str)
    ensures
        r@ == layer_label(layer),
{
    match layer {
        CodeLayer::Raw => "raw",
        CodeLayer::Ast => "ast",
        CodeLayer::CallGraph => "call_graph",
        CodeLayer::Cfg => "cfg",
        CodeLayer::Dfg => "dfg",
        CodeLayer::Pdg => "pdg",
        CodeLayer::TheoryGraph => "theory_graph",
    }
}

/// The last place of a dot in a name.
pub open spec fn last_dot(name: Seq<char>, j: int) -> Option<int>
    decreases j,
{
    if j <= 0 {
        None
    } else if name[j - 1] == '.' {
        Some(j - 1)
    } else {
        last_dot(name, j - 1)
    }
}

/// The extension of a file name, as `Path::extension` reads it: what
/// follows its last dot, unless the name has no dot or only a leading one.
pub open spec fn name_extension(name: Seq<char>) -> Option<Seq<char>> {
    match last_dot(name, name.len() as int) {
        Some(i) => if i == 0 {
            None
        } else {
            Some(name.subrange(i + 1, name.len() as int))
        },
        None => None,
    }
}

/// The extension of a path's file name.
pub open spec fn path_extension_spec(p: Seq<char>) -> Option<Seq<char>> {
    match path_file_name(p) {
        Some(n) => name_extension(n),
        None => None,
    }
}

/// The extension of a path's file name, if it has one.
pub fn path_extension(p: &str) -> (r: Option<String>)
    ensures
        opt_string_view(r) == path_extension_spec(p@),
{
    let name = match file_name_of(p) {
        Some(n) => n,
        None => {
            return None;
        },
    };
    let v = chars_of(name.as_str());
    let mut j: usize = v.len();
    let mut found = false;
    while j > 0 && !found
        invariant
            v@ == name@,
            j <= v@.len(),
            !found ==> last_dot(v@, v@.len() as int) == last_dot(v@, j as int),
            found ==> j > 0 && v@[j - 1] == '.' && last_dot(v@, v@.len() as int) == Some(j as int - 1),
        decreases j + (if found { 0int } else { 1int }),
    {
        if v[j - 1] == '.' {
            found = true;
        } else {
            j = j - 1;
        }
    }
    if !found || j == 1 {
        return None;
    }
    let ext = sub_chars(v.as_slice(), j, v.len());
    Some(string_of(ext.as_slice()))
}

/// Extensions of the languages the analysis reads.
pub open spec fn supported_extension(e: Seq<char>) -> bool {
    ||| e == "rs"@ || e == "py"@ || e == "js"@ || e == "jsx"@ || e == "mjs"@
    ||| e == "ts"@ || e == "tsx"@ || e == "go"@ || e == "pl"@ || e == "pm"@
    ||| e == "cgi"@ || e == "t"@ || e == "nim"@ || e == "nims"@ || e == "nimble"@
}

/// A path that looks like a test.
pub open spec fn test_like(p: Seq<char>) -> bool {
    ||| contains_seq(p, "/test"@)
    ||| contains_seq(p, "/tests/"@)
    ||| ends_with(p, "_test.rs"@)
    ||| ends_with(p, "_test.go"@)
    ||| ends_with(p, ".test.ts"@)
    ||| ends_with(p, ".test.js"@)
}

/// The layers shown for an edited file: syntax and theory graph for Lean;
/// nothing for unsupported languages; syntax and call graph for tests or
/// when more than two files were edited; else also the data flow.
pub open spec fn layers_for(rel_path: Seq<char>, edited_file_count: usize) -> Seq<CodeLayer> {
    let ext = match path_extension_spec(rel_path) {
        Some(e) => e,
        None => Seq::empty(),
    };
    if ext == "lean"@ {
        seq![CodeLayer::Ast, CodeLayer::TheoryGraph]
    } else if !supported_extension(ext) {
        Seq::empty()
    } else if test_like(rel_path) || edited_file_count > 2 {
        seq![CodeLayer::Ast, CodeLayer::CallGraph]
    } else {
        seq![CodeLayer::Ast, CodeLayer::CallGraph, CodeLayer::Dfg]
    }
}

/// Every language the analysis documents (Rust, Python, JavaScript and
/// TypeScript, Go, Perl, Nim) is analysed: an edited file with one of their
/// extensions gets at least its syntax tree and call graph, and also its
/// data flow when it is not a test and at most two files were edited.
pub proof fn lemma_documented_languages_analysed(rel_path: Seq<char>, e: Seq<char>, edited_file_count: usize)
    requires
        path_extension_spec(rel_path) == Some(e),
        e == "rs"@ || e == "py"@ || e == "js"@ || e == "jsx"@ || e == "mjs"@ || e == "ts"@ || e == "tsx"@ || e
            == "go"@ || e == "pl"@ || e == "pm"@ || e == "cgi"@ || e == "t"@ || e == "nim"@ || e == "nims"@ || e
            == "nimble"@,
    ensures
        layers_for(rel_path, edited_file_count).len() >= 2,
        layers_for(rel_path, edited_file_count)[0] == CodeLayer::Ast,
        layers_for(rel_path, edited_file_count)[1] == CodeLayer::CallGraph,
        !test_like(rel_path) && edited_file_count <= 2 ==> layers_for(rel_path, edited_file_count) == seq![
            CodeLayer::Ast,
            CodeLayer::CallGraph,
            CodeLayer::Dfg,
        ],
{
    reveal_strlit("lean");
    reveal_strlit("rs");
    reveal_strlit("py");
    reveal_strlit("js");
    reveal_strlit("jsx");
    reveal_strlit("mjs");
    reveal_strlit("ts");
    reveal_strlit("tsx");
    reveal_strlit("go");
    reveal_strlit("pl");
    reveal_strlit("pm");
    reveal_strlit("cgi");
    reveal_strlit("t");
    reveal_strlit("nim");
    reveal_strlit("nims");
    reveal_strlit("nimble");
    if e == "lean"@ {
        assert(e.len() == 4 && e[0] == 'l');
        assert(e == "nims"@);
        assert(e[0] == 'n');
    }
}

/// Tests get no data-flow layer: a Rust, Go, TypeScript or JavaScript test
/// file (by its `_test.rs`, `_test.go`, `.test.ts` or `.test.js` suffix), or
/// a file under a `tests/` directory, gets only its syntax tree and call
/// graph.
pub proof fn lemma_tests_get_no_data_flow(rel_path: Seq<char>, e: Seq<char>, edited_file_count: usize)
    requires
        path_extension_spec(rel_path) == Some(e),
        e == "rs"@ || e == "go"@ || e == "ts"@ || e == "js"@,
        ends_with(rel_path, "_test.rs"@) || ends_with(rel_path, "_test.go"@) || ends_with(rel_path, ".test.ts"@)
            || ends_with(rel_path, ".test.js"@) || contains_seq(rel_path, "/tests/"@),
    ensures
        layers_for(rel_path, edited_file_count) == seq![CodeLayer::Ast, CodeLayer::CallGraph],
{
    reveal_strlit("lean");
    reveal_strlit("rs");
    reveal_strlit("go");
    reveal_strlit("ts");
    reveal_strlit("js");
    if e == "lean"@ {
        assert(e.len() == 4);
    }
}

fn is_supported_extension(e: &str) -> (b: bool)
    ensures
        b == supported_extension(e@),
{
    str_equal(e, "rs") || str_equal(e, "py") || str_equal(e, "js") || str_equal(e, "jsx") || str_equal(e, "mjs")
        || str_equal(e, "ts") || str_equal(e, "tsx") || str_equal(e, "go") || str_equal(e, "pl") || str_equal(
        e,
        "pm",
    ) || str_equal(e, "cgi") || str_equal(e, "t") || str_equal(e, "nim") || str_equal(e, "nims") || str_equal(
        e,
        "nimble",
    )
}

/// The layers shown for an edited file.
pub fn select_layers(rel_path: &str, edited_file_count: usize) -> (r: Vec<CodeLayer>)
    ensures
        r@ == layers_for(rel_path@, edited_file_count),
{
    let ext = match path_extension(rel_path) {
        Some(e) => e,
        None => String::new(),
    };
    let mut r: Vec<CodeLayer> = Vec::new();
    if str_equal(ext.as_str(), "lean") {
        r.push(CodeLayer::Ast);
        r.push(CodeLayer::TheoryGraph);
        assert(r@ =~= seq![CodeLayer::Ast, CodeLayer::TheoryGraph]);
        return r;
    }
    if !is_supported_extension(ext.as_str()) {
        assert(r@ =~= Seq::<CodeLayer>::empty());
        return r;
    }
    let p = chars_of(rel_path);
    let test = str_contains(rel_path, "/test") || str_contains(rel_path, "/tests/") || ends_with_chars(
        p.as_slice(),
        chars_of("_test.rs").as_slice(),
    ) || ends_with_chars(p.as_slice(), chars_of("_test.go").as_slice()) || ends_with_chars(
        p.as_slice(),
        chars_of(".test.ts").as_slice(),
    ) || ends_with_chars(p.as_slice(), chars_of(".test.js").as_slice());
    r.push(CodeLayer::Ast);
    r.push(CodeLayer::CallGraph);
    if !(test || edited_file_count > 2) {
        r.push(CodeLayer::Dfg);
        assert(r@ =~= seq![CodeLayer::Ast, CodeLayer::CallGraph, CodeLayer::Dfg]);
    } else {
        assert(r@ =~= seq![CodeLayer::Ast, CodeLayer::CallGraph]);
    }
    r
}

/// One step of choosing the files to analyse: once enough are chosen,
/// nothing changes; a path outside the project is skipped; a path already
/// chosen is not chosen twice.
pub open spec fn choose_step(chosen: Seq<Seq<char>>, root: Seq<char>, path: Seq<char>) -> Seq<Seq<char>> {
    if chosen.len() >= MAX_ANALYZED_FILES {
        chosen
    } else {
        match stripped_path(root, path) {
            None => chosen,
            Some(rel) => if chosen.contains(rel) {
                chosen
            } else {
                chosen.push(rel)
            },
        }
    }
}

/// The files chosen among the edited paths, in order.
pub open spec fn chosen_paths(root: Seq<char>, paths: Seq<Seq<char>>) -> Seq<Seq<char>>
    decreases paths.len(),
{
    if paths.len() == 0 {
        Seq::empty()
    } else {
        choose_step(chosen_paths(root, paths.drop_last()), root, paths.last())
    }
}

proof fn lemma_chosen_bounded(root: Seq<char>, paths: Seq<Seq<char>>)
    ensures
        chosen_paths(root, paths).len() <= MAX_ANALYZED_FILES,
    decreases paths.len(),
{
    if paths.len() > 0 {
        lemma_chosen_bounded(root, paths.drop_last());
    }
}

fn contains_string(v: &Vec<String>, s: &str) -> (b: bool)
    ensures
        b == strings_view(v@).contains(s@),
{
    let mut i: usize = 0;
    while i < v.len()
        invariant
            i <= v@.len(),
            forall|j: int| 0 <= j < i ==> v@[j]@ != s@,
        decreases v@.len() - i,
    {
        if str_equal(v[i].as_str(), s) {
            assert(strings_view(v@)[i as int] == s@);
            return true;
        }
        i += 1;
    }
    assert(!strings_view(v@).contains(s@)) by {
        if strings_view(v@).contains(s@) {
            let k = choose|k: int| 0 <= k < strings_view(v@).len() && strings_view(v@)[k] == s@;
            assert(v@[k]@ == s@);
        }
    }
    false
}

/// The edited files to analyse: their paths relative to the project root,
/// outside ones skipped, each once, the first few only.
pub fn normalize_paths(project_root: &str, edited_paths: &[String]) -> (r: Vec<String>)
    ensures
        strings_view(r@) == chosen_paths(project_root@, strings_view(edited_paths@)),
        r@.len() <= MAX_ANALYZED_FILES,
{
    let ghost ps = strings_view(edited_paths@);
    let mut r: Vec<String> = Vec::new();
    let mut i: usize = 0;
    assert(ps.take(0) =~= Seq::<Seq<char>>::empty());
    assert(strings_view(r@) =~= Seq::<Seq<char>>::empty());
    while i < edited_paths.len() && r.len() < MAX_ANALYZED_FILES
        invariant
            i <= edited_paths@.len(),
            ps == strings_view(edited_paths@),
            strings_view(r@) == chosen_paths(project_root@, ps.take(i as int)),
        decreases edited_paths@.len() - i,
    {
        assert(ps.take(i + 1).drop_last() =~= ps.take(i as int));
        assert(ps.take(i + 1).last() == edited_paths@[i as int]@);
        let ghost before = r@;
        match strip_cwd(project_root, edited_paths[i].as_str()) {
            None => {},
            Some(rel) => {
                if !contains_string(&r, rel.as_str()) {
                    r.push(rel);
                    assert(strings_view(r@) =~= strings_view(before).push(rel@));
                }
            },
        }
        i += 1;
    }
    proof {
        lemma_chosen_bounded(project_root@, ps.take(i as int));
        lemma_chosen_full(project_root@, ps, i as int);
    }
    r
}

proof fn lemma_chosen_full(root: Seq<char>, ps: Seq<Seq<char>>, i: int)
    requires
        0 <= i <= ps.len(),
        i < ps.len() ==> chosen_paths(root, ps.take(i)).len() >= MAX_ANALYZED_FILES,
    ensures
        chosen_paths(root, ps) == chosen_paths(root, ps.take(i)),
    decreases ps.len() - i,
{
    if i < ps.len() {
        assert(ps.take(i + 1).drop_last() =~= ps.take(i));
        lemma_chosen_full(root, ps, i + 1);
    } else {
        assert(ps.take(i) =~= ps);
    }
}

/// Bytes a character takes in UTF-8.
pub open spec fn utf8_len(c: char) -> nat {
    if (c as u32) < 0x80 {
        1
    } else if (c as u32) < 0x800 {
        2
    } else if (c as u32) < 0x10000 {
        3
    } else {
        4
    }
}

/// Bytes a text takes in UTF-8.
pub open spec fn byte_len(s: Seq<char>) -> nat
    decreases s.len(),
{
    if s.len() == 0 {
        0
    } else {
        byte_len(s.drop_last()) + utf8_len(s.last())
    }
}

/// The lines that are not blank.
pub open spec fn non_blank(ls: Seq<Seq<char>>) -> Seq<Seq<char>> {
    ls.filter(|l: Seq<char>| !is_blank(l))
}

/// The non-blank lines of a layer's text.
pub open spec fn kept_lines(content: Seq<char>) -> Seq<Seq<char>> {
    non_blank(lines(content))
}

/// The first lines of an excerpt, joined.
pub open spec fn excerpt(content: Seq<char>) -> Seq<char> {
    let k = kept_lines(content);
    join(k.take(if k.len() < MAX_LAYER_LINES { k.len() as int } else { MAX_LAYER_LINES as int }), "\n"@)
}

/// The number of leading characters of `s` that take `n` bytes.
pub open spec fn chars_in_bytes(s: Seq<char>, n: nat) -> int {
    choose|k: int| 0 <= k <= s.len() && byte_len(s.take(k)) == n
}

/// An excerpt can be cut at its byte limit: it is short enough, or the
/// limit falls between two characters.
pub open spec fn cuttable(content: Seq<char>) -> bool {
    byte_len(excerpt(content)) > MAX_LAYER_CHARS ==> exists|k: int|
        0 <= k <= excerpt(content).len() && byte_len(excerpt(content).take(k)) == MAX_LAYER_CHARS
}

/// A layer's text compacted: its first non-blank lines, cut at the byte
/// limit, with a mark where something was left out.
pub open spec fn compacted(content: Seq<char>) -> Seq<char> {
    let e = excerpt(content);
    if byte_len(e) > MAX_LAYER_CHARS {
        e.take(chars_in_bytes(e, MAX_LAYER_CHARS as nat)) + "\n[...]"@
    } else if kept_lines(content).len() > MAX_LAYER_LINES {
        e + "\n[...]"@
    } else {
        e
    }
}

fn char_bytes(c: char) -> (n: u128)
    ensures
        n == utf8_len(c),
{
    let u = c as u32;
    if u < 0x80 {
        1
    } else if u < 0x800 {
        2
    } else if u < 0x10000 {
        3
    } else {
        4
    }
}

/// A layer's text compacted to a short excerpt.
pub fn compact_layer_content(content: &str) -> (r: String)
    requires
        cuttable(content@),
    ensures
        r@ == compacted(content@),
{
    let v = chars_of(content);
    let ls = lines_of(v.as_slice());
    let ghost all = lines(content@);
    let mut kept: Vec<String> = Vec::new();
    let mut more = false;
    let mut i: usize = 0;
    proof {
        reveal_with_fuel(Seq::filter, 1);
        assert(non_blank(all.take(0)) =~= Seq::<Seq<char>>::empty());
        assert(strings_view(kept@) =~= Seq::<Seq<char>>::empty());
    }
    while i < ls.len()
        invariant
            i <= ls@.len(),
            ls@.len() == all.len(),
            all == lines(content@),
            forall|k: int| 0 <= k < ls@.len() ==> #[trigger] ls@[k]@ == all[k],
            kept@.len() <= MAX_LAYER_LINES,
            ({
                let f = non_blank(all.take(i as int));
                &&& strings_view(kept@) == f.take(kept@.len() as int)
                &&& kept@.len() == (if f.len() < MAX_LAYER_LINES { f.len() } else { MAX_LAYER_LINES as nat })
                &&& more == (f.len() > MAX_LAYER_LINES)
            }),
        decreases ls@.len() - i,
    {
        proof {
            reveal_with_fuel(Seq::filter, 1);
            assert(all.take(i + 1).drop_last() =~= all.take(i as int));
            assert(all.take(i + 1).last() == all[i as int]);
        }
        let ghost f0 = non_blank(all.take(i as int));
        let ghost before = kept@;
        if !is_blank_chars(ls[i].as_slice()) {
            if kept.len() < MAX_LAYER_LINES {
                kept.push(string_of(ls[i].as_slice()));
                assert(strings_view(kept@) =~= strings_view(before).push(all[i as int]));
                assert(f0.push(all[i as int]).take(kept@.len() as int) =~= f0.push(all[i as int]));
                assert(f0.take(before.len() as int) =~= f0);
            } else {
                more = true;
                assert(f0.push(all[i as int]).take(kept@.len() as int) =~= f0.take(kept@.len() as int));
            }
        }
        i += 1;
    }
    assert(all.take(ls@.len() as int) =~= all);
    let joined = join_strings(kept.as_slice(), "\n");
    let jv = chars_of(joined.as_str());
    let mut bytes: u128 = 0;
    let mut k: usize = 0;
    let mut cut: Option<usize> = None;
    assert(jv@.take(0) =~= Seq::<char>::empty());
    while k < jv.len()
        invariant
            k <= jv@.len(),
            bytes == byte_len(jv@.take(k as int)),
            bytes <= 4 * k,
            cut matches Some(c) ==> c <= jv@.len() && byte_len(jv@.take(c as int)) == MAX_LAYER_CHARS,
            cut is None ==> forall|j: int| 0 <= j <= k ==> byte_len(#[trigger] jv@.take(j)) != MAX_LAYER_CHARS,
        decreases jv@.len() - k,
    {
        assert(jv@.take(k + 1).drop_last() =~= jv@.take(k as int));
        bytes = bytes + char_bytes(jv[k]);
        k += 1;
        if cut.is_none() && bytes == MAX_LAYER_CHARS as u128 {
            cut = Some(k);
        }
    }
    assert(jv@.take(k as int) =~= jv@);
    let mut out = string_of(jv.as_slice());
    if bytes > MAX_LAYER_CHARS as u128 {
        match cut {
            Some(c) => {
                let kept_chars = sub_chars(jv.as_slice(), 0, c);
                out = string_of(kept_chars.as_slice());
                push_str(&mut out, "\n[...]");
                proof {
                    let e = excerpt(content@);
                    assert(jv@ == e);
                    assert(kept_chars@ =~= e.take(c as int));
                    assert(byte_len(e.take(c as int)) == MAX_LAYER_CHARS);
                    lemma_byte_len_prefix_unique(e, c as int, chars_in_bytes(e, MAX_LAYER_CHARS as nat));
                }
            },
            None => {
                proof {
                    let e = excerpt(content@);
                    let w = choose|w: int| 0 <= w <= e.len() && byte_len(e.take(w)) == MAX_LAYER_CHARS;
                    assert(byte_len(jv@.take(w)) != MAX_LAYER_CHARS);
                }
            },
        }
    } else if more {
        push_str(&mut out, "\n[...]");
    }
    out
}

proof fn lemma_byte_len_grows(s: Seq<char>, a: int, b: int)
    requires
        0 <= a < b <= s.len(),
    ensures
        byte_len(s.take(a)) < byte_len(s.take(b)),
    decreases b - a,
{
    assert(s.take(b).drop_last() =~= s.take(b - 1));
    if a < b - 1 {
        lemma_byte_len_grows(s, a, b - 1);
    }
}

proof fn lemma_byte_len_prefix_unique(s: Seq<char>, a: int, b: int)
    requires
        0 <= a <= s.len(),
        0 <= b <= s.len(),
        byte_len(s.take(a)) == byte_len(s.take(b)),
    ensures
        a == b,
{
    if a < b {
        lemma_byte_len_grows(s, a, b);
    } else if b < a {
        lemma_byte_len_grows(s, b, a);
    }
}


/// A layer as the analysis read it: its text, where reading worked.
pub struct LayerRead {
    pub layer: CodeLayer,
    pub context: Option<String>,
}

/// The layers read for one chosen file.
pub struct FileLayers {
    pub rel_path: String,
    pub layers: Vec<LayerRead>,
}

pub open spec fn layer_read_view(l: LayerRead) -> (CodeLayer, Option<Seq<char>>) {
    (l.layer, opt_string_view(l.context))
}

pub open spec fn reads_view(s: Seq<LayerRead>) -> Seq<(CodeLayer, Option<Seq<char>>)> {
    s.map_values(|l: LayerRead| layer_read_view(l))
}

/// The section of one layer: a heading naming the file and the layer, then
/// the compacted text.
pub open spec fn layer_section(rel: Seq<char>, layer: CodeLayer, content: Seq<char>) -> Seq<char> {
    "### "@ + rel + " ["@ + layer_label(layer) + "]\n"@ + compacted(content)
}

/// The sections of a file's layers: one per layer that was read and whose
/// compacted text is not empty.
pub open spec fn layer_sections(rel: Seq<char>, reads: Seq<(CodeLayer, Option<Seq<char>>)>) -> Seq<Seq<char>>
    decreases reads.len(),
{
    if reads.len() == 0 {
        Seq::empty()
    } else {
        let prev = layer_sections(rel, reads.drop_last());
        match reads.last().1 {
            Some(c) => if compacted(c).len() > 0 {
                prev.push(layer_section(rel, reads.last().0, c))
            } else {
                prev
            },
            None => prev,
        }
    }
}

/// Every text read can be compacted.
pub open spec fn reads_cuttable(reads: Seq<(CodeLayer, Option<Seq<char>>)>) -> bool {
    forall|i: int| 0 <= i < reads.len() ==> ((#[trigger] reads[i]).1 matches Some(c) ==> cuttable(c))
}

/// The sections of the files: one per file with some layer section, its
/// layer sections joined by blank lines.
pub open spec fn file_sections(files: Seq<FileLayers>) -> Seq<Seq<char>>
    decreases files.len(),
{
    if files.len() == 0 {
        Seq::empty()
    } else {
        let prev = file_sections(files.drop_last());
        let f = files.last();
        let secs = layer_sections(f.rel_path@, reads_view(f.layers@));
        if secs.len() > 0 {
            prev.push(join(secs, "\n\n"@))
        } else {
            prev
        }
    }
}

/// The analysis: nothing where no file has a section; else a heading and
/// the file sections, joined by blank lines.
pub open spec fn analysis_text(files: Seq<FileLayers>) -> Option<Seq<char>> {
    let secs = file_sections(files);
    if secs.len() == 0 {
        None
    } else {
        Some("## SmartRead Impact\n\n"@ + join(secs, "\n\n"@))
    }
}

fn file_layer_sections(f: &FileLayers) -> (r: Vec<String>)
    requires
        reads_cuttable(reads_view(f.layers@)),
    ensures
        strings_view(r@) == layer_sections(f.rel_path@, reads_view(f.layers@)),
{
    let ghost rs = reads_view(f.layers@);
    let mut r: Vec<String> = Vec::new();
    let mut i: usize = 0;
    assert(rs.take(0) =~= Seq::<(CodeLayer, Option<Seq<char>>)>::empty());
    assert(strings_view(r@) =~= Seq::<Seq<char>>::empty());
    while i < f.layers.len()
        invariant
            i <= f.layers@.len(),
            rs == reads_view(f.layers@),
            reads_cuttable(rs),
            strings_view(r@) == layer_sections(f.rel_path@, rs.take(i as int)),
        decreases f.layers@.len() - i,
    {
        assert(rs.take(i + 1).drop_last() =~= rs.take(i as int));
        assert(rs.take(i + 1).last() == rs[i as int]);
        let ghost before = r@;
        match &f.layers[i].context {
            Some(c) => {
                assert(rs[i as int].1 == Some(c@));
                let content = compact_layer_content(c.as_str());
                if !content.as_str().is_empty() {
                    let mut sec = String::from_str("### ");
                    push_str(&mut sec, f.rel_path.as_str());
                    push_str(&mut sec, " [");
                    push_str(&mut sec, layer_name(f.layers[i].layer));
                    push_str(&mut sec, "]\n");
                    push_str(&mut sec, content.as_str());
                    r.push(sec);
                    assert(strings_view(r@) =~= strings_view(before).push(
                        layer_section(f.rel_path@, f.layers@[i as int].layer, c@),
                    ));
                }
            },
            None => {},
        }
        i += 1;
    }
    assert(rs.take(f.layers@.len() as int) =~= rs);
    r
}

/// The analysis of the chosen files from the layers read for them.
pub fn build_post_edit_analysis(files: &[FileLayers]) -> (r: Option<String>)
    requires
        forall|i: int| 0 <= i < files@.len() ==> reads_cuttable(reads_view((#[trigger] files@[i]).layers@)),
    ensures
        opt_string_view(r) == analysis_text(files@),
{
    let mut secs: Vec<String> = Vec::new();
    let mut i: usize = 0;
    assert(files@.take(0) =~= Seq::<FileLayers>::empty());
    assert(strings_view(secs@) =~= Seq::<Seq<char>>::empty());
    while i < files.len()
        invariant
            i <= files@.len(),
            forall|j: int| 0 <= j < files@.len() ==> reads_cuttable(reads_view((#[trigger] files@[j]).layers@)),
            strings_view(secs@) == file_sections(files@.take(i as int)),
        decreases files@.len() - i,
    {
        assert(files@.take(i + 1).drop_last() =~= files@.take(i as int));
        assert(files@.take(i + 1).last() == files@[i as int]);
        let ghost before = secs@;
        let layer_secs = file_layer_sections(&files[i]);
        if layer_secs.len() > 0 {
            let joined = join_strings(layer_secs.as_slice(), "\n\n");
            secs.push(joined);
            assert(strings_view(secs@) =~= strings_view(before).push(joined@));
        }
        i += 1;
    }
    assert(files@.take(files@.len() as int) =~= files@);
    if secs.len() == 0 {
        return None;
    }
    let mut out = String::from_str("## SmartRead Impact\n\n");
    let body = join_strings(secs.as_slice(), "\n\n");
    push_str(&mut out, body.as_str());
    Some(out)
}

/// A piece of a tool's output.
pub enum OutputContentItem {
    InputText { text: String },
}

/// The body of a tool's output: text, or a list of pieces.
pub enum OutputBody {
    Text(String),
    ContentItems(Vec<OutputContentItem>),
}

/// Appends the analysis, if any, to a tool's output: after a blank line
/// to non-empty text, or as a new piece.
pub fn append_post_edit_analysis(body: &mut OutputBody, analysis: Option<String>)
    ensures
        match analysis {
            None => *final(body) == *old(body),
            Some(a) => match *old(body) {
                OutputBody::Text(t) => *final(body) matches OutputBody::Text(n) && n@ == (if t@.len() == 0 {
                    a@
                } else {
                    t@ + "\n\n"@ + a@
                }),
                OutputBody::ContentItems(items) => *final(body) matches OutputBody::ContentItems(n) && n@.len()
                    == items@.len() + 1 && n@.take(items@.len() as int) == items@ && (n@.last() matches OutputContentItem::InputText { text } && text@ == a@),
            },
        },
{
    let analysis = match analysis {
        Some(a) => a,
        None => {
            return;
        },
    };
    match body {
        OutputBody::Text(text) => {
            if !text.as_str().is_empty() {
                push_str(text, "\n\n");
            }
            push_str(text, analysis.as_str());
        },
        OutputBody::ContentItems(items) => {
            let ghost before = items@;
            items.push(OutputContentItem::InputText { text: analysis });
            assert(items@.take(before.len() as int) =~= before);
        },
    }
}

} // verus!
