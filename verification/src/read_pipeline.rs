//! What the read tool's search and read pipeline makes of a search's output,
//! and how it renders what it found.
use vstd::prelude::*;
use crate::error;
use crate::error::FunctionCallError;
use crate::order;
use crate::read_file;
use crate::read_file::GrepMatch;
use crate::text;

verus! {

/// What `std::str::from_utf8` makes of `bytes`: the text they encode when
/// they are valid UTF-8 (well-formed, not overlong, no surrogates), else
/// nothing.
pub open spec fn utf8_decoded(bytes: Seq<u8>) -> Option<Seq<char>> {
    if vstd::utf8::valid_utf8(bytes) {
        Some(vstd::utf8::decode_utf8(bytes))
    } else {
        None
    }
}

/// `std::str::from_utf8`, owned. Claimed, as its documentation says: the
/// text when the bytes are valid UTF-8, and an error otherwise.
#[verifier::external_body]
fn decode_utf8(bytes: &[u8]) -> (r: Option<String>)
    ensures
        match r {
            Some(s) => utf8_decoded(bytes@) == Some(s@),
            None => utf8_decoded(bytes@) is None,
        },
{
    std::str::from_utf8(bytes).ok().map(|s| s.to_owned())
}

/// The pieces of `b` between newlines, as splitting on `\n` gives them
/// (empty pieces included; one empty piece for no bytes).
pub open spec fn newline_pieces(b: Seq<u8>) -> Seq<Seq<u8>>
    decreases b.len(),
{
    let i = read_file::newline_index(b);
    if 0 <= i < b.len() {
        seq![b.take(i)] + newline_pieces(b.skip(i + 1))
    } else {
        seq![b]
    }
}

proof fn lemma_newline_index_bounds(b: Seq<u8>)
    ensures
        0 <= read_file::newline_index(b) <= b.len(),
        read_file::newline_index(b) < b.len() ==> b[read_file::newline_index(b)] == 10,
        forall|j: int| 0 <= j < read_file::newline_index(b) ==> b[j] != 10,
    decreases b.len(),
{
    if b.len() > 0 && b[0] != 10 {
        let t = b.drop_first();
        lemma_newline_index_bounds(t);
        assert forall|j: int| 0 <= j < read_file::newline_index(b) implies b[j] != 10 by {
            if j > 0 {
                assert(b[j] == t[j - 1]);
            }
        }
    }
}

/// Splits `b` at its newlines.
pub fn split_newlines(b: &[u8]) -> (r: Vec<Vec<u8>>)
    ensures
        r@.map_values(|v: Vec<u8>| v@) == newline_pieces(b@),
{
    let mut r: Vec<Vec<u8>> = Vec::new();
    let mut start: usize = 0;
    let mut piece: Vec<u8> = Vec::new();
    let mut i: usize = 0;
    let ghost mut done: Seq<Seq<u8>> = seq![];
    assert(b@.skip(0) =~= b@);
    while i < b.len()
        invariant
            start <= i <= b@.len(),
            piece@ == b@.subrange(start as int, i as int),
            forall|j: int| start <= j < i ==> b@[j] != 10,
            done + newline_pieces(b@.skip(start as int)) == newline_pieces(b@),
            r@.map_values(|v: Vec<u8>| v@) == done,
        decreases b.len() - i,
    {
        if b[i] == 10 {
            let ghost rest = b@.skip(start as int);
            proof {
                assert forall|j: int| 0 <= j < i - start implies rest[j] != 10 by {
                    assert(rest[j] == b@[start + j]);
                }
                assert(rest[i - start] == 10);
                lemma_newline_index_eq(rest, i - start);
                assert(rest.take(i - start) =~= piece@);
                assert(rest.skip(i - start + 1) =~= b@.skip(i + 1));
                assert(newline_pieces(rest) == seq![rest.take(i - start)] + newline_pieces(rest.skip(i - start + 1)));
            }
            let ghost before = r@.map_values(|v: Vec<u8>| v@);
            r.push(piece);
            proof {
                assert(r@.map_values(|v: Vec<u8>| v@) =~= before.push(rest.take(i - start)));
                done = done.push(rest.take(i - start));
                assert(done + newline_pieces(b@.skip(i + 1)) =~= before + (seq![rest.take(i - start)] + newline_pieces(
                    rest.skip(i - start + 1),
                )));
            }
            piece = Vec::new();
            start = i + 1;
            i = i + 1;
            assert(piece@ =~= b@.subrange(start as int, i as int));
        } else {
            piece.push(b[i]);
            i = i + 1;
            assert(piece@ =~= b@.subrange(start as int, i as int));
        }
    }
    let ghost rest = b@.skip(start as int);
    proof {
        assert forall|j: int| 0 <= j < rest.len() implies rest[j] != 10 by {
            assert(rest[j] == b@[start + j]);
        }
        lemma_newline_index_eq(rest, rest.len() as int);
        assert(rest =~= piece@);
    }
    let ghost before = r@.map_values(|v: Vec<u8>| v@);
    r.push(piece);
    assert(r@.map_values(|v: Vec<u8>| v@) =~= before.push(rest));
    assert(done.push(rest) =~= done + seq![rest]);
    r
}

proof fn lemma_newline_index_eq(b: Seq<u8>, i: int)
    requires
        0 <= i <= b.len(),
        forall|j: int| 0 <= j < i ==> b[j] != 10,
        i == b.len() || b[i] == 10,
    ensures
        read_file::newline_index(b) == i,
    decreases b.len(),
{
    if b.len() > 0 && i > 0 {
        let t = b.drop_first();
        assert forall|j: int| 0 <= j < i - 1 implies t[j] != 10 by {
            assert(t[j] == b[j + 1]);
        }
        lemma_newline_index_eq(t, i - 1);
    }
}

/// The paths a file search printed: each non-empty line that is text.
pub open spec fn listed_paths(pieces: Seq<Seq<u8>>) -> Seq<Seq<char>>
    decreases pieces.len(),
{
    if pieces.len() == 0 {
        seq![]
    } else {
        let prev = listed_paths(pieces.drop_last());
        let line = pieces.last();
        if line.len() > 0 && utf8_decoded(line) is Some {
            prev.push(utf8_decoded(line)->0)
        } else {
            prev
        }
    }
}

/// The first `limit` paths a file search printed.
pub fn parse_file_results(stdout: &[u8], limit: usize) -> (r: Vec<String>)
    ensures
        text::strings_view(r@) == listed_paths(newline_pieces(stdout@)).take(
            if limit <= listed_paths(newline_pieces(stdout@)).len() { limit as int } else { listed_paths(
                newline_pieces(stdout@),
            ).len() as int },
        ),
{
    let pieces = split_newlines(stdout);
    let ghost ps = pieces@.map_values(|v: Vec<u8>| v@);
    let ghost all = listed_paths(ps);
    let mut r: Vec<String> = Vec::new();
    let mut k: usize = 0;
    while k < pieces.len()
        invariant
            k <= pieces.len(),
            ps == pieces@.map_values(|v: Vec<u8>| v@),
            all == listed_paths(ps),
            r@.len() <= limit,
            r@.len() < limit ==> text::strings_view(r@) == listed_paths(ps.take(k as int)),
            r@.len() == limit ==> text::strings_view(r@) == all.take(limit as int),
            listed_paths(ps.take(k as int)).len() <= all.len(),
            r@.len() == limit ==> all.len() >= limit,
        decreases pieces.len() - k,
    {
        proof {
            assert(ps.take(k + 1).drop_last() =~= ps.take(k as int));
            assert(ps.take(k + 1).last() == ps[k as int]);
            lemma_listed_prefix(ps, k + 1);
        }
        if r.len() < limit && pieces[k].len() > 0 {
            match decode_utf8(pieces[k].as_slice()) {
                Some(s) => {
                    let ghost before = text::strings_view(r@);
                    r.push(s);
                    proof {
                        assert(text::strings_view(r@) =~= before.push(s@));
                        if r@.len() == limit {
                            lemma_listed_prefix(ps, k + 1);
                            lemma_listed_take(ps, k + 1);
                        }
                    }
                },
                None => {},
            }
        }
        k += 1;
    }
    proof {
        assert(ps.take(k as int) =~= ps);
    }
    r
}

proof fn lemma_listed_prefix(ps: Seq<Seq<u8>>, k: int)
    requires
        0 <= k <= ps.len(),
    ensures
        listed_paths(ps.take(k)).len() <= listed_paths(ps).len(),
        listed_paths(ps) .take(listed_paths(ps.take(k)).len() as int) == listed_paths(ps.take(k)),
    decreases ps.len() - k,
{
    if k < ps.len() {
        lemma_listed_prefix(ps, k + 1);
        assert(ps.take(k + 1).drop_last() =~= ps.take(k));
        let a = listed_paths(ps.take(k));
        let b = listed_paths(ps.take(k + 1));
        let all = listed_paths(ps);
        assert(all.take(b.len() as int).take(a.len() as int) =~= all.take(a.len() as int));
        assert(b.take(a.len() as int) =~= a);
    } else {
        assert(ps.take(k) =~= ps);
        assert(listed_paths(ps).take(listed_paths(ps).len() as int) =~= listed_paths(ps));
    }
}

proof fn lemma_listed_take(ps: Seq<Seq<u8>>, k: int)
    requires
        0 <= k <= ps.len(),
    ensures
        listed_paths(ps).take(listed_paths(ps.take(k)).len() as int) == listed_paths(ps.take(k)),
{
    lemma_listed_prefix(ps, k);
}

/// What a line of a content search says: the path before the first `:`,
/// the line number before the second, and the matched text after it.
pub open spec fn match_of(line: Seq<char>) -> Option<(Seq<char>, nat, Seq<char>)> {
    match text::find_char(line, ':') {
        None => None,
        Some(i) => {
            let rest = line.skip(i + 1);
            match text::find_char(rest, ':') {
                None => None,
                Some(j) => match text::parse_usize(rest.take(j)) {
                    Some(n) => Some((line.take(i), n, rest.skip(j + 1))),
                    None => None,
                },
            }
        },
    }
}

/// The matches a content search printed: each non-empty text line of the
/// form `path:line:text`.
pub open spec fn listed_matches(pieces: Seq<Seq<u8>>) -> Seq<(Seq<char>, nat, Seq<char>)>
    decreases pieces.len(),
{
    if pieces.len() == 0 {
        seq![]
    } else {
        let prev = listed_matches(pieces.drop_last());
        let line = pieces.last();
        if line.len() > 0 && utf8_decoded(line) is Some && match_of(utf8_decoded(line)->0) is Some {
            prev.push(match_of(utf8_decoded(line)->0)->0)
        } else {
            prev
        }
    }
}

pub open spec fn match_view(m: GrepMatch) -> (Seq<char>, nat, Seq<char>) {
    (m.path@, m.line as nat, m.text@)
}

proof fn lemma_matches_prefix(ps: Seq<Seq<u8>>, k: int)
    requires
        0 <= k <= ps.len(),
    ensures
        listed_matches(ps.take(k)).len() <= listed_matches(ps).len(),
        listed_matches(ps).take(listed_matches(ps.take(k)).len() as int) == listed_matches(ps.take(k)),
    decreases ps.len() - k,
{
    if k < ps.len() {
        lemma_matches_prefix(ps, k + 1);
        assert(ps.take(k + 1).drop_last() =~= ps.take(k));
        let a = listed_matches(ps.take(k));
        let b = listed_matches(ps.take(k + 1));
        let all = listed_matches(ps);
        assert(all.take(b.len() as int).take(a.len() as int) =~= all.take(a.len() as int));
        assert(b.take(a.len() as int) =~= a);
    } else {
        assert(ps.take(k) =~= ps);
        assert(listed_matches(ps).take(listed_matches(ps).len() as int) =~= listed_matches(ps));
    }
}

/// Reads one line of a content search.
fn parse_match_line(line: &str) -> (r: Option<GrepMatch>)
    ensures
        match match_of(line@) {
            Some(m) => r matches Some(g) && match_view(g) == m,
            None => r is None,
        },
{
    let v = text::chars_of(line);
    proof {
        text::lemma_find_char(v@, ':');
    }
    let i = match text::find_char_from(v.as_slice(), ':', 0) {
        Some(i) => i,
        None => {
            return None;
        },
    };
    proof {
        text::lemma_find_char_unique(v@, ':', i as int);
    }
    let ghost rest = v@.skip(i + 1);
    proof {
        text::lemma_find_char(rest, ':');
    }
    let n = v.len();
    assert(i < n);
    let found = text::find_char_from(v.as_slice(), ':', i + 1);
    let j = match found {
        Some(j) => j,
        None => {
            proof {
                if text::find_char(rest, ':') is Some {
                    let k = text::find_char(rest, ':')->0;
                    assert(v@[i + 1 + k] == ':');
                }
            }
            return None;
        },
    };
    proof {
        assert forall|t: int| 0 <= t < j - (i + 1) implies rest[t] != ':' by {
            assert(rest[t] == v@[i + 1 + t]);
        }
        assert(rest[j - (i + 1)] == ':');
        text::lemma_find_char_unique(rest, ':', j - (i + 1));
    }
    assert(j < v@.len());
    let number = text::sub_chars(v.as_slice(), i + 1, j);
    assert(number@ =~= rest.take(j - (i + 1)));
    let n = match text::parse_usize_chars(number.as_slice()) {
        Some(n) => n,
        None => {
            return None;
        },
    };
    let path = text::sub_chars(v.as_slice(), 0, i);
    let len = v.len();
    assert(j < len);
    let after = j + 1;
    let matched = text::sub_chars(v.as_slice(), after, len);
    assert(path@ =~= v@.take(i as int));
    assert(matched@ =~= rest.skip(j - (i + 1) + 1));
    Some(GrepMatch { path: text::string_of(path.as_slice()), line: n, text: text::string_of(matched.as_slice()) })
}

/// The matches a content search printed, at most `limit` of them (all of
/// them for a limit of zero, which the count never reaches).
pub fn parse_match_results(stdout: &[u8], limit: usize) -> (r: Vec<GrepMatch>)
    ensures
        ({
            let all = listed_matches(newline_pieces(stdout@));
            r@.map_values(|m: GrepMatch| match_view(m)) == if limit == 0 || all.len() <= limit {
                all
            } else {
                all.take(limit as int)
            }
        }),
{
    let pieces = split_newlines(stdout);
    let ghost ps = pieces@.map_values(|v: Vec<u8>| v@);
    let ghost all = listed_matches(ps);
    let mut r: Vec<GrepMatch> = Vec::new();
    let mut k: usize = 0;
    while k < pieces.len()
        invariant
            k <= pieces.len(),
            ps == pieces@.map_values(|v: Vec<u8>| v@),
            all == listed_matches(ps),
            limit > 0 ==> r@.len() <= limit,
            (limit == 0 || r@.len() < limit) ==> r@.map_values(|m: GrepMatch| match_view(m)) == listed_matches(
                ps.take(k as int),
            ),
            (limit > 0 && r@.len() == limit) ==> r@.map_values(|m: GrepMatch| match_view(m)) == all.take(limit as int)
                && all.len() >= limit,
        decreases pieces.len() - k,
    {
        proof {
            assert(ps.take(k + 1).drop_last() =~= ps.take(k as int));
            assert(ps.take(k + 1).last() == ps[k as int]);
        }
        if (limit == 0 || r.len() < limit) && pieces[k].len() > 0 {
            match decode_utf8(pieces[k].as_slice()) {
                Some(s) => match parse_match_line(s.as_str()) {
                    Some(m) => {
                        let ghost before = r@.map_values(|m: GrepMatch| match_view(m));
                        r.push(m);
                        proof {
                            assert(r@.map_values(|m: GrepMatch| match_view(m)) =~= before.push(match_view(m)));
                            lemma_matches_prefix(ps, k + 1);
                        }
                    },
                    None => {},
                },
                None => {},
            }
        }
        k += 1;
    }
    proof {
        assert(ps.take(k as int) =~= ps);
        if limit > 0 && r@.len() < limit {
            assert(all.len() < limit);
        }
    }
    r
}

/// The error for a search that failed, with what it printed.
pub fn rg_error(stderr: &[u8]) -> (e: FunctionCallError)
    ensures
        e.message() == "rg failed: "@ + read_file::lossy_utf8(stderr@),
{
    let mut s = String::from_str("rg failed: ");
    let d = read_file::decode_lossy(stderr);
    text::push_str(&mut s, d.as_str());
    error::respond_with(s)
}

/// The lines read from one file, with the label of the read when it has one.
pub struct ReadArtifact {
    pub path: String,
    pub label: Option<String>,
    pub lines: Vec<String>,
}

/// What a pipeline step produced.
pub enum PipelineValue {
    Files(Vec<String>),
    Matches(Vec<GrepMatch>),
    Reads(Vec<ReadArtifact>),
}

/// A match's line: `path:Lline: text`.
pub open spec fn match_line(m: GrepMatch) -> Seq<char> {
    m.path@ + ":L"@ + text::decimal(m.line as nat) + ": "@ + m.text@
}

/// A read's section: a header naming the file (and the read's label), then
/// its lines.
pub open spec fn artifact_section(a: ReadArtifact) -> Seq<char> {
    let header = match a.label {
        Some(l) => "==> "@ + a.path@ + " ("@ + l@ + ")"@,
        None => "==> "@ + a.path@,
    };
    header + "\n"@ + text::join(text::strings_view(a.lines@), "\n"@)
}

/// The reads rendered: a note when there are none; the lines alone for one
/// unlabelled read; else a section per read, grouped by file in path order
/// (reads of one file in the order they were made), sections apart by a
/// blank line.
pub open spec fn artifacts_rendered(artifacts: Seq<ReadArtifact>, r: Seq<char>) -> bool {
    if artifacts.len() == 0 {
        r == "No reads produced."@
    } else if artifacts.len() == 1 && artifacts[0].label is None {
        r == text::join(text::strings_view(artifacts[0].lines@), "\n"@)
    } else {
        exists|p: Seq<usize>|
            order::is_permutation(p, artifacts.len()) && order::stably_sorted(
                artifacts.map_values(|a: ReadArtifact| a.path@),
                p,
            ) && r == text::join(p.map_values(|i: usize| artifact_section(artifacts[i as int])), "\n\n"@)
    }
}

fn section_of(a: &ReadArtifact) -> (s: String)
    ensures
        s@ == artifact_section(*a),
{
    let mut v = text::chars_of("==> ");
    text::push_chars(&mut v, a.path.as_str());
    match &a.label {
        Some(l) => {
            text::push_chars(&mut v, " (");
            text::push_chars(&mut v, l.as_str());
            text::push_chars(&mut v, ")");
        },
        None => {},
    }
    text::push_chars(&mut v, "\n");
    let body = text::join_strings(a.lines.as_slice(), "\n");
    text::push_chars(&mut v, body.as_str());
    text::string_of(v.as_slice())
}

pub fn render_read_artifacts(artifacts: &Vec<ReadArtifact>) -> (r: String)
    ensures
        artifacts_rendered(artifacts@, r@),
{
    if artifacts.len() == 0 {
        return String::from_str("No reads produced.");
    }
    if artifacts.len() == 1 && artifacts[0].label.is_none() {
        return text::join_strings(artifacts[0].lines.as_slice(), "\n");
    }
    let mut keys: Vec<Vec<char>> = Vec::new();
    let mut i: usize = 0;
    while i < artifacts.len()
        invariant
            i <= artifacts.len(),
            keys@.len() == i,
            forall|j: int| 0 <= j < i ==> (#[trigger] keys@[j])@ == artifacts@[j].path@,
        decreases artifacts.len() - i,
    {
        keys.push(text::chars_of(artifacts[i].path.as_str()));
        i += 1;
    }
    assert(keys@.map_values(|k: Vec<char>| k@) =~= artifacts@.map_values(|a: ReadArtifact| a.path@));
    let p = order::stable_order(&keys);
    let ghost ps = p@;
    let mut sections: Vec<String> = Vec::new();
    let mut k: usize = 0;
    while k < p.len()
        invariant
            k <= p.len(),
            ps == p@,
            order::is_permutation(ps, artifacts@.len()),
            text::strings_view(sections@) == ps.take(k as int).map_values(|i: usize| artifact_section(artifacts@[i as int])),
        decreases p.len() - k,
    {
        let idx = p[k];
        let s = section_of(&artifacts[idx]);
        let ghost before = text::strings_view(sections@);
        sections.push(s);
        assert(text::strings_view(sections@) =~= before.push(s@));
        assert(ps.take(k + 1).map_values(|i: usize| artifact_section(artifacts@[i as int])) =~= ps.take(k as int).map_values(
            |i: usize| artifact_section(artifacts@[i as int]),
        ).push(artifact_section(artifacts@[idx as int])));
        k += 1;
    }
    assert(ps.take(k as int) =~= ps);
    let r = text::join_strings(sections.as_slice(), "\n\n");
    assert(order::is_permutation(ps, artifacts@.len()) && order::stably_sorted(
        artifacts@.map_values(|a: ReadArtifact| a.path@),
        ps,
    ) && r@ == text::join(ps.map_values(|i: usize| artifact_section(artifacts@[i as int])), "\n\n"@));
    r
}

/// What a step produced, rendered: the paths or the matches one per line
/// (a note when there are none), or the reads.
pub open spec fn value_rendered(v: PipelineValue, r: Seq<char>) -> bool {
    match v {
        PipelineValue::Files(files) => if files.len() == 0 {
            r == "No matches found."@
        } else {
            r == text::join(text::strings_view(files@), "\n"@)
        },
        PipelineValue::Matches(matches) => if matches.len() == 0 {
            r == "No matches found."@
        } else {
            r == text::join(matches@.map_values(|m: GrepMatch| match_line(m)), "\n"@)
        },
        PipelineValue::Reads(reads) => artifacts_rendered(reads@, r),
    }
}

fn match_text(m: &GrepMatch) -> (s: String)
    ensures
        s@ == match_line(*m),
{
    let mut v = text::chars_of(m.path.as_str());
    text::push_chars(&mut v, ":L");
    text::push_decimal(&mut v, m.line);
    text::push_chars(&mut v, ": ");
    text::push_chars(&mut v, m.text.as_str());
    text::string_of(v.as_slice())
}

pub fn render_pipeline_value(value: PipelineValue) -> (r: String)
    ensures
        value_rendered(value, r@),
{
    match value {
        PipelineValue::Files(files) => {
            if files.len() == 0 {
                String::from_str("No matches found.")
            } else {
                text::join_strings(files.as_slice(), "\n")
            }
        },
        PipelineValue::Matches(matches) => {
            if matches.len() == 0 {
                return String::from_str("No matches found.");
            }
            let mut lines: Vec<String> = Vec::new();
            let mut i: usize = 0;
            while i < matches.len()
                invariant
                    i <= matches.len(),
                    text::strings_view(lines@) == matches@.take(i as int).map_values(|m: GrepMatch| match_line(m)),
                decreases matches.len() - i,
            {
                let l = match_text(&matches[i]);
                let ghost before = text::strings_view(lines@);
                lines.push(l);
                assert(text::strings_view(lines@) =~= before.push(l@));
                assert(matches@.take(i + 1).map_values(|m: GrepMatch| match_line(m)) =~= matches@.take(i as int).map_values(
                    |m: GrepMatch| match_line(m),
                ).push(match_line(matches@[i as int])));
                i += 1;
            }
            assert(matches@.take(i as int) =~= matches@);
            text::join_strings(lines.as_slice(), "\n")
        },
        PipelineValue::Reads(reads) => render_read_artifacts(&reads),
    }
}

/// Characters that end a token: all but ASCII letters, digits and `_`.
pub open spec fn is_token_separator(c: char) -> bool {
    !(('a' <= c && c <= 'z') || ('A' <= c && c <= 'Z') || ('0' <= c && c <= '9') || c == '_')
}

/// A protocol message token such as `CLTOMA_FUSE_REGISTER`: upper-case
/// letters, digits and underscores, with `TO` and an underscore in it.
pub open spec fn is_protocol_token(t: Seq<char>) -> bool {
    &&& text::contains_seq(t, "TO"@)
    &&& t.contains('_')
    &&& forall|i: int| 0 <= i < t.len() ==> #[trigger] is_token_char(t[i])
}

pub open spec fn is_token_char(c: char) -> bool {
    ('A' <= c && c <= 'Z') || ('0' <= c && c <= '9') || c == '_'
}

/// Reading `s` left to right: the protocol tokens completed so far, and the
/// token being read.
pub open spec fn token_scan(s: Seq<char>) -> (Seq<Seq<char>>, Seq<char>)
    decreases s.len(),
{
    if s.len() == 0 {
        (seq![], seq![])
    } else {
        let (done, cur) = token_scan(s.drop_last());
        let c = s.last();
        if is_token_separator(c) {
            (if is_protocol_token(cur) { done.push(cur) } else { done }, seq![])
        } else {
            (done, cur.push(c))
        }
    }
}

/// The protocol tokens of `s`, in order: its pieces between separators that
/// are protocol tokens.
pub open spec fn protocol_tokens(s: Seq<char>) -> Seq<Seq<char>> {
    let (done, cur) = token_scan(s);
    if is_protocol_token(cur) { done.push(cur) } else { done }
}

fn protocol_token_check(t: &Vec<char>) -> (b: bool)
    ensures
        b == is_protocol_token(t@),
{
    let to = text::chars_of("TO");
    if !text::contains_chars(t.as_slice(), to.as_slice()) {
        return false;
    }
    let mut has_underscore = false;
    let mut i: usize = 0;
    while i < t.len()
        invariant
            i <= t.len(),
            has_underscore == exists|j: int| 0 <= j < i && t@[j] == '_',
            forall|j: int| 0 <= j < i ==> #[trigger] is_token_char(t@[j]),
        decreases t.len() - i,
    {
        let c = t[i];
        if !(('A' <= c && c <= 'Z') || ('0' <= c && c <= '9') || c == '_') {
            assert(!is_token_char(t@[i as int]));
            return false;
        }
        if c == '_' {
            has_underscore = true;
        }
        i += 1;
    }
    proof {
        if has_underscore {
            let j = choose|j: int| 0 <= j < i && t@[j] == '_';
            assert(t@.contains('_'));
        }
        if t@.contains('_') {
            let j = choose|j: int| 0 <= j < t@.len() && t@[j] == '_';
            assert(exists|k: int| 0 <= k < i && t@[k] == '_');
        }
    }
    has_underscore
}

/// The protocol message tokens in a line of text.
pub fn extract_protocol_tokens(s: &str) -> (r: Vec<String>)
    ensures
        text::strings_view(r@) == protocol_tokens(s@),
{
    let v = text::chars_of(s);
    let mut done: Vec<String> = Vec::new();
    let mut cur: Vec<char> = Vec::new();
    let mut i: usize = 0;
    while i < v.len()
        invariant
            i <= v.len(),
            (text::strings_view(done@), cur@) == token_scan(v@.take(i as int)),
        decreases v.len() - i,
    {
        let c = v[i];
        proof {
            assert(v@.take(i + 1).drop_last() =~= v@.take(i as int));
            assert(v@.take(i + 1).last() == c);
        }
        if !(('a' <= c && c <= 'z') || ('A' <= c && c <= 'Z') || ('0' <= c && c <= '9') || c == '_') {
            if protocol_token_check(&cur) {
                let ghost before = text::strings_view(done@);
                done.push(text::string_of(cur.as_slice()));
                assert(text::strings_view(done@) =~= before.push(cur@));
            }
            cur = Vec::new();
            assert(cur@ =~= seq![]);
        } else {
            cur.push(c);
        }
        i += 1;
    }
    assert(v@.take(i as int) =~= v@);
    if protocol_token_check(&cur) {
        let ghost before = text::strings_view(done@);
        done.push(text::string_of(cur.as_slice()));
        assert(text::strings_view(done@) =~= before.push(cur@));
    }
    done
}

/// What a file scored as a protocol hot spot, and why.
pub struct HotFileEntry {
    pub path: String,
    pub score: usize,
    pub reasons: Vec<String>,
}

/// The files scored so far, one entry per path.
pub struct HotFileScores {
    pub entries: Vec<HotFileEntry>,
}

pub open spec fn entry_view(e: HotFileEntry) -> (Seq<char>, nat, Seq<Seq<char>>) {
    (e.path@, e.score as nat, text::strings_view(e.reasons@))
}

/// Position of `path`'s entry.
pub open spec fn entry_index(entries: Seq<(Seq<char>, nat, Seq<Seq<char>>)>, path: Seq<char>) -> Option<int>
    decreases entries.len(),
{
    if entries.len() == 0 {
        None
    } else if entries.last().0 == path {
        Some(entries.len() - 1)
    } else {
        entry_index(entries.drop_last(), path)
    }
}

/// The scores after `path` earned `weight` for `reason`: its entry (made if
/// new) gains the weight, and the reason unless it is there already.
pub open spec fn scored_with(entries: Seq<(Seq<char>, nat, Seq<Seq<char>>)>, path: Seq<char>, weight: nat, reason: Seq<char>) -> Seq<(Seq<char>, nat, Seq<Seq<char>>)> {
    match entry_index(entries, path) {
        Some(i) => entries.update(
            i,
            (
                path,
                entries[i].1 + weight,
                if entries[i].2.contains(reason) { entries[i].2 } else { entries[i].2.push(reason) },
            ),
        ),
        None => entries.push((path, weight, seq![reason])),
    }
}

pub(crate) proof fn lemma_entry_index(entries: Seq<(Seq<char>, nat, Seq<Seq<char>>)>, path: Seq<char>)
    ensures
        entry_index(entries, path) matches Some(i) ==> 0 <= i < entries.len() && entries[i].0 == path,
        entry_index(entries, path) is None ==> forall|j: int| 0 <= j < entries.len() ==> entries[j].0 != path,
    decreases entries.len(),
{
    if entries.len() > 0 {
        lemma_entry_index(entries.drop_last(), path);
        if entries.last().0 != path {
            assert forall|j: int| 0 <= j < entries.len() - 1 implies entries[j] == entries.drop_last()[j] by {}
        }
    }
}

impl HotFileScores {
    pub open spec fn view(self) -> Seq<(Seq<char>, nat, Seq<Seq<char>>)> {
        self.entries@.map_values(|e: HotFileEntry| entry_view(e))
    }

    /// Position of `path`'s entry.
    fn find_entry(&self, path: &str) -> (r: Option<usize>)
        ensures
            match r {
                Some(i) => entry_index(self.view(), path@) == Some(i as int),
                None => entry_index(self.view(), path@) is None,
            },
    {
        let ghost v = self.view();
        let mut k: usize = self.entries.len();
        assert(v.take(k as int) =~= v);
        while k > 0
            invariant
                k <= self.entries.len(),
                v == self.view(),
                entry_index(v, path@) == entry_index(v.take(k as int), path@),
            decreases k,
        {
            proof {
                assert(v.take(k as int).drop_last() =~= v.take(k - 1));
                assert(v.take(k as int).last() == v[k - 1]);
            }
            if text::str_equal(self.entries[k - 1].path.as_str(), path) {
                assert(v[k - 1].0 == path@);
                return Some(k - 1);
            }
            k -= 1;
        }
        assert(v.take(0) =~= seq![]);
        None
    }

    /// Records that `path` earned `weight` for `reason`.
    pub fn record_hot_file_reason(&mut self, path: &str, weight: usize, reason: &str)
        requires
            entry_index(old(self).view(), path@) matches Some(i) ==> old(self).view()[i].1 + weight <= usize::MAX,
        ensures
            final(self).view() == scored_with(old(self).view(), path@, weight as nat, reason@),
    {
        let ghost before = self.view();
        proof {
            lemma_entry_index(before, path@);
        }
        match self.find_entry(path) {
            Some(i) => {
                assert(entry_index(before, path@) == Some(i as int));
                assert(before[i as int].1 + weight <= usize::MAX);
                assert(before[i as int] == entry_view(self.entries@[i as int]));
                let entry = &self.entries[i];
                let new_score = entry.score + weight;
                let mut present = false;
                let mut j: usize = 0;
                let ghost rs = text::strings_view(entry.reasons@);
                while j < entry.reasons.len()
                    invariant
                        j <= entry.reasons.len(),
                        rs == text::strings_view(entry.reasons@),
                        present == exists|t: int| 0 <= t < j && rs[t] == reason@,
                    decreases entry.reasons.len() - j,
                {
                    if text::str_equal(entry.reasons[j].as_str(), reason) {
                        present = true;
                        assert(rs[j as int] == reason@);
                    }
                    j += 1;
                }
                proof {
                    if present {
                        let t = choose|t: int| 0 <= t < j && rs[t] == reason@;
                        assert(rs.contains(reason@));
                    }
                    if rs.contains(reason@) {
                        let t = choose|t: int| 0 <= t < rs.len() && rs[t] == reason@;
                        assert(exists|u: int| 0 <= u < j && rs[u] == reason@);
                    }
                }
                let mut reasons = entry.reasons.clone();
                assert(text::strings_view(reasons@) =~= rs);
                if !present {
                    reasons.push(reason.to_owned());
                    assert(text::strings_view(reasons@) =~= rs.push(reason@));
                }
                let updated = HotFileEntry { path: entry.path.clone(), score: new_score, reasons };
                let ghost uv = entry_view(updated);
                self.entries.set(i, updated);
                proof {
                    let want = scored_with(before, path@, weight as nat, reason@);
                    assert(want[i as int] == uv);
                    assert(self.view() =~~= want);
                }
            },
            None => {
                let mut reasons: Vec<String> = Vec::new();
                reasons.push(reason.to_owned());
                let fresh = HotFileEntry { path: path.to_owned(), score: weight, reasons };
                assert(text::strings_view(fresh.reasons@) =~= seq![reason@]);
                self.entries.push(fresh);
                assert(self.view() =~~= before.push((path@, weight as nat, seq![reason@])));
            },
        }
    }
}

/// A file that looks central to the protocol, with its score and reasons.
pub struct HotFileRecord {
    pub path: String,
    pub score: usize,
    pub reasons: Vec<String>,
}

/// A family of protocol messages, how often it was seen, and examples.
pub struct MessageFamilyRecord {
    pub name: String,
    pub count: usize,
    pub examples: Vec<String>,
}

/// A line that hints at a protocol version.
pub struct VersionClueRecord {
    pub path: String,
    pub line: usize,
    pub text: String,
}

/// What a protocol map found.
pub struct ProtocolMapArtifact {
    pub preset: String,
    pub root: String,
    pub generated_at: String,
    pub hot_files: Vec<HotFileRecord>,
    pub message_families: Vec<MessageFamilyRecord>,
    pub version_clues: Vec<VersionClueRecord>,
    pub evidence: Vec<String>,
}

/// Entries of each kind a summary lists.
pub const SUMMARY_ENTRIES: usize = 12;

pub open spec fn hot_file_line(f: HotFileRecord) -> Seq<char> {
    "- "@ + f.path@ + " [score="@ + text::decimal(f.score as nat) + "] "@ + text::join(text::strings_view(f.reasons@), "; "@)
}

pub open spec fn family_line(f: MessageFamilyRecord) -> Seq<char> {
    "- "@ + f.name@ + " ("@ + text::decimal(f.count as nat) + ") "@ + text::join(text::strings_view(f.examples@), ", "@)
}

pub open spec fn clue_line(c: VersionClueRecord) -> Seq<char> {
    "- "@ + c.path@ + ":L"@ + text::decimal(c.line as nat) + ": "@ + c.text@
}

/// The first entries of a list that a summary shows.
pub open spec fn shown<T>(s: Seq<T>) -> Seq<T> {
    if s.len() <= SUMMARY_ENTRIES { s } else { s.take(SUMMARY_ENTRIES as int) }
}

/// A titled list: its title, then its lines, or `- none`.
pub open spec fn titled(title: Seq<char>, lines: Seq<Seq<char>>) -> Seq<Seq<char>> {
    seq![title] + if lines.len() == 0 { seq!["- none"@] } else { lines }
}

/// The lines of a protocol map's summary: the root and when it was made,
/// the artifacts written if any, then the first hot files, message families
/// and version clues.
pub open spec fn summary_lines(a: ProtocolMapArtifact, artifact_paths: Seq<Seq<char>>) -> Seq<Seq<char>> {
    seq!["protocol_map root: "@ + a.root@, "generated_at: "@ + a.generated_at@] + (if artifact_paths.len() == 0 {
        seq![]
    } else {
        seq!["artifacts:"@] + artifact_paths.map_values(|p: Seq<char>| "- "@ + p)
    }) + titled("hot_files:"@, shown(a.hot_files@).map_values(|f: HotFileRecord| hot_file_line(f))) + titled(
        "message_families:"@,
        shown(a.message_families@).map_values(|f: MessageFamilyRecord| family_line(f)),
    ) + titled("version_clues:"@, shown(a.version_clues@).map_values(|c: VersionClueRecord| clue_line(c)))
}

fn push_line(lines: &mut Vec<String>, v: Vec<char>)
    ensures
        text::strings_view(final(lines)@) == text::strings_view(old(lines)@).push(v@),
{
    let ghost before = text::strings_view(lines@);
    lines.push(text::string_of(v.as_slice()));
    assert(text::strings_view(lines@) =~= before.push(v@));
}

fn push_text(lines: &mut Vec<String>, s: &str)
    ensures
        text::strings_view(final(lines)@) == text::strings_view(old(lines)@).push(s@),
{
    let ghost before = text::strings_view(lines@);
    lines.push(s.to_owned());
    assert(text::strings_view(lines@) =~= before.push(s@));
}

fn append_lines(dst: &mut Vec<String>, src: Vec<String>)
    ensures
        text::strings_view(final(dst)@) == text::strings_view(old(dst)@) + text::strings_view(src@),
{
    let ghost base = text::strings_view(dst@);
    let ghost sv = text::strings_view(src@);
    let mut i: usize = 0;
    while i < src.len()
        invariant
            i <= src.len(),
            sv == text::strings_view(src@),
            text::strings_view(dst@) == base + sv.take(i as int),
        decreases src.len() - i,
    {
        let ghost before = text::strings_view(dst@);
        dst.push(src[i].clone());
        assert(text::strings_view(dst@) =~= before.push(sv[i as int]));
        assert(sv.take(i + 1) =~= sv.take(i as int).push(sv[i as int]));
        i += 1;
    }
    assert(sv.take(i as int) =~= sv);
}

fn artifact_section_lines(artifact_paths: &Vec<String>) -> (r: Vec<String>)
    ensures
        text::strings_view(r@) == (if artifact_paths.len() == 0 {
            seq![]
        } else {
            seq!["artifacts:"@] + text::strings_view(artifact_paths@).map_values(|p: Seq<char>| "- "@ + p)
        }),
{
    let mut lines: Vec<String> = Vec::new();
    if artifact_paths.len() == 0 {
        assert(text::strings_view(lines@) =~= seq![]);
        return lines;
    }
    let ghost paths = text::strings_view(artifact_paths@);
    push_text(&mut lines, "artifacts:");
    let ghost base = text::strings_view(lines@);
    let mut i: usize = 0;
    while i < artifact_paths.len()
        invariant
            i <= artifact_paths.len(),
            paths == text::strings_view(artifact_paths@),
            text::strings_view(lines@) == base + paths.take(i as int).map_values(|p: Seq<char>| "- "@ + p),
        decreases artifact_paths.len() - i,
    {
        let mut v = text::chars_of("- ");
        text::push_chars(&mut v, artifact_paths[i].as_str());
        push_line(&mut lines, v);
        assert(paths.take(i + 1).map_values(|p: Seq<char>| "- "@ + p) =~= paths.take(i as int).map_values(
            |p: Seq<char>| "- "@ + p,
        ).push("- "@ + paths[i as int]));
        i += 1;
    }
    assert(paths.take(i as int) =~= paths);
    lines
}

fn hot_file_section(hot: &Vec<HotFileRecord>) -> (r: Vec<String>)
    ensures
        text::strings_view(r@) == titled("hot_files:"@, shown(hot@).map_values(|f: HotFileRecord| hot_file_line(f))),
{
    let mut lines: Vec<String> = Vec::new();
    push_text(&mut lines, "hot_files:");
    let n = if hot.len() < SUMMARY_ENTRIES { hot.len() } else { SUMMARY_ENTRIES };
    if n == 0 {
        push_text(&mut lines, "- none");
    }
    let ghost base = text::strings_view(lines@);
    let mut i: usize = 0;
    while i < n
        invariant
            i <= n,
            n <= hot@.len(),
            text::strings_view(lines@) == base + hot@.take(i as int).map_values(|f: HotFileRecord| hot_file_line(f)),
        decreases n - i,
    {
        let f = &hot[i];
        let mut v = text::chars_of("- ");
        text::push_chars(&mut v, f.path.as_str());
        text::push_chars(&mut v, " [score=");
        text::push_decimal(&mut v, f.score);
        text::push_chars(&mut v, "] ");
        let reasons = text::join_strings(f.reasons.as_slice(), "; ");
        text::push_chars(&mut v, reasons.as_str());
        push_line(&mut lines, v);
        assert(hot@.take(i + 1).map_values(|f: HotFileRecord| hot_file_line(f)) =~= hot@.take(i as int).map_values(
            |f: HotFileRecord| hot_file_line(f),
        ).push(hot_file_line(hot@[i as int])));
        i += 1;
    }
    assert(hot@.take(n as int) =~= shown(hot@));
    assert(text::strings_view(lines@) =~= titled("hot_files:"@, shown(hot@).map_values(|f: HotFileRecord| hot_file_line(f))));
    lines
}

fn family_section(fams: &Vec<MessageFamilyRecord>) -> (r: Vec<String>)
    ensures
        text::strings_view(r@) == titled(
            "message_families:"@,
            shown(fams@).map_values(|f: MessageFamilyRecord| family_line(f)),
        ),
{
    let mut lines: Vec<String> = Vec::new();
    push_text(&mut lines, "message_families:");
    let n = if fams.len() < SUMMARY_ENTRIES { fams.len() } else { SUMMARY_ENTRIES };
    if n == 0 {
        push_text(&mut lines, "- none");
    }
    let ghost base = text::strings_view(lines@);
    let mut i: usize = 0;
    while i < n
        invariant
            i <= n,
            n <= fams@.len(),
            text::strings_view(lines@) == base + fams@.take(i as int).map_values(|f: MessageFamilyRecord| family_line(f)),
        decreases n - i,
    {
        let f = &fams[i];
        let mut v = text::chars_of("- ");
        text::push_chars(&mut v, f.name.as_str());
        text::push_chars(&mut v, " (");
        text::push_decimal(&mut v, f.count);
        text::push_chars(&mut v, ") ");
        let examples = text::join_strings(f.examples.as_slice(), ", ");
        text::push_chars(&mut v, examples.as_str());
        push_line(&mut lines, v);
        assert(fams@.take(i + 1).map_values(|f: MessageFamilyRecord| family_line(f)) =~= fams@.take(i as int).map_values(
            |f: MessageFamilyRecord| family_line(f),
        ).push(family_line(fams@[i as int])));
        i += 1;
    }
    assert(fams@.take(n as int) =~= shown(fams@));
    assert(text::strings_view(lines@) =~= titled(
        "message_families:"@,
        shown(fams@).map_values(|f: MessageFamilyRecord| family_line(f)),
    ));
    lines
}

fn clue_section(clues: &Vec<VersionClueRecord>) -> (r: Vec<String>)
    ensures
        text::strings_view(r@) == titled("version_clues:"@, shown(clues@).map_values(|c: VersionClueRecord| clue_line(c))),
{
    let mut lines: Vec<String> = Vec::new();
    push_text(&mut lines, "version_clues:");
    let n = if clues.len() < SUMMARY_ENTRIES { clues.len() } else { SUMMARY_ENTRIES };
    if n == 0 {
        push_text(&mut lines, "- none");
    }
    let ghost base = text::strings_view(lines@);
    let mut i: usize = 0;
    while i < n
        invariant
            i <= n,
            n <= clues@.len(),
            text::strings_view(lines@) == base + clues@.take(i as int).map_values(|c: VersionClueRecord| clue_line(c)),
        decreases n - i,
    {
        let c = &clues[i];
        let mut v = text::chars_of("- ");
        text::push_chars(&mut v, c.path.as_str());
        text::push_chars(&mut v, ":L");
        text::push_decimal(&mut v, c.line);
        text::push_chars(&mut v, ": ");
        text::push_chars(&mut v, c.text.as_str());
        push_line(&mut lines, v);
        assert(clues@.take(i + 1).map_values(|c: VersionClueRecord| clue_line(c)) =~= clues@.take(i as int).map_values(
            |c: VersionClueRecord| clue_line(c),
        ).push(clue_line(clues@[i as int])));
        i += 1;
    }
    assert(clues@.take(n as int) =~= shown(clues@));
    assert(text::strings_view(lines@) =~= titled(
        "version_clues:"@,
        shown(clues@).map_values(|c: VersionClueRecord| clue_line(c)),
    ));
    lines
}

/// The summary of a protocol map, one entry per line.
pub fn render_protocol_map_summary(artifact: &ProtocolMapArtifact, artifact_paths: &Vec<String>) -> (r: String)
    ensures
        r@ == text::join(summary_lines(*artifact, text::strings_view(artifact_paths@)), "\n"@),
{
    let mut lines: Vec<String> = Vec::new();
    let mut v = text::chars_of("protocol_map root: ");
    text::push_chars(&mut v, artifact.root.as_str());
    push_line(&mut lines, v);
    let mut v = text::chars_of("generated_at: ");
    text::push_chars(&mut v, artifact.generated_at.as_str());
    push_line(&mut lines, v);
    append_lines(&mut lines, artifact_section_lines(artifact_paths));
    append_lines(&mut lines, hot_file_section(&artifact.hot_files));
    append_lines(&mut lines, family_section(&artifact.message_families));
    append_lines(&mut lines, clue_section(&artifact.version_clues));
    assert(text::strings_view(lines@) =~= summary_lines(*artifact, text::strings_view(artifact_paths@)));
    text::join_strings(lines.as_slice(), "\n")
}

/// The read tool.
pub struct ReadFileHandler;

impl ReadFileHandler {
    pub fn kind(&self) -> (k: crate::edit_tool::ToolKind)
        ensures
            k == crate::edit_tool::ToolKind::Function,
    {
        crate::edit_tool::ToolKind::Function
    }

    /// The error for a call that does not carry function arguments.
    pub fn unsupported_payload(&self) -> (e: FunctionCallError)
        ensures
            e.message() == "read_file handler received unsupported payload"@,
    {
        error::respond("read_file handler received unsupported payload")
    }
}


/// The directory a protocol map is written under: the path itself where it
/// is a directory (`is_dir`), else its parent, or the path itself where it
/// has none.
pub fn map_root(path: &str, is_dir: bool) -> (r: String)
    ensures
        r@ == if is_dir {
            path@
        } else {
            match crate::project_chooser::path_parent(path@) {
                Some(p) => p,
                None => path@,
            }
        },
{
    if is_dir {
        return String::from_str(path);
    }
    match crate::project_chooser::parent_path(path) {
        Some(p) => p,
        None => String::from_str(path),
    }
}

} // verus!
