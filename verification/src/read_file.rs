//! The `read_file` tool: reading a slice of a file, or the indentation block
//! around an anchor line, from the file's bytes, and rendering the results.
use vstd::prelude::*;
use crate::text;
use crate::error::FunctionCallError;
use crate::error::respond;

verus! {

broadcast use vstd::slice::group_slice_axioms;

/// Longest line, in UTF-8 bytes, that a read returns.
pub const MAX_LINE_LENGTH: usize = 500;

/// Columns that a tab counts for when measuring indentation.
pub const TAB_WIDTH: usize = 4;

/// One line of a file: its 1-based number, its text, the text as displayed
/// (truncated), and its indentation width.
pub struct LineRecord {
    pub number: usize,
    pub raw: String,
    pub display: String,
    pub indent: usize,
}

impl LineRecord {
    /// The line's text without its leading whitespace.
    pub fn trimmed(&self) -> (r: String)
        ensures
            r@ == text::trim_start(self.raw@),
    {
        let v = text::chars_of(self.raw.as_str());
        let i = text::trim_start_index(v.as_slice());
        let t = text::sub_chars(v.as_slice(), i, v.len());
        assert(t@ =~= v@.skip(i as int));
        text::string_of(t.as_slice())
    }

    /// The line holds only whitespace.
    pub fn is_blank(&self) -> (b: bool)
        ensures
            b == line_is_blank(*self),
    {
        text::is_blank_str(self.raw.as_str())
    }

    /// The line is a comment.
    pub fn is_comment(&self) -> (b: bool)
        ensures
            b == is_comment(self.raw@),
    {
        line_is_comment(self.raw.as_str())
    }
}

/// Width of the leading run of spaces and tabs of `s`, a tab counting
/// `TAB_WIDTH` columns.
pub open spec fn indent_width(s: Seq<char>) -> nat
    decreases s.len(),
{
    if s.len() == 0 {
        0
    } else if s[0] == ' ' {
        1 + indent_width(s.drop_first())
    } else if s[0] == '\t' {
        4 + indent_width(s.drop_first())
    } else {
        0
    }
}

/// The indentation width as a `usize` holds it: the width, or the largest
/// `usize` when it is wider.
pub open spec fn capped_indent(s: Seq<char>) -> nat {
    if indent_width(s) <= usize::MAX { indent_width(s) } else { usize::MAX as nat }
}

/// Indentation width of a line (the largest `usize` when it is wider).
pub fn measure_indent(line: &[char]) -> (n: usize)
    ensures
        n == capped_indent(line@),
{
    let mut i: usize = 0;
    let mut n: usize = 0;
    let mut go = true;
    let mut capped = false;
    assert(line@.skip(0) =~= line@);
    while go && i < line.len()
        invariant
            i <= line@.len(),
            capped ==> !go && n == usize::MAX && indent_width(line@) > usize::MAX,
            !capped && go ==> indent_width(line@) == n + indent_width(line@.skip(i as int)),
            !capped && !go ==> indent_width(line@) == n,
        decreases line.len() - i + (if go { 1int } else { 0int }),
    {
        let c = line[i];
        assert(line@.skip(i as int).drop_first() =~= line@.skip(i + 1));
        let w: usize = if c == ' ' {
            1
        } else if c == '\t' {
            TAB_WIDTH
        } else {
            0
        };
        if w == 0 {
            go = false;
        } else if n > usize::MAX - w {
            n = usize::MAX;
            capped = true;
            go = false;
        } else {
            n = n + w;
            i = i + 1;
        }
    }
    if go {
        assert(line@.skip(i as int).len() == 0);
    }
    n
}

/// A line that holds only whitespace (it is skipped when indentation is
/// carried forward, and trimmed from the ends of a block).
pub open spec fn line_is_blank(rec: LineRecord) -> bool {
    text::is_blank(rec.raw@)
}

/// A comment line: after trimming it starts with `#`, `//` or `--`.
pub open spec fn is_comment(raw: Seq<char>) -> bool {
    let t = text::trim(raw);
    ||| t.len() >= 1 && t[0] == '#'
    ||| t.len() >= 2 && t[0] == '/' && t[1] == '/'
    ||| t.len() >= 2 && t[0] == '-' && t[1] == '-'
}

/// A line is a comment exactly when its trimmed text begins with one of
/// the comment markers `#`, `//` or `--`.
pub proof fn lemma_comment_markers(raw: Seq<char>)
    ensures
        is_comment(raw) == (text::starts_with(text::trim(raw), "#"@) || text::starts_with(text::trim(raw), "//"@)
            || text::starts_with(text::trim(raw), "--"@)),
{
    reveal_strlit("#");
    reveal_strlit("//");
    reveal_strlit("--");
    let t = text::trim(raw);
    if t.len() >= 1 && t[0] == '#' {
        assert(t.take(1) =~= "#"@);
    }
    if t.len() >= 2 && t[0] == '/' && t[1] == '/' {
        assert(t.take(2) =~= "//"@);
    }
    if t.len() >= 2 && t[0] == '-' && t[1] == '-' {
        assert(t.take(2) =~= "--"@);
    }
    if text::starts_with(t, "#"@) {
        assert(t.take(1)[0] == t[0]);
    }
    if text::starts_with(t, "//"@) {
        assert(t.take(2)[0] == t[0] && t.take(2)[1] == t[1]);
    }
    if text::starts_with(t, "--"@) {
        assert(t.take(2)[0] == t[0] && t.take(2)[1] == t[1]);
    }
}

/// Whether the line is a comment.
pub fn line_is_comment(raw: &str) -> (b: bool)
    ensures
        b == is_comment(raw@),
{
    let v = text::chars_of(raw);
    let t = text::trim_chars(v.as_slice());
    (t.len() >= 1 && t[0] == '#') || (t.len() >= 2 && t[0] == '/' && t[1] == '/') || (t.len()
        >= 2 && t[0] == '-' && t[1] == '-')
}

/// Indentation of line `k` for block detection: a blank line carries the
/// indentation of the nearest non-blank line above it (0 at the top).
pub open spec fn effective_indent(lines: Seq<LineRecord>, k: int) -> nat
    decreases k + 1,
{
    if k < 0 || k >= lines.len() {
        0
    } else if line_is_blank(lines[k]) {
        effective_indent(lines, k - 1)
    } else {
        lines[k].indent as nat
    }
}

/// The effective indentation of every line.
pub fn compute_effective_indents(records: &[LineRecord]) -> (r: Vec<usize>)
    ensures
        r@.len() == records@.len(),
        forall|k: int| 0 <= k < records@.len() ==> #[trigger] r@[k] == effective_indent(records@, k),
{
    let mut r: Vec<usize> = Vec::new();
    let mut previous: usize = 0;
    let mut i: usize = 0;
    while i < records.len()
        invariant
            i <= records@.len(),
            r@.len() == i,
            previous == effective_indent(records@, i - 1),
            forall|k: int| 0 <= k < i ==> #[trigger] r@[k] == effective_indent(records@, k),
        decreases records.len() - i,
    {
        if !text::is_blank_str(records[i].raw.as_str()) {
            previous = records[i].indent;
        }
        r.push(previous);
        i = i + 1;
    }
    r
}

/// Options of an indentation-aware read.
#[derive(Clone, Copy)]
pub struct IndentationArgs {
    /// Line to centre the block on; the read's offset when absent.
    pub anchor_line: Option<usize>,
    /// How many indentation levels above the anchor to include; 0 for all.
    pub max_levels: usize,
    /// Whether sibling blocks at the lowest indentation are included.
    pub include_siblings: bool,
    /// Whether comment lines just above the block are included.
    pub include_header: bool,
    /// Cap on the number of lines; the read's limit when absent.
    pub max_lines: Option<usize>,
}

impl IndentationArgs {
    /// The options a read uses when none are given.
    pub fn default_args() -> (a: IndentationArgs)
        ensures
            a.anchor_line is None,
            a.max_levels == 0,
            !a.include_siblings,
            a.include_header,
            a.max_lines is None,
    {
        IndentationArgs {
            anchor_line: None,
            max_levels: max_levels(),
            include_siblings: include_siblings(),
            include_header: include_header(),
            max_lines: None,
        }
    }
}

/// Default first line of a read.
pub fn offset() -> (n: usize)
    ensures
        n == 1,
{
    1
}

/// Default number of lines of a read.
pub fn limit() -> (n: usize)
    ensures
        n == 2000,
{
    2000
}

/// Default number of grep results.
pub fn grep_limit() -> (n: usize)
    ensures
        n == 100,
{
    100
}

/// Default number of entries per section of a protocol map.
pub fn map_limit() -> (n: usize)
    ensures
        n == 12,
{
    12
}

/// Whether map artifacts are written by default.
pub fn write_artifacts() -> (b: bool)
    ensures
        !b,
{
    false
}

/// Default indentation depth (unlimited).
pub fn max_levels() -> (n: usize)
    ensures
        n == 0,
{
    0
}

/// Whether sibling blocks are included by default.
pub fn include_siblings() -> (b: bool)
    ensures
        !b,
{
    false
}

/// Whether header comments are included by default.
pub fn include_header() -> (b: bool)
    ensures
        b,
{
    true
}

/// Some line strictly between `k` and `a` sits at the lowest indentation `min`.
pub open spec fn min_between(lines: Seq<LineRecord>, k: int, a: int, min: int) -> bool
    decreases a - k,
{
    if k + 1 >= a {
        false
    } else {
        effective_indent(lines, k + 1) == min || min_between(lines, k + 1, a, min)
    }
}

/// Whether the upward walk from anchor `a` takes line `k`, given that it took
/// every line between them: the line is not shallower than `min`, and a line
/// at `min` is taken only as the first such line, as a header comment, or
/// when siblings are wanted.
pub open spec fn up_accepts(
    lines: Seq<LineRecord>,
    a: int,
    k: int,
    min: int,
    siblings: bool,
    header: bool,
) -> bool {
    let e = effective_indent(lines, k) as int;
    e >= min && (e != min || siblings || (header && is_comment(lines[k].raw@)) || !min_between(
        lines,
        k,
        a,
        min,
    ))
}

/// Whether the downward walk from anchor `a` takes line `k`: as upward, but
/// comments get no exception.
pub open spec fn down_accepts(lines: Seq<LineRecord>, a: int, k: int, min: int, siblings: bool) -> bool {
    let e = effective_indent(lines, k) as int;
    e >= min && (e != min || siblings || !min_between(lines, a, k, min))
}

/// Number of consecutive lines the upward walk takes, starting at line `k`.
pub open spec fn up_run(
    lines: Seq<LineRecord>,
    a: int,
    k: int,
    min: int,
    siblings: bool,
    header: bool,
) -> nat
    decreases k + 1,
{
    if k < 0 || k >= lines.len() {
        0
    } else if up_accepts(lines, a, k, min, siblings, header) {
        1 + up_run(lines, a, k - 1, min, siblings, header)
    } else {
        0
    }
}

/// Number of consecutive lines the downward walk takes, starting at line `k`.
pub open spec fn down_run(lines: Seq<LineRecord>, a: int, k: int, min: int, siblings: bool) -> nat
    decreases lines.len() - k,
{
    if k < 0 || k >= lines.len() {
        0
    } else if down_accepts(lines, a, k, min, siblings) {
        1 + down_run(lines, a, k + 1, min, siblings)
    } else {
        0
    }
}

/// Lines taken above the anchor, at most `cap`.
fn walk_up(
    records: &[LineRecord],
    eff: &[usize],
    a: usize,
    min: usize,
    siblings: bool,
    header: bool,
    cap: usize,
) -> (n: usize)
    requires
        a < records@.len(),
        eff@.len() == records@.len(),
        forall|k: int| 0 <= k < records@.len() ==> #[trigger] eff@[k] == effective_indent(records@, k),
    ensures
        n as int == vstd::math::min(up_run(records@, a as int, a - 1, min as int, siblings, header) as int, cap as int),
{
    let ghost lines = records@;
    let mut n: usize = 0;
    let mut seen = false;
    let mut go = true;
    while go && n < cap && n < a
        invariant
            lines == records@,
            a < lines.len(),
            eff@.len() == lines.len(),
            forall|k: int| 0 <= k < lines.len() ==> #[trigger] eff@[k] == effective_indent(lines, k),
            n <= cap,
            n <= a,
            seen == min_between(lines, a - 1 - n, a as int, min as int),
            go ==> up_run(lines, a as int, a - 1, min as int, siblings, header) == n + up_run(
                lines,
                a as int,
                a - 1 - n,
                min as int,
                siblings,
                header,
            ),
            !go ==> up_run(lines, a as int, a - 1, min as int, siblings, header) == n,
        decreases a - n + (if go { 1int } else { 0int }),
    {
        let k = a - 1 - n;
        let e = eff[k];
        if e >= min && (e != min || siblings || (header && line_is_comment(records[k].raw.as_str()))
            || !seen) {
            n = n + 1;
            if e == min {
                seen = true;
            }
        } else {
            go = false;
        }
    }
    n
}

/// Lines taken below the anchor, at most `cap`.
fn walk_down(records: &[LineRecord], eff: &[usize], a: usize, min: usize, siblings: bool, cap: usize) -> (n: usize)
    requires
        a < records@.len(),
        eff@.len() == records@.len(),
        forall|k: int| 0 <= k < records@.len() ==> #[trigger] eff@[k] == effective_indent(records@, k),
    ensures
        n as int == vstd::math::min(down_run(records@, a as int, a + 1, min as int, siblings) as int, cap as int),
{
    let ghost lines = records@;
    let mut n: usize = 0;
    let mut seen = false;
    let mut go = true;
    while go && n < cap && n < records.len() - 1 - a
        invariant
            lines == records@,
            a < lines.len(),
            eff@.len() == lines.len(),
            forall|k: int| 0 <= k < lines.len() ==> #[trigger] eff@[k] == effective_indent(lines, k),
            n <= cap,
            n <= lines.len() - 1 - a,
            seen == min_between(lines, a as int, a + 1 + n, min as int),
            go ==> down_run(lines, a as int, a + 1, min as int, siblings) == n + down_run(
                lines,
                a as int,
                a + 1 + n,
                min as int,
                siblings,
            ),
            !go ==> down_run(lines, a as int, a + 1, min as int, siblings) == n,
        decreases lines.len() - n + (if go { 1int } else { 0int }),
    {
        let k = a + 1 + n;
        let e = eff[k];
        proof {
            lemma_min_between_extend(lines, a as int, k as int, min as int);
        }
        if e >= min && (e != min || siblings || !seen) {
            n = n + 1;
            if e == min {
                seen = true;
            }
        } else {
            go = false;
        }
    }
    n
}

proof fn lemma_min_between_extend(lines: Seq<LineRecord>, a: int, k: int, min: int)
    requires
        a < k,
    ensures
        min_between(lines, a, k + 1, min) == (min_between(lines, a, k, min) || effective_indent(lines, k) == min),
    decreases k - a,
{
    if a + 1 < k {
        lemma_min_between_extend(lines, a + 1, k, min);
    } else {
        assert(!min_between(lines, a + 1, k + 1, min));
    }
}

/// Lines the upward walk gets when `k` slots are shared out in turn between
/// the two walks, which may take at most `up` and `down` lines.
pub open spec fn up_share(up: int, down: int, k: int) -> int {
    if up < (k + 1) / 2 {
        up
    } else if down < k / 2 {
        vstd::math::min(up, k - down)
    } else {
        (k + 1) / 2
    }
}

/// Lines the downward walk gets; see `up_share`.
pub open spec fn down_share(up: int, down: int, k: int) -> int {
    if up < (k + 1) / 2 {
        vstd::math::min(down, k - up)
    } else if down < k / 2 {
        down
    } else {
        k / 2
    }
}

/// First non-blank line in `[lo, hi)`, or `hi`.
pub open spec fn first_kept(lines: Seq<LineRecord>, lo: int, hi: int) -> int
    decreases hi - lo,
{
    if lo >= hi {
        hi
    } else if line_is_blank(lines[lo]) {
        first_kept(lines, lo + 1, hi)
    } else {
        lo
    }
}

/// End of `[lo, hi)` once its trailing blank lines are dropped.
pub open spec fn last_kept_end(lines: Seq<LineRecord>, lo: int, hi: int) -> int
    decreases hi - lo,
{
    if hi <= lo {
        lo
    } else if line_is_blank(lines[hi - 1]) {
        last_kept_end(lines, lo, hi - 1)
    } else {
        hi
    }
}

/// Lowest indentation a block keeps: `max_levels` tab stops below the
/// anchor's, or 0 when `max_levels` is 0.
pub open spec fn block_min_indent(anchor_indent: int, max_levels: int) -> int {
    if max_levels == 0 {
        0
    } else {
        vstd::math::max(0, anchor_indent - 4 * max_levels)
    }
}

/// The lines `[lo, hi)` of the indentation block around anchor index `a`,
/// `final_limit` lines at most.
pub open spec fn block_bounds(
    lines: Seq<LineRecord>,
    a: int,
    final_limit: int,
    max_levels: int,
    siblings: bool,
    header: bool,
) -> (int, int) {
    let min = block_min_indent(effective_indent(lines, a) as int, max_levels);
    let k = if final_limit <= 1 {
        0
    } else {
        final_limit - 1
    };
    let up = vstd::math::min(up_run(lines, a, a - 1, min, siblings, header) as int, k);
    let down = vstd::math::min(down_run(lines, a, a + 1, min, siblings) as int, k);
    let hi = a + down_share(up, down, k) + 1;
    if final_limit == 1 {
        (a, a + 1)
    } else {
        let lo = first_kept(lines, a - up_share(up, down, k), hi);
        (lo, last_kept_end(lines, lo, hi))
    }
}

/// A line as a read shows it: `L<number>: <text>`.
pub open spec fn line_label(rec: LineRecord) -> Seq<char> {
    seq!['L'] + text::decimal(rec.number as nat) + seq![':', ' '] + rec.display@
}

/// The labels of lines `[lo, hi)`.
pub open spec fn render_range(lines: Seq<LineRecord>, lo: int, hi: int) -> Seq<Seq<char>> {
    Seq::new((hi - lo) as nat, |i: int| line_label(lines[lo + i]))
}

/// What an indentation read answers: the labelled lines, or the error message.
pub open spec fn block_result(
    lines: Seq<LineRecord>,
    offset: int,
    limit: int,
    opts: IndentationArgs,
) -> Result<Seq<Seq<char>>, Seq<char>> {
    let anchor = match opts.anchor_line {
        Some(x) => x as int,
        None => offset,
    };
    let guard = match opts.max_lines {
        Some(x) => x as int,
        None => limit,
    };
    if anchor == 0 {
        Err("anchor_line must be a 1-indexed line number"@)
    } else if guard == 0 {
        Err("max_lines must be greater than zero"@)
    } else if lines.len() == 0 || anchor > lines.len() {
        Err("anchor_line exceeds file length"@)
    } else {
        let final_limit = vstd::math::min(vstd::math::min(limit, guard), lines.len() as int);
        let b = block_bounds(
            lines,
            anchor - 1,
            final_limit,
            opts.max_levels as int,
            opts.include_siblings,
            opts.include_header,
        );
        Ok(render_range(lines, b.0, b.1))
    }
}

proof fn lemma_first_kept(lines: Seq<LineRecord>, lo: int, hi: int, a: int)
    requires
        0 <= lo <= a < hi <= lines.len(),
        !line_is_blank(lines[a]),
    ensures
        lo <= first_kept(lines, lo, hi) <= a,
        !line_is_blank(lines[first_kept(lines, lo, hi)]),
    decreases hi - lo,
{
    if line_is_blank(lines[lo]) {
        lemma_first_kept(lines, lo + 1, hi, a);
    }
}

proof fn lemma_last_kept_end(lines: Seq<LineRecord>, lo: int, hi: int, a: int)
    requires
        0 <= lo <= a < hi <= lines.len(),
        !line_is_blank(lines[a]),
    ensures
        a < last_kept_end(lines, lo, hi) <= hi,
        !line_is_blank(lines[last_kept_end(lines, lo, hi) - 1]),
    decreases hi - lo,
{
    if line_is_blank(lines[hi - 1]) {
        lemma_last_kept_end(lines, lo, hi - 1, a);
    }
}

/// An indentation read around a non-blank anchor line gives one run of
/// consecutive lines of the file, in order, that holds the anchor, is no
/// longer than the limit, the line cap or the file, and neither begins
/// nor ends with a blank line.
pub proof fn lemma_block_holds_anchor(lines: Seq<LineRecord>, offset: int, limit: int, opts: IndentationArgs)
    requires
        limit >= 1,
        1 <= (match opts.anchor_line {
            Some(x) => x as int,
            None => offset,
        }) <= lines.len(),
        (match opts.max_lines {
            Some(x) => x as int,
            None => limit,
        }) > 0,
        !line_is_blank(
            lines[(match opts.anchor_line {
                Some(x) => x as int,
                None => offset,
            }) - 1],
        ),
    ensures
        exists|lo: int, hi: int|
            #![trigger render_range(lines, lo, hi)]
            {
                let a = match opts.anchor_line {
                    Some(x) => x as int,
                    None => offset,
                };
                let g = match opts.max_lines {
                    Some(x) => x as int,
                    None => limit,
                };
                &&& 0 <= lo < a <= hi <= lines.len()
                &&& hi - lo <= vstd::math::min(vstd::math::min(limit, g), lines.len() as int)
                &&& !line_is_blank(lines[lo])
                &&& !line_is_blank(lines[hi - 1])
                &&& block_result(lines, offset, limit, opts) == Ok::<Seq<Seq<char>>, Seq<char>>(
                    render_range(lines, lo, hi),
                )
            },
{
    let anchor = match opts.anchor_line {
        Some(x) => x as int,
        None => offset,
    };
    let g = match opts.max_lines {
        Some(x) => x as int,
        None => limit,
    };
    let a = anchor - 1;
    let final_limit = vstd::math::min(vstd::math::min(limit, g), lines.len() as int);
    let min = block_min_indent(effective_indent(lines, a) as int, opts.max_levels as int);
    let k = if final_limit <= 1 { 0 } else { final_limit - 1 };
    let siblings = opts.include_siblings;
    let header = opts.include_header;
    lemma_up_run_bound(lines, a, a - 1, min, siblings, header);
    lemma_down_run_bound(lines, a, a + 1, min, siblings);
    let up = vstd::math::min(up_run(lines, a, a - 1, min, siblings, header) as int, k);
    let down = vstd::math::min(down_run(lines, a, a + 1, min, siblings) as int, k);
    let us = up_share(up, down, k);
    let ds = down_share(up, down, k);
    assert(0 <= us <= up && 0 <= ds <= down && us + ds <= k);
    let hi0 = a + ds + 1;
    let b = block_bounds(lines, a, final_limit, opts.max_levels as int, siblings, header);
    if final_limit == 1 {
        assert(b == (a, a + 1));
        assert(block_result(lines, offset, limit, opts) == Ok::<Seq<Seq<char>>, Seq<char>>(render_range(lines, a, a + 1)));
    } else {
        let lo0 = a - us;
        lemma_first_kept(lines, lo0, hi0, a);
        let lo = first_kept(lines, lo0, hi0);
        lemma_last_kept_end(lines, lo, hi0, a);
        let hi = last_kept_end(lines, lo, hi0);
        assert(b == (lo, hi));
        assert(block_result(lines, offset, limit, opts) == Ok::<Seq<Seq<char>>, Seq<char>>(render_range(lines, lo, hi)));
    }
}

/// A read's lines, or its error message.
pub open spec fn lines_view(r: Result<Vec<String>, FunctionCallError>) -> Result<Seq<Seq<char>>, Seq<char>> {
    match r {
        Ok(v) => Ok(text::strings_view(v@)),
        Err(e) => Err(e.message()),
    }
}

/// `L<number>: <text>` for one line.
pub fn label_line(rec: &LineRecord) -> (s: String)
    ensures
        s@ == line_label(*rec),
{
    let mut v: Vec<char> = Vec::new();
    v.push('L');
    text::push_decimal(&mut v, rec.number);
    v.push(':');
    v.push(' ');
    let d = text::chars_of(rec.display.as_str());
    text::extend_chars(&mut v, d.as_slice());
    let s = text::string_of(v.as_slice());
    assert(s@ =~= line_label(*rec));
    s
}

/// The labels of `records[lo..hi]`.
fn render_lines(records: &[LineRecord], lo: usize, hi: usize) -> (r: Vec<String>)
    requires
        lo <= hi <= records@.len(),
    ensures
        text::strings_view(r@) == render_range(records@, lo as int, hi as int),
{
    let mut r: Vec<String> = Vec::new();
    let mut i = lo;
    while i < hi
        invariant
            lo <= i <= hi <= records@.len(),
            r@.len() == i - lo,
            text::strings_view(r@) == render_range(records@, lo as int, i as int),
        decreases hi - i,
    {
        let s = label_line(&records[i]);
        let ghost before = r@;
        r.push(s);
        i = i + 1;
        proof {
            let want = render_range(records@, lo as int, i as int);
            let prev = render_range(records@, lo as int, i - 1);
            assert forall|j: int| 0 <= j < r@.len() implies #[trigger] text::strings_view(r@)[j] == want[j] by {
                if j < before.len() {
                    assert(r@[j] == before[j]);
                    assert(text::strings_view(before)[j] == prev[j]);
                }
            }
            assert(text::strings_view(r@) =~= want);
        }
    }
    r
}

/// Lowest indentation kept for an anchor indented `anchor_indent`.
pub fn min_indent_for(anchor_indent: usize, max_levels: usize) -> (m: usize)
    ensures
        m == block_min_indent(anchor_indent as int, max_levels as int),
{
    if max_levels == 0 {
        0
    } else if max_levels > anchor_indent / TAB_WIDTH {
        0
    } else {
        anchor_indent - max_levels * TAB_WIDTH
    }
}

proof fn lemma_up_run_bound(lines: Seq<LineRecord>, a: int, k: int, min: int, siblings: bool, header: bool)
    ensures
        up_run(lines, a, k, min, siblings, header) <= vstd::math::max(0, k + 1),
    decreases k + 1,
{
    if k >= 0 && k < lines.len() {
        lemma_up_run_bound(lines, a, k - 1, min, siblings, header);
    }
}

proof fn lemma_down_run_bound(lines: Seq<LineRecord>, a: int, k: int, min: int, siblings: bool)
    ensures
        down_run(lines, a, k, min, siblings) <= vstd::math::max(0, lines.len() - k),
    decreases lines.len() - k,
{
    if k >= 0 && k < lines.len() {
        lemma_down_run_bound(lines, a, k + 1, min, siblings);
    }
}

/// The window `[lo, hi)` of the block around anchor index `a`.
fn block_window(records: &[LineRecord], a: usize, final_limit: usize, options: &IndentationArgs) -> (w: (usize, usize))
    requires
        a < records@.len(),
    ensures
        w.0 <= w.1 <= records@.len(),
        (w.0 as int, w.1 as int) == block_bounds(
            records@,
            a as int,
            final_limit as int,
            options.max_levels as int,
            options.include_siblings,
            options.include_header,
        ),
{
    let n = records.len();
    assert(a < n);
    let eff = compute_effective_indents(records);
    let min = min_indent_for(eff[a], options.max_levels);
    if final_limit == 1 {
        return (a, a + 1);
    }
    let k = if final_limit <= 1 {
        0
    } else {
        final_limit - 1
    };
    let up = walk_up(
        records,
        eff.as_slice(),
        a,
        min,
        options.include_siblings,
        options.include_header,
        k,
    );
    let down = walk_down(records, eff.as_slice(), a, min, options.include_siblings, k);
    proof {
        lemma_up_run_bound(records@, a as int, a - 1, min as int, options.include_siblings, options.include_header);
        lemma_down_run_bound(records@, a as int, a + 1, min as int, options.include_siblings);
    }
    let half_up = (k + 1) / 2;
    let half_down = k / 2;
    let (u, d) = if up < half_up {
        (up, if down < k - up { down } else { k - up })
    } else if down < half_down {
        (if up < k - down { up } else { k - down }, down)
    } else {
        (half_up, half_down)
    };
    assert(u == up_share(up as int, down as int, k as int));
    assert(d == down_share(up as int, down as int, k as int));
    assert(u <= a);
    assert(d <= records@.len() - 1 - a);
    let hi = a + d + 1;
    trim_empty_lines(records, a - u, hi)
}

/// The window `[lo, hi)` without its leading and trailing blank lines.
pub fn trim_empty_lines(records: &[LineRecord], lo: usize, hi: usize) -> (w: (usize, usize))
    requires
        lo <= hi <= records@.len(),
    ensures
        w.0 as int == first_kept(records@, lo as int, hi as int),
        w.1 as int == last_kept_end(records@, w.0 as int, hi as int),
        lo <= w.0 <= w.1 <= hi,
{
    let mut start = lo;
    while start < hi && records[start].is_blank()
        invariant
            lo <= start <= hi <= records@.len(),
            first_kept(records@, lo as int, hi as int) == first_kept(records@, start as int, hi as int),
        decreases hi - start,
    {
        start = start + 1;
    }
    let mut end = hi;
    while end > start && records[end - 1].is_blank()
        invariant
            start <= end <= hi <= records@.len(),
            last_kept_end(records@, start as int, hi as int) == last_kept_end(records@, start as int, end as int),
        decreases end - start,
    {
        end = end - 1;
    }
    (start, end)
}

/// The indentation block around the anchor, read from the file's lines: the
/// anchor line, then lines taken in turn above and below it while they stay
/// inside the anchor's block (see `up_accepts` and `down_accepts`), up to the
/// line cap, with blank lines trimmed from both ends.
pub fn read_block_lines(
    records: &[LineRecord],
    offset: usize,
    limit: usize,
    options: &IndentationArgs,
) -> (r: Result<Vec<String>, FunctionCallError>)
    ensures
        lines_view(r) == block_result(records@, offset as int, limit as int, *options),
{
    let anchor_line = match options.anchor_line {
        Some(x) => x,
        None => offset,
    };
    if anchor_line == 0 {
        return Err(respond("anchor_line must be a 1-indexed line number"));
    }
    let guard_limit = match options.max_lines {
        Some(x) => x,
        None => limit,
    };
    if guard_limit == 0 {
        return Err(respond("max_lines must be greater than zero"));
    }
    if records.len() == 0 || anchor_line > records.len() {
        return Err(respond("anchor_line exceeds file length"));
    }
    let a = anchor_line - 1;
    let mut final_limit = if limit < guard_limit {
        limit
    } else {
        guard_limit
    };
    if records.len() < final_limit {
        final_limit = records.len();
    }
    let (lo, end) = block_window(records, a, final_limit, options);
    Ok(render_lines(records, lo, end))
}

/// What `String::from_utf8_lossy` makes of `bytes`.
pub uninterp spec fn lossy_utf8(bytes: Seq<u8>) -> Seq<char>;

/// `String::from_utf8_lossy`, owned. Claimed: the result is the decoding
/// named `lossy_utf8` of the bytes, and it has no more characters than there
/// are bytes (each character, or each U+FFFD standing for an invalid
/// sequence, takes at least one byte).
#[verifier::external_body]
pub fn decode_lossy(bytes: &[u8]) -> (s: String)
    ensures
        s@ == lossy_utf8(bytes@),
        s@.len() <= bytes@.len(),
{
    String::from_utf8_lossy(bytes).into_owned()
}

/// Number of bytes of `c` in UTF-8.
pub open spec fn utf8_width(c: char) -> nat {
    if (c as u32) < 0x80 {
        1
    } else if (c as u32) < 0x800 {
        2
    } else if (c as u32) < 0x10000 {
        3
    } else {
        4
    }
}

fn utf8_width_exec(c: char) -> (n: usize)
    ensures
        n == utf8_width(c),
{
    let x = c as u32;
    if x < 0x80 {
        1
    } else if x < 0x800 {
        2
    } else if x < 0x10000 {
        3
    } else {
        4
    }
}

/// How many leading characters of `s` fit in `budget` UTF-8 bytes.
pub open spec fn kept_chars(s: Seq<char>, budget: int) -> nat
    decreases s.len(),
{
    if s.len() == 0 {
        0
    } else if utf8_width(s[0]) <= budget {
        1 + kept_chars(s.drop_first(), budget - utf8_width(s[0]))
    } else {
        0
    }
}

/// The longest prefix of `s` of at most `max` UTF-8 bytes that ends at a
/// character boundary (all of `s` when it fits).
pub open spec fn truncate_utf8(s: Seq<char>, max: int) -> Seq<char> {
    s.take(kept_chars(s, max) as int)
}

/// Number of UTF-8 bytes of `s`.
pub open spec fn utf8_len(s: Seq<char>) -> nat
    decreases s.len(),
{
    if s.len() == 0 {
        0
    } else {
        utf8_width(s[0]) + utf8_len(s.drop_first())
    }
}

/// The cut keeps a prefix of `s` that fits in `max` bytes, and the longest
/// such: one more character would not fit.
pub proof fn lemma_truncate_utf8_longest_fit(s: Seq<char>, max: int)
    requires
        max >= 0,
    ensures
        truncate_utf8(s, max).len() <= s.len(),
        truncate_utf8(s, max) == s.take(truncate_utf8(s, max).len() as int),
        utf8_len(truncate_utf8(s, max)) <= max,
        truncate_utf8(s, max).len() < s.len() ==> utf8_len(s.take(truncate_utf8(s, max).len() + 1int)) > max,
    decreases s.len(),
{
    lemma_kept_chars_bound(s, max);
    let k = kept_chars(s, max);
    if s.len() > 0 && utf8_width(s[0]) <= max {
        let t = s.drop_first();
        let m = max - utf8_width(s[0]);
        lemma_truncate_utf8_longest_fit(t, m);
        assert(s.take(k as int).drop_first() =~= t.take(kept_chars(t, m) as int));
        if k < s.len() {
            assert(s.take(k + 1int).drop_first() =~= t.take(kept_chars(t, m) + 1int));
        }
    } else if s.len() > 0 {
        assert(s.take(0) =~= Seq::<char>::empty());
        assert(s.take(1).drop_first() =~= Seq::<char>::empty());
    } else {
        assert(s.take(0) =~= Seq::<char>::empty());
    }
}

/// How a line of the file is displayed: decoded, then cut to
/// `MAX_LINE_LENGTH` bytes.
pub open spec fn display_text(line: Seq<u8>) -> Seq<char> {
    truncate_utf8(lossy_utf8(line), 500)
}

proof fn lemma_kept_chars_bound(s: Seq<char>, budget: int)
    ensures
        kept_chars(s, budget) <= s.len(),
    decreases s.len(),
{
    if s.len() > 0 {
        lemma_kept_chars_bound(s.drop_first(), budget - utf8_width(s[0]));
    }
}

/// The prefix of `s` that fits in `max` UTF-8 bytes.
pub fn truncate_to_bytes(s: &str, max: usize) -> (r: String)
    ensures
        r@ == truncate_utf8(s@, max as int),
{
    let v = text::chars_of(s);
    let mut i: usize = 0;
    let mut budget = max;
    assert(v@.skip(0) =~= v@);
    while i < v.len() && utf8_width_exec(v[i]) <= budget
        invariant
            i <= v@.len(),
            kept_chars(v@, max as int) == i + kept_chars(v@.skip(i as int), budget as int),
        decreases v.len() - i,
    {
        let w = utf8_width_exec(v[i]);
        assert(v@.skip(i as int).drop_first() =~= v@.skip(i + 1));
        budget = budget - w;
        i = i + 1;
    }
    proof {
        lemma_kept_chars_bound(v@, max as int);
    }
    let kept = text::sub_chars(v.as_slice(), 0, i);
    assert(kept@ =~= v@.take(i as int));
    text::string_of(kept.as_slice())
}

/// A line of the file as a read displays it.
pub fn format_line(bytes: &[u8]) -> (s: String)
    ensures
        s@ == display_text(bytes@),
{
    let decoded = decode_lossy(bytes);
    truncate_to_bytes(decoded.as_str(), MAX_LINE_LENGTH)
}

/// Index of the first newline in `b`, or its length.
pub open spec fn newline_index(b: Seq<u8>) -> int
    decreases b.len(),
{
    if b.len() == 0 {
        0
    } else if b[0] == 10 {
        0
    } else {
        1 + newline_index(b.drop_first())
    }
}

proof fn lemma_newline_index(b: Seq<u8>, i: int)
    requires
        0 <= i <= b.len(),
        forall|j: int| 0 <= j < i ==> b[j] != 10,
        i == b.len() || b[i] == 10,
    ensures
        newline_index(b) == i,
    decreases b.len(),
{
    if b.len() > 0 && i > 0 {
        let t = b.drop_first();
        assert forall|j: int| 0 <= j < i - 1 implies t[j] != 10 by {
            assert(t[j] == b[j + 1]);
        }
        lemma_newline_index(t, i - 1);
    }
}

/// `line` without one trailing carriage return.
pub open spec fn strip_cr_byte(line: Seq<u8>) -> Seq<u8> {
    if line.len() > 0 && line.last() == 13 {
        line.drop_last()
    } else {
        line
    }
}

/// The lines of a file as its reader sees them: split after each `\n`, the
/// `\n` and a `\r` before it removed; a last line without `\n` is kept as is.
pub open spec fn byte_lines(b: Seq<u8>) -> Seq<Seq<u8>>
    decreases b.len(),
{
    if b.len() == 0 {
        seq![]
    } else {
        let i = newline_index(b);
        if 0 <= i < b.len() {
            seq![strip_cr_byte(b.take(i))] + byte_lines(b.skip(i + 1))
        } else {
            seq![b]
        }
    }
}

/// The bytes `b[from..to]`.
fn sub_bytes(b: &[u8], from: usize, to: usize) -> (r: Vec<u8>)
    requires
        from <= to <= b@.len(),
    ensures
        r@ == b@.subrange(from as int, to as int),
{
    let mut r: Vec<u8> = Vec::new();
    let mut k = from;
    while k < to
        invariant
            from <= k <= to <= b@.len(),
            r@ == b@.subrange(from as int, k as int),
        decreases to - k,
    {
        r.push(b[k]);
        k = k + 1;
        assert(r@ =~= b@.subrange(from as int, k as int));
    }
    r
}

/// Splits a file's bytes into its lines.
pub fn split_lines(b: &[u8]) -> (r: Vec<Vec<u8>>)
    ensures
        r@.len() == byte_lines(b@).len(),
        forall|k: int| 0 <= k < r@.len() ==> #[trigger] r@[k]@ == byte_lines(b@)[k],
{
    let mut r: Vec<Vec<u8>> = Vec::new();
    let mut start: usize = 0;
    let ghost mut done: Seq<Seq<u8>> = seq![];
    assert(b@.skip(0) =~= b@);
    assert(done + byte_lines(b@) =~= byte_lines(b@));
    while start < b.len()
        invariant
            start <= b@.len(),
            done + byte_lines(b@.skip(start as int)) == byte_lines(b@),
            r@.len() == done.len(),
            forall|k: int| 0 <= k < r@.len() ==> #[trigger] r@[k]@ == done[k],
        decreases b.len() - start,
    {
        let ghost rest = b@.skip(start as int);
        let mut i = start;
        while i < b.len() && b[i] != 10
            invariant
                start <= i <= b@.len(),
                forall|j: int| start <= j < i ==> b@[j] != 10,
            decreases b.len() - i,
        {
            i = i + 1;
        }
        proof {
            assert forall|j: int| 0 <= j < i - start implies rest[j] != 10 by {
                assert(rest[j] == b@[start + j]);
            }
            if i < b.len() {
                assert(rest[i - start] == b@[i as int]);
            }
            lemma_newline_index(rest, i - start);
        }
        let mut line = sub_bytes(b, start, i);
        if i < b.len() {
            if line.len() > 0 && line[line.len() - 1] == 13 {
                line.pop();
            }
            proof {
                assert(rest.take(i - start) =~= b@.subrange(start as int, i as int));
                assert(rest.skip(i - start + 1) =~= b@.skip(i + 1));
                done = done.push(line@);
                assert(done + byte_lines(b@.skip(i + 1)) =~= byte_lines(b@));
            }
            r.push(line);
            start = i + 1;
        } else {
            proof {
                assert(line@ =~= rest);
                done = done.push(line@);
                assert(byte_lines(rest) =~= seq![rest]);
                assert(b@.skip(i as int) =~= seq![]);
                assert(done + byte_lines(b@.skip(i as int)) =~= byte_lines(b@));
            }
            r.push(line);
            start = i;
        }
    }
    assert(b@.skip(start as int).len() == 0);
    assert(done =~= byte_lines(b@));
    r
}

/// The records of a file's lines: number `k + 1`, the decoded text, the text
/// as displayed, and its indentation width.
pub open spec fn records_of(b: Seq<u8>, recs: Seq<LineRecord>) -> bool {
    &&& recs.len() == byte_lines(b).len()
    &&& forall|k: int|
        0 <= k < recs.len() ==> {
            &&& (#[trigger] recs[k]).number == k + 1
            &&& recs[k].raw@ == lossy_utf8(byte_lines(b)[k])
            &&& recs[k].display@ == display_text(byte_lines(b)[k])
            &&& recs[k].indent == capped_indent(recs[k].raw@)
        }
}

proof fn lemma_byte_lines_short(b: Seq<u8>)
    ensures
        forall|k: int| 0 <= k < byte_lines(b).len() ==> (#[trigger] byte_lines(b)[k]).len() <= b.len(),
        byte_lines(b).len() <= b.len(),
    decreases b.len(),
{
    if b.len() > 0 {
        let i = newline_index(b);
        if 0 <= i < b.len() {
            lemma_byte_lines_short(b.skip(i + 1));
            let rest = byte_lines(b.skip(i + 1));
            let whole = seq![strip_cr_byte(b.take(i))] + rest;
            assert forall|k: int| 0 <= k < whole.len() implies (#[trigger] whole[k]).len() <= b.len() by {
                if k > 0 {
                    assert(whole[k] == rest[k - 1]);
                }
            }
        }
    }
}

/// Reads a file's bytes into line records.
pub fn collect_line_records(b: &[u8]) -> (r: Vec<LineRecord>)
    ensures
        records_of(b@, r@),
{
    let lines = split_lines(b);
    proof {
        lemma_byte_lines_short(b@);
    }
    let mut r: Vec<LineRecord> = Vec::new();
    let mut k: usize = 0;
    while k < lines.len()
        invariant
            k <= lines@.len(),
            lines@.len() == byte_lines(b@).len(),
            forall|j: int| 0 <= j < lines@.len() ==> #[trigger] lines@[j]@ == byte_lines(b@)[j],
            forall|j: int| 0 <= j < byte_lines(b@).len() ==> (#[trigger] byte_lines(b@)[j]).len() <= b@.len(),
            r@.len() == k,
            forall|j: int|
                0 <= j < k ==> {
                    &&& (#[trigger] r@[j]).number == j + 1
                    &&& r@[j].raw@ == lossy_utf8(byte_lines(b@)[j])
                    &&& r@[j].display@ == display_text(byte_lines(b@)[j])
                    &&& r@[j].indent == capped_indent(r@[j].raw@)
                },
        decreases lines.len() - k,
    {
        let raw = decode_lossy(lines[k].as_slice());
        let chars = text::chars_of(raw.as_str());
        let indent = measure_indent(chars.as_slice());
        let display = format_line(lines[k].as_slice());
        r.push(LineRecord { number: k + 1, raw, display, indent });
        k = k + 1;
    }
    r
}

/// What a slice read answers: lines `offset ..` (1-based), `limit` of them
/// at most, or an error when the file has fewer than `offset` lines.
pub open spec fn slice_result(lines: Seq<LineRecord>, offset: int, limit: int) -> Result<Seq<Seq<char>>, Seq<char>> {
    if lines.len() < offset {
        Err("offset exceeds file length"@)
    } else {
        let lo = if offset == 0 {
            0
        } else {
            offset - 1
        };
        Ok(render_range(lines, lo, vstd::math::min(lo + limit, lines.len() as int)))
    }
}

/// A slice read of a file's lines from line `offset` (1-indexed) on: an
/// error when the file has fewer lines; otherwise lines `offset` to
/// `offset + limit - 1`, or to the last line, each as `L<number>: ` and the
/// line decoded and cut to the display length.
pub proof fn lemma_read_shows_lines(b: Seq<u8>, recs: Seq<LineRecord>, offset: int, limit: int)
    requires
        records_of(b, recs),
        offset >= 1,
        limit >= 1,
    ensures
        byte_lines(b).len() < offset ==> slice_result(recs, offset, limit) == Err::<Seq<Seq<char>>, Seq<char>>(
            "offset exceeds file length"@,
        ),
        byte_lines(b).len() >= offset ==> (slice_result(recs, offset, limit) matches Ok(v) && v.len()
            == vstd::math::min(byte_lines(b).len() as int, offset + limit - 1) - offset + 1 && forall|j: int|
            0 <= j < v.len() ==> #[trigger] v[j] == seq!['L'] + text::decimal((offset + j) as nat) + seq![':', ' ']
                + display_text(byte_lines(b)[offset - 1 + j])),
{
    if byte_lines(b).len() >= offset {
        let v = slice_result(recs, offset, limit)->Ok_0;
        assert forall|j: int| 0 <= j < v.len() implies #[trigger] v[j] == seq!['L'] + text::decimal((offset + j) as nat)
            + seq![':', ' '] + display_text(byte_lines(b)[offset - 1 + j]) by {
            assert(recs[offset - 1 + j].number == offset + j);
        }
    }
}

/// Lines `offset ..` of the file, `limit` of them at most.
pub fn read_slice_lines(records: &[LineRecord], offset: usize, limit: usize) -> (r: Result<Vec<String>, FunctionCallError>)
    ensures
        lines_view(r) == slice_result(records@, offset as int, limit as int),
{
    if records.len() < offset {
        return Err(respond("offset exceeds file length"));
    }
    let lo = if offset == 0 {
        0
    } else {
        offset - 1
    };
    let hi = if limit < records.len() - lo {
        lo + limit
    } else {
        records.len()
    };
    Ok(render_lines(records, lo, hi))
}

/// Reads lines `offset ..` of a file, `limit` of them at most, each shown as
/// `L<number>: <text>`.
pub fn read(bytes: &[u8], offset: usize, limit: usize) -> (r: Result<Vec<String>, FunctionCallError>)
    ensures
        exists|recs: Seq<LineRecord>|
            records_of(bytes@, recs) && lines_view(r) == slice_result(recs, offset as int, limit as int),
        offset >= 1 && limit >= 1 && byte_lines(bytes@).len() < offset ==> lines_view(r) == Err::<
            Seq<Seq<char>>,
            Seq<char>,
        >("offset exceeds file length"@),
        offset >= 1 && limit >= 1 && byte_lines(bytes@).len() >= offset ==> (lines_view(r) matches Ok(v) && v.len()
            == vstd::math::min(byte_lines(bytes@).len() as int, offset + limit - 1) - offset + 1 && forall|j: int|
            0 <= j < v.len() ==> #[trigger] v[j] == seq!['L'] + text::decimal((offset + j) as nat) + seq![':', ' ']
                + display_text(byte_lines(bytes@)[offset - 1 + j])),
{
    let records = collect_line_records(bytes);
    proof {
        if offset >= 1 && limit >= 1 {
            lemma_read_shows_lines(bytes@, records@, offset as int, limit as int);
        }
    }
    read_slice_lines(records.as_slice(), offset, limit)
}

/// Every line's indentation width fits a `usize` (measuring a wider one
/// overflows).
pub open spec fn indents_fit(b: Seq<u8>) -> bool {
    forall|k: int| 0 <= k < byte_lines(b).len() ==> indent_width(lossy_utf8(#[trigger] byte_lines(b)[k])) <= usize::MAX
}

/// Reads the indentation block around the anchor line of a file.
pub fn read_block(bytes: &[u8], offset: usize, limit: usize, options: &IndentationArgs) -> (r: Result<Vec<String>, FunctionCallError>)
    requires
        indents_fit(bytes@),
    ensures
        exists|recs: Seq<LineRecord>|
            records_of(bytes@, recs) && lines_view(r) == block_result(recs, offset as int, limit as int, *options),
        ({
            let a = match options.anchor_line {
                Some(x) => x as int,
                None => offset as int,
            };
            let g = match options.max_lines {
                Some(x) => x as int,
                None => limit as int,
            };
            let n = byte_lines(bytes@).len() as int;
            &&& a == 0 ==> lines_view(r) == Err::<Seq<Seq<char>>, Seq<char>>(
                "anchor_line must be a 1-indexed line number"@,
            )
            &&& a > 0 && g == 0 ==> lines_view(r) == Err::<Seq<Seq<char>>, Seq<char>>(
                "max_lines must be greater than zero"@,
            )
            &&& a > 0 && g > 0 && a > n ==> lines_view(r) == Err::<Seq<Seq<char>>, Seq<char>>(
                "anchor_line exceeds file length"@,
            )
            &&& (limit >= 1 && 1 <= a <= n && g > 0 && !text::is_blank(lossy_utf8(byte_lines(bytes@)[a - 1])))
                ==> exists|lo: int, hi: int|
                #![trigger byte_lines(bytes@)[lo], byte_lines(bytes@)[hi - 1]]
                0 <= lo < a <= hi <= n && hi - lo <= vstd::math::min(vstd::math::min(limit as int, g), n)
                    && !text::is_blank(lossy_utf8(byte_lines(bytes@)[lo])) && !text::is_blank(
                    lossy_utf8(byte_lines(bytes@)[hi - 1]),
                ) && lines_view(r) == Ok::<Seq<Seq<char>>, Seq<char>>(
                    Seq::new(
                        (hi - lo) as nat,
                        |i: int|
                            seq!['L'] + text::decimal((lo + i + 1) as nat) + seq![':', ' '] + display_text(
                                byte_lines(bytes@)[lo + i],
                            ),
                    ),
                )
        }),
{
    let records = collect_line_records(bytes);
    proof {
        let recs = records@;
        let a = match options.anchor_line {
            Some(x) => x as int,
            None => offset as int,
        };
        let g = match options.max_lines {
            Some(x) => x as int,
            None => limit as int,
        };
        let n = byte_lines(bytes@).len() as int;
        if limit >= 1 && 1 <= a <= n && g > 0 && !text::is_blank(lossy_utf8(byte_lines(bytes@)[a - 1])) {
            assert(recs[a - 1].raw@ == lossy_utf8(byte_lines(bytes@)[a - 1]));
            lemma_block_holds_anchor(recs, offset as int, limit as int, *options);
            let (lo, hi) = choose|lo: int, hi: int|
                {
                    &&& 0 <= lo < a <= hi <= recs.len()
                    &&& hi - lo <= vstd::math::min(vstd::math::min(limit as int, g), recs.len() as int)
                    &&& !line_is_blank(recs[lo])
                    &&& !line_is_blank(recs[hi - 1])
                    &&& block_result(recs, offset as int, limit as int, *options) == Ok::<Seq<Seq<char>>, Seq<char>>(
                        #[trigger] render_range(recs, lo, hi),
                    )
                };
            assert(recs[lo].raw@ == lossy_utf8(byte_lines(bytes@)[lo]));
            assert(recs[hi - 1].raw@ == lossy_utf8(byte_lines(bytes@)[hi - 1]));
            let want = Seq::new(
                (hi - lo) as nat,
                |i: int|
                    seq!['L'] + text::decimal((lo + i + 1) as nat) + seq![':', ' '] + display_text(byte_lines(bytes@)[lo + i]),
            );
            assert forall|i: int| 0 <= i < hi - lo implies #[trigger] render_range(recs, lo, hi)[i] == want[i] by {
                assert(recs[lo + i].number == lo + i + 1);
                assert(recs[lo + i].display@ == display_text(byte_lines(bytes@)[lo + i]));
            }
            assert(render_range(recs, lo, hi) =~= want);
        }
    }
    read_block_lines(records.as_slice(), offset, limit, options)
}

/// Checks the bounds of a read: `offset` is 1-based and `limit` positive.
pub fn validate_read_bounds(offset: usize, limit: usize) -> (r: Result<(), FunctionCallError>)
    ensures
        offset == 0 ==> (r matches Err(e) && e.message() == "offset must be a 1-indexed line number"@),
        offset != 0 && limit == 0 ==> (r matches Err(e) && e.message() == "limit must be greater than zero"@),
        offset != 0 && limit != 0 ==> r is Ok,
{
    if offset == 0 {
        return Err(respond("offset must be a 1-indexed line number"));
    }
    if limit == 0 {
        return Err(respond("limit must be greater than zero"));
    }
    Ok(())
}

/// How a read selects lines.
#[derive(Clone, Copy, PartialEq, Eq, Structural)]
pub enum ReadMode {
    Slice,
    Indentation,
}

/// Which output of the previous pipeline step a read step consumes.
#[derive(Clone, Copy, PartialEq, Eq, Structural)]
pub enum PipelineInput {
    PreviousFiles,
    PreviousMatches,
}

/// One read of a file.
pub struct ReadRequest {
    pub file_path: String,
    pub offset: usize,
    pub limit: usize,
    pub mode: ReadMode,
    pub indentation: Option<IndentationArgs>,
}

/// A line that a search matched.
pub struct GrepMatch {
    pub path: String,
    pub line: usize,
    pub text: String,
}

/// A read step of a pipeline.
pub struct PipelineReadStep {
    pub reads: Option<Vec<ReadRequest>>,
    pub from: Option<PipelineInput>,
    pub mode: Option<ReadMode>,
    pub indentation: Option<IndentationArgs>,
    pub match_window_before: Option<usize>,
    pub match_window_after: Option<usize>,
    pub limit: usize,
}

/// The read that a pipeline makes of a search match: in slice mode a window
/// of `before` lines above and `after` lines below the match (6 and 12 by
/// default); in indentation mode the block anchored at the matched line.
pub fn request_from_match(found: &GrepMatch, step: &PipelineReadStep, mode: ReadMode) -> (r: ReadRequest)
    requires
        mode == ReadMode::Slice ==> match (step.match_window_before, step.match_window_after) {
            (b, a) => {
                let before = match b { Some(x) => x as int, None => 6 };
                let after = match a { Some(x) => x as int, None => 12 };
                before + after + 1 <= usize::MAX
            },
        },
    ensures
        r.file_path@ == found.path@,
        r.mode == mode,
        mode == ReadMode::Slice ==> {
            let before = match step.match_window_before { Some(x) => x as int, None => 6 };
            let after = match step.match_window_after { Some(x) => x as int, None => 12 };
            &&& r.offset == vstd::math::max(1, vstd::math::max(0, found.line - before))
            &&& r.limit == before + after + 1
            &&& r.indentation is None
        },
        mode == ReadMode::Indentation ==> {
            &&& r.offset == found.line
            &&& r.limit == step.limit
            &&& (r.indentation matches Some(ind) && ind.anchor_line == Some(found.line) && match step.indentation {
                Some(s) => ind.max_levels == s.max_levels && ind.include_siblings == s.include_siblings
                    && ind.include_header == s.include_header && ind.max_lines == s.max_lines,
                None => ind.max_levels == 0 && !ind.include_siblings && ind.include_header
                    && ind.max_lines is None,
            })
        },
{
    match mode {
        ReadMode::Slice => {
            let before = match step.match_window_before {
                Some(x) => x,
                None => 6,
            };
            let after = match step.match_window_after {
                Some(x) => x,
                None => 12,
            };
            let start = if found.line > before {
                found.line - before
            } else {
                0
            };
            let offset = if start < 1 {
                1
            } else {
                start
            };
            ReadRequest {
                file_path: found.path.clone(),
                offset,
                limit: before + after + 1,
                mode,
                indentation: None,
            }
        },
        ReadMode::Indentation => {
            let mut indentation = match step.indentation {
                Some(ind) => ind,
                None => IndentationArgs::default_args(),
            };
            indentation.anchor_line = Some(found.line);
            ReadRequest {
                file_path: found.path.clone(),
                offset: found.line,
                limit: step.limit,
                mode,
                indentation: Some(indentation),
            }
        },
    }
}

} // verus!
