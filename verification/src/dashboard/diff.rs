//! Diff domain types and the unified-diff hunk engine: counting, coloring,
//! hunk-header parsing, segmentation of a diff into hunks, and hunk splitting.
//!
//! The library works on diff text alone. Rendering through an external
//! colorizer, and running `git diff` itself, happen outside; the fallback
//! coloring and all parsing are verified here.

use vstd::prelude::*;

use crate::dashboard::ansi::{spec_strip_ansi, strip_ansi_chars};
use crate::text::{
    chars_to_string, first_field, format_u64, parse_usize, push_char, spec_find, spec_find_sub,
    spec_first_field, spec_lines, spec_nat_string, spec_parse_usize, spec_split_ws,
    spec_starts_with, spec_trim, split_lines, split_ws, starts_with, str_to_chars, sub_chars,
    find_sub_from, find_char_from,
};

verus! {

/// A file entry in the diff, used for the sidebar file list.
pub struct FileEntry {
    /// The filename (relative path).
    pub filename: String,
    /// Lines added in this file.
    pub lines_added: usize,
    /// Lines removed in this file.
    pub lines_removed: usize,
    /// Line index in the rendered text where this file's diff starts.
    pub start_line: usize,
    /// Whether this is an untracked (new) file.
    pub is_new: bool,
}

/// A single hunk from a diff, suitable for staging with a patch tool: the
/// concatenation `file_header + "\n" + hunk_body` reconstructs the change.
pub struct DiffHunk {
    /// The file header (`diff --git ...` up to but not including `@@`).
    pub file_header: String,
    /// The hunk content, starting from its `@@` header line.
    pub hunk_body: String,
    /// The filename being modified.
    pub filename: String,
    /// Lines added in this hunk.
    pub lines_added: usize,
    /// Lines removed in this hunk.
    pub lines_removed: usize,
}

/// The mathematical content of a `DiffHunk`.
#[verifier::ext_equal]
pub struct HunkView {
    pub file_header: Seq<char>,
    pub hunk_body: Seq<char>,
    pub filename: Seq<char>,
    pub lines_added: int,
    pub lines_removed: int,
}

impl View for DiffHunk {
    type V = HunkView;

    open spec fn view(&self) -> HunkView {
        HunkView {
            file_header: self.file_header@,
            hunk_body: self.hunk_body@,
            filename: self.filename@,
            lines_added: self.lines_added as int,
            lines_removed: self.lines_removed as int,
        }
    }
}

impl DeepView for DiffHunk {
    type V = HunkView;

    open spec fn deep_view(&self) -> HunkView {
        self.view()
    }
}

// ---------------------------------------------------------------------------
// Line classification and counting
// ---------------------------------------------------------------------------

/// Whether a (stripped) line is an added line: `+...` but not the `+++` file
/// marker.
pub open spec fn is_add_line(l: Seq<char>) -> bool {
    spec_starts_with(l, "+"@) && !spec_starts_with(l, "+++"@)
}

/// Whether a (stripped) line is a removed line: `-...` but not the `---` file
/// marker.
pub open spec fn is_del_line(l: Seq<char>) -> bool {
    spec_starts_with(l, "-"@) && !spec_starts_with(l, "---"@)
}

/// Added and removed counts over a sequence of lines, each stripped of ANSI
/// escapes before classification.
pub open spec fn spec_count_stats(lines: Seq<Seq<char>>) -> (int, int)
    decreases lines.len(),
{
    if lines.len() == 0 {
        (0int, 0int)
    } else {
        let (a, r) = spec_count_stats(lines.drop_last());
        let l = spec_strip_ansi(lines.last());
        (
            a + if is_add_line(l) {
                1int
            } else {
                0int
            },
            r + if is_del_line(l) {
                1int
            } else {
                0int
            },
        )
    }
}

/// Added and removed counts of a hunk body.
pub open spec fn spec_count_hunk_stats(body: Seq<char>) -> (int, int) {
    spec_count_stats(spec_lines(body))
}

/// A line cannot be both an added and a removed line.
pub proof fn lemma_add_del_disjoint(l: Seq<char>)
    ensures
        !(is_add_line(l) && is_del_line(l)),
{
    reveal_strlit("+");
    reveal_strlit("-");
    if spec_starts_with(l, "+"@) && spec_starts_with(l, "-"@) {
        assert(l.take("+"@.len() as int)[0] == l[0]);
        assert(l.take("-"@.len() as int)[0] == l[0]);
    }
}

/// Whether a raw line is an added line once stripped.
fn line_is_add(line: &Vec<char>) -> (r: bool)
    ensures
        r == is_add_line(spec_strip_ansi(line@)),
{
    let stripped = strip_ansi_chars(line);
    starts_with(&stripped, "+") && !starts_with(&stripped, "+++")
}

/// Whether a raw line is a removed line once stripped.
fn line_is_del(line: &Vec<char>) -> (r: bool)
    ensures
        r == is_del_line(spec_strip_ansi(line@)),
{
    let stripped = strip_ansi_chars(line);
    starts_with(&stripped, "-") && !starts_with(&stripped, "---")
}

/// Count added and removed lines over a vector of lines.
fn count_lines_stats(lines: &Vec<Vec<char>>) -> (r: (usize, usize))
    ensures
        r.0 as int == spec_count_stats(lines.deep_view()).0,
        r.1 as int == spec_count_stats(lines.deep_view()).1,
{
    let ghost ld = lines.deep_view();
    let mut added: usize = 0;
    let mut removed: usize = 0;
    let mut i: usize = 0;
    proof {
        assert(ld.take(0) =~= Seq::<Seq<char>>::empty());
    }
    while i < lines.len()
        invariant
            i <= lines.len(),
            ld == lines.deep_view(),
            added as int == spec_count_stats(ld.take(i as int)).0,
            removed as int == spec_count_stats(ld.take(i as int)).1,
            added <= i,
            removed <= i,
        decreases lines.len() - i,
    {
        proof {
            assert(ld.take(i + 1).drop_last() =~= ld.take(i as int));
            assert(ld[i as int] =~= lines@[i as int]@);
            assert(ld.take(i + 1).last() == ld[i as int]);
            lemma_add_del_disjoint(spec_strip_ansi(ld[i as int]));
        }
        if line_is_add(&lines[i]) {
            added = added + 1;
        } else if line_is_del(&lines[i]) {
            removed = removed + 1;
        }
        i = i + 1;
    }
    proof {
        assert(ld.take(lines.len() as int) =~= ld);
    }
    (added, removed)
}

/// Count added/removed lines in a single hunk body.
pub fn count_hunk_stats(hunk_body: &str) -> (r: (usize, usize))
    ensures
        r.0 as int == spec_count_hunk_stats(hunk_body@).0,
        r.1 as int == spec_count_hunk_stats(hunk_body@).1,
{
    let v = str_to_chars(hunk_body);
    let lines = split_lines(&v);
    count_lines_stats(&lines)
}

/// Count added and removed lines over whole diff content.
pub fn count_diff_stats(content: &str) -> (r: (usize, usize))
    ensures
        r.0 as int == spec_count_hunk_stats(content@).0,
        r.1 as int == spec_count_hunk_stats(content@).1,
{
    count_hunk_stats(content)
}

// ---------------------------------------------------------------------------
// Fallback coloring
// ---------------------------------------------------------------------------

/// A line with the fallback color applied: green for additions, red for
/// removals, cyan for hunk headers, unchanged otherwise.
pub open spec fn color_line(l: Seq<char>) -> Seq<char> {
    if is_add_line(l) {
        "\x1b[32m"@ + l + "\x1b[0m"@
    } else if is_del_line(l) {
        "\x1b[31m"@ + l + "\x1b[0m"@
    } else if spec_starts_with(l, "@@"@) {
        "\x1b[36m"@ + l + "\x1b[0m"@
    } else {
        l
    }
}

/// Lines joined with single newlines.
pub open spec fn spec_join_nl(ls: Seq<Seq<char>>) -> Seq<char>
    decreases ls.len(),
{
    if ls.len() == 0 {
        Seq::empty()
    } else if ls.len() == 1 {
        ls[0]
    } else {
        spec_join_nl(ls.drop_last()) + seq!['\n'] + ls.last()
    }
}

/// The fallback coloring of diff content: every line colored, joined by
/// newlines. Note that classification here reads the raw line.
pub open spec fn spec_apply_basic_diff_colors(s: Seq<char>) -> Seq<char> {
    spec_join_nl(spec_lines(s).map_values(|l: Seq<char>| color_line(l)))
}

/// Color one line by its leading characters.
fn color_one_line(line: &Vec<char>) -> (r: String)
    ensures
        r@ == color_line(line@),
{
    let body = chars_to_string(line);
    let mut s = String::new();
    if starts_with(line, "+") && !starts_with(line, "+++") {
        s.append("\x1b[32m");
        s.append(body.as_str());
        s.append("\x1b[0m");
    } else if starts_with(line, "-") && !starts_with(line, "---") {
        s.append("\x1b[31m");
        s.append(body.as_str());
        s.append("\x1b[0m");
    } else if starts_with(line, "@@") {
        s.append("\x1b[36m");
        s.append(body.as_str());
        s.append("\x1b[0m");
    } else {
        s.append(body.as_str());
    }
    s
}

/// Apply basic ANSI colors to diff content (the fallback when no external
/// renderer is available).
#[verifier::rlimit(50)]
pub fn apply_basic_diff_colors(content: &str) -> (r: String)
    ensures
        r@ == spec_apply_basic_diff_colors(content@),
{
    let v = str_to_chars(content);
    let lines = split_lines(&v);
    let ghost ld = lines.deep_view();
    let ghost colored = ld.map_values(|l: Seq<char>| color_line(l));
    let mut s = String::new();
    let mut i: usize = 0;
    proof {
        assert(colored.take(0) =~= Seq::<Seq<char>>::empty());
    }
    while i < lines.len()
        invariant
            i <= lines.len(),
            ld == lines.deep_view(),
            ld == spec_lines(content@),
            colored == ld.map_values(|l: Seq<char>| color_line(l)),
            s@ == spec_join_nl(colored.take(i as int)),
        decreases lines.len() - i,
    {
        if i > 0 {
            push_char(&mut s, '\n');
        }
        let cl = color_one_line(&lines[i]);
        s.append(cl.as_str());
        proof {
            let t = colored.take(i + 1);
            assert(t.drop_last() =~= colored.take(i as int));
            assert(t.last() == colored[i as int]);
            assert(ld[i as int] =~= lines@[i as int]@);
            assert(colored[i as int] == color_line(ld[i as int]));
            assert(colored[i as int] == color_line(lines@[i as int]@));
            if i > 0 {
                assert(s@ =~= spec_join_nl(t));
            } else {
                assert(s@ =~= spec_join_nl(t));
            }
        }
        i = i + 1;
    }
    proof {
        assert(colored.take(lines.len() as int) =~= colored);
    }
    s
}

/// Join lines with single newlines.
fn join_nl(lines: &Vec<Vec<char>>) -> (s: String)
    ensures
        s@ == spec_join_nl(lines.deep_view()),
{
    let ghost ld = lines.deep_view();
    let mut s = String::new();
    let mut i: usize = 0;
    proof {
        assert(ld.take(0) =~= Seq::<Seq<char>>::empty());
    }
    while i < lines.len()
        invariant
            i <= lines.len(),
            ld == lines.deep_view(),
            s@ == spec_join_nl(ld.take(i as int)),
        decreases lines.len() - i,
    {
        if i > 0 {
            push_char(&mut s, '\n');
        }
        let line = chars_to_string(&lines[i]);
        s.append(line.as_str());
        proof {
            let t = ld.take(i + 1);
            assert(t.drop_last() =~= ld.take(i as int));
            assert(ld[i as int] =~= lines@[i as int]@);
            assert(t.last() == ld[i as int]);
            assert(s@ =~= spec_join_nl(t));
        }
        i = i + 1;
    }
    proof {
        assert(ld.take(lines.len() as int) =~= ld);
    }
    s
}

// ---------------------------------------------------------------------------
// Hunk headers
// ---------------------------------------------------------------------------

/// One `-old,count` or `+new,count` token folded into the pair of starting
/// line numbers; later tokens overwrite earlier ones, as the parser reads
/// them left to right.
pub open spec fn hh_fold(toks: Seq<Seq<char>>) -> (Option<usize>, Option<usize>)
    decreases toks.len(),
{
    if toks.len() == 0 {
        (None::<usize>, None::<usize>)
    } else {
        let (o, n) = hh_fold(toks.drop_last());
        let t = toks.last();
        if spec_starts_with(t, "-"@) {
            (spec_parse_usize(spec_first_field(t.skip(1), ',')), n)
        } else if spec_starts_with(t, "+"@) {
            (o, spec_parse_usize(spec_first_field(t.skip(1), ',')))
        } else {
            (o, n)
        }
    }
}

/// What `parse_hunk_header` returns: the pair of old and new starting line
/// numbers between the first two `@@` markers, when both can be read.
pub open spec fn spec_parse_hunk_header(header: Seq<char>) -> Option<(usize, usize)> {
    let s = spec_strip_ansi(header);
    let i1 = spec_find_sub(s, "@@"@);
    if !(0 <= i1 && i1 + 2 <= s.len()) {
        None
    } else {
        let rest = s.skip(i1 + 2);
        let i2 = spec_find_sub(rest, "@@"@);
        let meta = if 0 <= i2 <= rest.len() {
            rest.take(i2)
        } else {
            rest
        };
        let (o, n) = hh_fold(spec_split_ws(meta));
        match (o, n) {
            (Some(a), Some(b)) => Some((a, b)),
            _ => None,
        }
    }
}

/// Parse a hunk header such as `@@ -10,5 +12,7 @@` into the old and new
/// starting line numbers `(10, 12)`.
pub fn parse_hunk_header(header: &str) -> (r: Option<(usize, usize)>)
    ensures
        r == spec_parse_hunk_header(header@),
{
    let hv = str_to_chars(header);
    let s = strip_ansi_chars(&hv);
    let i1 = match find_sub_from(&s, "@@", 0) {
        Some(i) => i,
        None => {
            proof {
                assert(s@.skip(0) =~= s@);
            }
            return None;
        },
    };
    proof {
        assert(s@.skip(0) =~= s@);
    }
    if s.len() < i1 || s.len() - i1 < 2 {
        return None;
    }
    let rest = sub_chars(&s, i1 + 2, s.len());
    proof {
        assert(rest@ =~= s@.skip(i1 + 2));
    }
    let meta = match find_sub_from(&rest, "@@", 0) {
        Some(i2) => {
            let m = sub_chars(&rest, 0, i2);
            proof {
                assert(rest@.skip(0) =~= rest@);
                assert(m@ =~= rest@.take(i2 as int));
            }
            m
        },
        None => {
            proof {
                assert(rest@.skip(0) =~= rest@);
            }
            rest
        },
    };
    let toks = split_ws(&meta);
    let ghost td = toks.deep_view();
    let mut old_start: Option<usize> = None;
    let mut new_start: Option<usize> = None;
    let mut i: usize = 0;
    proof {
        assert(td.take(0) =~= Seq::<Seq<char>>::empty());
    }
    while i < toks.len()
        invariant
            i <= toks.len(),
            td == toks.deep_view(),
            (old_start, new_start) == hh_fold(td.take(i as int)),
        decreases toks.len() - i,
    {
        proof {
            assert(td.take(i + 1).drop_last() =~= td.take(i as int));
            assert(td.take(i + 1).last() =~= toks@[i as int]@);
        }
        let t = &toks[i];
        if starts_with(t, "-") {
            proof {
                reveal_strlit("-");
            }
            let rest_t = sub_chars(t, 1, t.len());
            proof {
                assert(rest_t@ =~= t@.skip(1));
            }
            let field = first_field(&rest_t, ',');
            old_start = parse_usize(&field);
        } else if starts_with(t, "+") {
            proof {
                reveal_strlit("+");
            }
            let rest_t = sub_chars(t, 1, t.len());
            proof {
                assert(rest_t@ =~= t@.skip(1));
            }
            let field = first_field(&rest_t, ',');
            new_start = parse_usize(&field);
        }
        i = i + 1;
    }
    proof {
        assert(td.take(toks.len() as int) =~= td);
    }
    match (old_start, new_start) {
        (Some(a), Some(b)) => Some((a, b)),
        _ => None,
    }
}

// ---------------------------------------------------------------------------
// Segmenting a diff into hunks
// ---------------------------------------------------------------------------

/// The accumulating state of the diff-to-hunk segmentation: the file header
/// and filename gathered so far, the lines of the hunk being read, the hunks
/// already emitted, and counts of change lines seen outside any hunk.
#[verifier::ext_equal]
pub struct ParseState {
    pub file_header: Seq<char>,
    pub filename: Seq<char>,
    pub in_hunk: bool,
    pub hunk_lines: Seq<Seq<char>>,
    pub hunks: Seq<HunkView>,
    pub orphan_added: int,
    pub orphan_removed: int,
}

/// The segmentation's starting state.
pub open spec fn init_state() -> ParseState {
    ParseState {
        file_header: Seq::empty(),
        filename: Seq::empty(),
        in_hunk: false,
        hunk_lines: Seq::empty(),
        hunks: Seq::empty(),
        orphan_added: 0,
        orphan_removed: 0,
    }
}

/// A finished hunk: header, lines joined back into the body, and its counts.
pub open spec fn mk_hunk(header: Seq<char>, filename: Seq<char>, lines: Seq<Seq<char>>) -> HunkView {
    HunkView {
        file_header: header,
        hunk_body: spec_join_nl(lines),
        filename: filename,
        lines_added: spec_count_stats(lines).0,
        lines_removed: spec_count_stats(lines).1,
    }
}

/// The emitted hunks once the hunk being read, if any, is closed.
pub open spec fn flush(st: ParseState) -> Seq<HunkView> {
    if st.in_hunk && st.hunk_lines.len() > 0 {
        st.hunks.push(mk_hunk(st.file_header, st.filename, st.hunk_lines))
    } else {
        st.hunks
    }
}

/// The filename taken from a `diff --git` line: the last whitespace token with
/// its one-character prefix (`a/` or `b/`) removed, when it has that shape.
pub open spec fn filename_of_git_line(stripped: Seq<char>, old: Seq<char>) -> Seq<char> {
    let toks = spec_split_ws(stripped);
    if toks.len() > 0 && spec_find(toks.last(), '/') == 1 {
        toks.last().skip(2)
    } else {
        old
    }
}

/// One line of the diff folded into the segmentation state. A `diff --git`
/// line opens a new file section; an `@@` line opens a new hunk; other lines
/// extend the current hunk or the file header.
pub open spec fn parse_step(st: ParseState, line: Seq<char>) -> ParseState {
    let stripped = spec_strip_ansi(line);
    if spec_starts_with(stripped, "diff --git"@) {
        ParseState {
            file_header: line,
            filename: filename_of_git_line(stripped, st.filename),
            in_hunk: false,
            hunk_lines: Seq::empty(),
            hunks: flush(st),
            orphan_added: st.orphan_added + if is_add_line(stripped) { 1int } else { 0int },
            orphan_removed: st.orphan_removed + if is_del_line(stripped) { 1int } else { 0int },
        }
    } else if spec_starts_with(stripped, "@@"@) {
        ParseState {
            file_header: st.file_header,
            filename: st.filename,
            in_hunk: true,
            hunk_lines: seq![line],
            hunks: flush(st),
            orphan_added: st.orphan_added,
            orphan_removed: st.orphan_removed,
        }
    } else if st.in_hunk {
        ParseState {
            file_header: st.file_header,
            filename: st.filename,
            in_hunk: true,
            hunk_lines: st.hunk_lines.push(line),
            hunks: st.hunks,
            orphan_added: st.orphan_added,
            orphan_removed: st.orphan_removed,
        }
    } else {
        ParseState {
            file_header: st.file_header + seq!['\n'] + line,
            filename: st.filename,
            in_hunk: false,
            hunk_lines: st.hunk_lines,
            hunks: st.hunks,
            orphan_added: st.orphan_added + if is_add_line(stripped) { 1int } else { 0int },
            orphan_removed: st.orphan_removed + if is_del_line(stripped) { 1int } else { 0int },
        }
    }
}

/// The segmentation state after all lines.
pub open spec fn parse_fold(lines: Seq<Seq<char>>) -> ParseState
    decreases lines.len(),
{
    if lines.len() == 0 {
        init_state()
    } else {
        parse_step(parse_fold(lines.drop_last()), lines.last())
    }
}

/// The hunks of a raw diff: its lines folded through the segmentation and the
/// last open hunk closed.
pub open spec fn spec_parse_diff_into_hunks(d: Seq<char>) -> Seq<HunkView> {
    flush(parse_fold(spec_lines(d)))
}

/// Close the hunk under construction and append it to `out`.
fn flush_hunk(
    out: &mut Vec<DiffHunk>,
    header: &Vec<char>,
    filename: &Vec<char>,
    in_hunk: bool,
    cur: &Vec<Vec<char>>,
    Ghost(st): Ghost<ParseState>,
)
    requires
        header@ == st.file_header,
        filename@ == st.filename,
        in_hunk == st.in_hunk,
        cur.deep_view() == st.hunk_lines,
        old(out).deep_view() == st.hunks,
    ensures
        final(out).deep_view() == flush(st),
{
    let ghost pre = out.deep_view();
    if in_hunk && cur.len() > 0 {
        let (added, removed) = count_lines_stats(cur);
        let body = join_nl(cur);
        let h = DiffHunk {
            file_header: chars_to_string(header),
            hunk_body: body,
            filename: chars_to_string(filename),
            lines_added: added,
            lines_removed: removed,
        };
        proof {
            assert(h@ =~~= mk_hunk(st.file_header, st.filename, st.hunk_lines));
        }
        out.push(h);
        proof {
            assert(out.deep_view() =~~= pre.push(h@));
            assert(out.deep_view() =~~= flush(st));
        }
    }
}

/// Parse raw diff output into individual hunks. Each hunk carries the file
/// header of its section, its body beginning at the `@@` line, the filename,
/// and its added/removed counts.
pub fn parse_diff_into_hunks(raw_diff: &str) -> (hunks: Vec<DiffHunk>)
    ensures
        hunks.deep_view() == spec_parse_diff_into_hunks(raw_diff@),
{
    let v = str_to_chars(raw_diff);
    let lines = split_lines(&v);
    let ghost ld = lines.deep_view();
    let mut out: Vec<DiffHunk> = Vec::new();
    let mut header: Vec<char> = Vec::new();
    let mut filename: Vec<char> = Vec::new();
    let mut in_hunk: bool = false;
    let mut cur: Vec<Vec<char>> = Vec::new();
    let mut i: usize = 0;
    proof {
        assert(ld.take(0) =~= Seq::<Seq<char>>::empty());
        assert(parse_fold(ld.take(0)) =~~= init_state());
        assert(out.deep_view() =~~= Seq::<HunkView>::empty());
        assert(cur.deep_view() =~~= Seq::<Seq<char>>::empty());
    }
    while i < lines.len()
        invariant
            i <= lines.len(),
            ld == lines.deep_view(),
            ld == spec_lines(raw_diff@),
            header@ == parse_fold(ld.take(i as int)).file_header,
            filename@ == parse_fold(ld.take(i as int)).filename,
            in_hunk == parse_fold(ld.take(i as int)).in_hunk,
            cur.deep_view() == parse_fold(ld.take(i as int)).hunk_lines,
            out.deep_view() == parse_fold(ld.take(i as int)).hunks,
        decreases lines.len() - i,
    {
        let ghost st = parse_fold(ld.take(i as int));
        proof {
            assert(ld.take(i + 1).drop_last() =~= ld.take(i as int));
            assert(ld[i as int] =~= lines@[i as int]@);
            assert(ld.take(i + 1).last() == ld[i as int]);
        }
        let line = &lines[i];
        let stripped = strip_ansi_chars(line);
        if starts_with(&stripped, "diff --git") {
            flush_hunk(&mut out, &header, &filename, in_hunk, &cur, Ghost(st));
            header = line.clone();
            in_hunk = false;
            cur = Vec::new();
            let toks = split_ws(&stripped);
            if toks.len() > 0 {
                let last_tok = &toks[toks.len() - 1];
                let slash = find_char_from(last_tok, '/', 0);
                proof {
                    assert(last_tok@.skip(0) =~= last_tok@);
                    assert(toks.deep_view().last() =~= last_tok@);
                }
                if let Some(sl) = slash {
                    if sl == 1 {
                        filename = sub_chars(last_tok, 2, last_tok.len());
                        proof {
                            assert(filename@ =~= last_tok@.skip(2));
                        }
                    }
                }
            }
            proof {
                assert(cur.deep_view() =~~= Seq::<Seq<char>>::empty());
                assert(filename@ == filename_of_git_line(spec_strip_ansi(ld[i as int]), st.filename));
            }
        } else if starts_with(&stripped, "@@") {
            flush_hunk(&mut out, &header, &filename, in_hunk, &cur, Ghost(st));
            in_hunk = true;
            cur = Vec::new();
            cur.push(line.clone());
            proof {
                assert(cur.deep_view() =~~= seq![ld[i as int]]);
            }
        } else if in_hunk {
            let ghost pre_cur = cur.deep_view();
            cur.push(line.clone());
            proof {
                assert(cur.deep_view() =~~= pre_cur.push(ld[i as int]));
            }
        } else {
            header.push('\n');
            let mut k: usize = 0;
            let ghost pre_header = header@;
            while k < line.len()
                invariant
                    k <= line.len(),
                    header@ == pre_header + line@.take(k as int),
                decreases line.len() - k,
            {
                header.push(line[k]);
                proof {
                    assert(header@ =~= pre_header + line@.take(k + 1 as int));
                }
                k = k + 1;
            }
            proof {
                assert(line@.take(line@.len() as int) =~= line@);
                assert(header@ =~= st.file_header + seq!['\n'] + ld[i as int]);
            }
        }
        i = i + 1;
    }
    proof {
        assert(ld.take(lines.len() as int) =~= ld);
    }
    let ghost st = parse_fold(ld);
    flush_hunk(&mut out, &header, &filename, in_hunk, &cur, Ghost(st));
    out
}

// ---------------------------------------------------------------------------
// Splitting a hunk at context gaps
// ---------------------------------------------------------------------------

/// Whether a raw line is a change line (added or removed) once stripped.
pub open spec fn is_change_line(l: Seq<char>) -> bool {
    is_add_line(spec_strip_ansi(l)) || is_del_line(spec_strip_ansi(l))
}

/// Executable test for a change line.
fn line_is_change(line: &Vec<char>) -> (r: bool)
    ensures
        r == is_change_line(line@),
{
    line_is_add(line) || line_is_del(line)
}

/// The indices of the change lines among `content`, in increasing order.
pub open spec fn change_indices(content: Seq<Seq<char>>) -> Seq<int>
    decreases content.len(),
{
    if content.len() == 0 {
        Seq::empty()
    } else {
        let r = change_indices(content.drop_last());
        if is_change_line(content.last()) {
            r.push(content.len() - 1)
        } else {
            r
        }
    }
}

/// Change indices lie within `content` and grow strictly.
pub proof fn lemma_change_indices_sorted(content: Seq<Seq<char>>)
    ensures
        forall|k: int|
            0 <= k < change_indices(content).len() ==> 0 <= #[trigger] change_indices(content)[k]
                < content.len(),
        forall|a: int, b: int|
            0 <= a < b < change_indices(content).len() ==> #[trigger] change_indices(
                content,
            )[a] < #[trigger] change_indices(content)[b],
    decreases content.len(),
{
    if content.len() > 0 {
        let r = change_indices(content.drop_last());
        let full = change_indices(content);
        lemma_change_indices_sorted(content.drop_last());
        if is_change_line(content.last()) {
            assert(full == r.push(content.len() - 1));
            assert forall|k: int| 0 <= k < full.len() implies 0 <= #[trigger] full[k]
                < content.len() by {
                if k < r.len() {
                    assert(full[k] == r[k]);
                }
            }
            assert forall|a: int, b: int| 0 <= a < b < full.len() implies #[trigger] full[a]
                < #[trigger] full[b] by {
                if b < r.len() {
                    assert(full[a] == r[a] && full[b] == r[b]);
                } else {
                    assert(full[b] == content.len() - 1);
                    assert(full[a] == r[a]);
                    assert(r[a] < content.drop_last().len());
                }
            }
        }
    }
}

/// The split points of a sorted index sequence: for every pair of adjacent
/// change indices separated by context, the pair `(next, prev + 1)` marking
/// where one sub-hunk ends and the next begins.
pub open spec fn split_points(ch: Seq<int>) -> Seq<(int, int)>
    decreases ch.len(),
{
    if ch.len() < 2 {
        Seq::empty()
    } else {
        let r = split_points(ch.drop_last());
        let prev = ch[ch.len() - 2];
        let next = ch.last();
        if next > prev + 1 {
            r.push((next, prev + 1))
        } else {
            r
        }
    }
}

/// The old/new position reached after reading one line.
pub open spec fn advance_pos(o: int, n: int, l: Seq<char>) -> (int, int) {
    let s = spec_strip_ansi(l);
    if is_del_line(s) {
        (o + 1, n)
    } else if is_add_line(s) {
        (o, n + 1)
    } else {
        (o + 1, n + 1)
    }
}

/// The old/new position after reading all of `content`, from `(o0, n0)`.
pub open spec fn pos_after(content: Seq<Seq<char>>, o0: int, n0: int) -> (int, int)
    decreases content.len(),
{
    if content.len() == 0 {
        (o0, n0)
    } else {
        let p = pos_after(content.drop_last(), o0, n0);
        advance_pos(p.0, p.1, content.last())
    }
}

/// Old-side count, new-side count, added count and removed count of a slice
/// of hunk lines.
pub open spec fn sub_counts(lines: Seq<Seq<char>>) -> (int, int, int, int)
    decreases lines.len(),
{
    if lines.len() == 0 {
        (0int, 0int, 0int, 0int)
    } else {
        let c = sub_counts(lines.drop_last());
        let s = spec_strip_ansi(lines.last());
        if is_del_line(s) {
            (c.0 + 1, c.1, c.2, c.3 + 1)
        } else if is_add_line(s) {
            (c.0, c.1 + 1, c.2 + 1, c.3)
        } else {
            (c.0 + 1, c.1 + 1, c.2, c.3)
        }
    }
}

/// A recomputed `@@ -old,count +new,count @@` header.
pub open spec fn sub_header(o: int, co: int, n: int, cn: int) -> Seq<char> {
    "@@ -"@ + spec_nat_string(o) + ","@ + spec_nat_string(co) + " +"@ + spec_nat_string(n) + ","@
        + spec_nat_string(cn) + " @@"@
}

/// The sub-hunk of `parent` covering `content[start..end]`, with its header
/// derived by simulating line-number progression through the preceding lines.
pub open spec fn spec_sub_hunk(
    parent: HunkView,
    content: Seq<Seq<char>>,
    start: int,
    end: int,
    o0: int,
    n0: int,
) -> HunkView {
    let p = pos_after(content.take(start), o0, n0);
    let c = sub_counts(content.subrange(start, end));
    HunkView {
        file_header: parent.file_header,
        hunk_body: spec_join_nl(seq![sub_header(p.0, c.0, p.1, c.1)] + content.subrange(start, end)),
        filename: parent.filename,
        lines_added: c.2,
        lines_removed: c.3,
    }
}

/// The sub-hunks cut at the given split points, starting at `start`.
pub open spec fn sub_hunks_rec(
    parent: HunkView,
    content: Seq<Seq<char>>,
    points: Seq<(int, int)>,
    start: int,
    o0: int,
    n0: int,
) -> Seq<HunkView>
    decreases points.len(),
{
    if points.len() == 0 {
        if start < content.len() {
            seq![spec_sub_hunk(parent, content, start, content.len() as int, o0, n0)]
        } else {
            Seq::empty()
        }
    } else {
        let p = points[0];
        let head: Seq<HunkView> = if start < p.0 {
            seq![spec_sub_hunk(parent, content, start, p.0, o0, n0)]
        } else {
            Seq::empty()
        };
        head + sub_hunks_rec(parent, content, points.skip(1), p.1, o0, n0)
    }
}

/// What `split` returns: the sub-hunks of a hunk whose body parses and whose
/// change lines are separated by at least one context line somewhere, and
/// nothing otherwise.
pub open spec fn spec_split(h: HunkView) -> Option<Seq<HunkView>> {
    let lines = crate::text::spec_split_char(h.hunk_body, '\n');
    if lines.len() == 0 {
        None
    } else {
        match spec_parse_hunk_header(lines[0]) {
            None => None,
            Some(on) => {
                let content = lines.skip(1);
                let ch = change_indices(content);
                if ch.len() == 0 {
                    None
                } else {
                    let pts = split_points(ch);
                    if pts.len() == 0 {
                        None
                    } else {
                        let hs = sub_hunks_rec(h, content, pts, 0, on.0 as int, on.1 as int);
                        if hs.len() > 1 {
                            Some(hs)
                        } else {
                            None
                        }
                    }
                }
            },
        }
    }
}

impl DiffHunk {
    /// Create a sub-hunk from `content[start..end]`, simulating line numbers
    /// through the lines before `start`.
    fn create_sub_hunk(
        &self,
        content: &Vec<Vec<char>>,
        start: usize,
        end: usize,
        base_old: usize,
        base_new: usize,
    ) -> (r: Option<DiffHunk>)
        requires
            start <= end <= content@.len(),
        ensures
            start == end ==> r is None,
            start < end ==> (r matches Some(h) && h@ == spec_sub_hunk(
                self@,
                content.deep_view(),
                start as int,
                end as int,
                base_old as int,
                base_new as int,
            )),
    {
        if start == end {
            return None;
        }
        let ghost cd = content.deep_view();
        // Simulate the position of the sub-hunk within the parent.
        let mut cur_old: u128 = base_old as u128;
        let mut cur_new: u128 = base_new as u128;
        let mut k: usize = 0;
        proof {
            assert(cd.take(0) =~= Seq::<Seq<char>>::empty());
        }
        while k < start
            invariant
                k <= start <= cd.len(),
                cd == content.deep_view(),
                cur_old as int == pos_after(cd.take(k as int), base_old as int, base_new as int).0,
                cur_new as int == pos_after(cd.take(k as int), base_old as int, base_new as int).1,
                cur_old <= base_old + k,
                cur_new <= base_new + k,
            decreases start - k,
        {
            proof {
                assert(cd.take(k + 1).drop_last() =~= cd.take(k as int));
                assert(cd[k as int] =~= content@[k as int]@);
                assert(cd.take(k + 1).last() == cd[k as int]);
                lemma_add_del_disjoint(spec_strip_ansi(cd[k as int]));
            }
            let line = &content[k];
            if line_is_del(line) {
                cur_old = cur_old + 1;
            } else if line_is_add(line) {
                cur_new = cur_new + 1;
            } else {
                cur_old = cur_old + 1;
                cur_new = cur_new + 1;
            }
            k = k + 1;
        }
        // Count the lines of the sub-hunk itself.
        let mut count_old: usize = 0;
        let mut count_new: usize = 0;
        let mut added: usize = 0;
        let mut removed: usize = 0;
        let mut j: usize = start;
        proof {
            assert(cd.subrange(start as int, start as int) =~= Seq::<Seq<char>>::empty());
        }
        while j < end
            invariant
                start <= j <= end <= cd.len(),
                cd == content.deep_view(),
                count_old as int == sub_counts(cd.subrange(start as int, j as int)).0,
                count_new as int == sub_counts(cd.subrange(start as int, j as int)).1,
                added as int == sub_counts(cd.subrange(start as int, j as int)).2,
                removed as int == sub_counts(cd.subrange(start as int, j as int)).3,
                count_old <= j - start,
                count_new <= j - start,
                added <= j - start,
                removed <= j - start,
            decreases end - j,
        {
            proof {
                assert(cd.subrange(start as int, j + 1).drop_last() =~= cd.subrange(
                    start as int,
                    j as int,
                ));
                assert(cd[j as int] =~= content@[j as int]@);
                assert(cd.subrange(start as int, j + 1).last() == cd[j as int]);
                lemma_add_del_disjoint(spec_strip_ansi(cd[j as int]));
            }
            let line = &content[j];
            if line_is_del(line) {
                count_old = count_old + 1;
                removed = removed + 1;
            } else if line_is_add(line) {
                count_new = count_new + 1;
                added = added + 1;
            } else {
                count_old = count_old + 1;
                count_new = count_new + 1;
            }
            j = j + 1;
        }
        // Build the recomputed header.
        let mut header = String::new();
        header.append("@@ -");
        let s1 = crate::text::format_u128(cur_old);
        header.append(s1.as_str());
        header.append(",");
        let s2 = format_u64(count_old as u64);
        header.append(s2.as_str());
        header.append(" +");
        let s3 = crate::text::format_u128(cur_new);
        header.append(s3.as_str());
        header.append(",");
        let s4 = format_u64(count_new as u64);
        header.append(s4.as_str());
        header.append(" @@");
        proof {
            assert(header@ =~= sub_header(
                cur_old as int,
                count_old as int,
                cur_new as int,
                count_new as int,
            ));
        }
        // Assemble the body: the header line, then the covered lines.
        let header_chars = str_to_chars(header.as_str());
        let mut body_lines: Vec<Vec<char>> = Vec::new();
        body_lines.push(header_chars);
        let mut m: usize = start;
        proof {
            assert(body_lines.deep_view() =~~= seq![header@] + cd.subrange(
                start as int,
                start as int,
            ));
        }
        while m < end
            invariant
                start <= m <= end <= cd.len(),
                cd == content.deep_view(),
                body_lines.deep_view() == seq![
                    sub_header(
                        cur_old as int,
                        count_old as int,
                        cur_new as int,
                        count_new as int,
                    ),
                ] + cd.subrange(start as int, m as int),
                header@ == sub_header(
                    cur_old as int,
                    count_old as int,
                    cur_new as int,
                    count_new as int,
                ),
            decreases end - m,
        {
            let ghost pre = body_lines.deep_view();
            body_lines.push(content[m].clone());
            proof {
                assert(cd[m as int] =~= content@[m as int]@);
                assert(body_lines.deep_view() =~~= pre.push(cd[m as int]));
                assert(body_lines.deep_view() =~~= seq![
                    sub_header(
                        cur_old as int,
                        count_old as int,
                        cur_new as int,
                        count_new as int,
                    ),
                ] + cd.subrange(start as int, m + 1));
            }
            m = m + 1;
        }
        let hunk_body = join_nl(&body_lines);
        let h = DiffHunk {
            file_header: self.file_header.clone(),
            hunk_body,
            filename: self.filename.clone(),
            lines_added: added,
            lines_removed: removed,
        };
        proof {
            assert(h@ =~~= spec_sub_hunk(
                self@,
                cd,
                start as int,
                end as int,
                base_old as int,
                base_new as int,
            ));
        }
        Some(h)
    }

    /// Attempt to split this hunk into smaller hunks wherever context lines
    /// separate groups of change lines. The body is cut at every newline, so
    /// a trailing newline counts as one empty context line. Returns nothing
    /// when the header does not parse or no context gap exists.
    pub fn split(&self) -> (r: Option<Vec<DiffHunk>>)
        ensures
            r.deep_view() == spec_split(self@),
    {
        let bv = str_to_chars(self.hunk_body.as_str());
        let lines = crate::text::split_char(&bv, '\n');
        let ghost ld = lines.deep_view();
        if lines.len() == 0 {
            return None;
        }
        let header_line = chars_to_string(&lines[0]);
        proof {
            assert(ld[0] =~= lines@[0]@);
        }
        let parsed = parse_hunk_header(header_line.as_str());
        let (old_start, new_start) = match parsed {
            Some(p) => p,
            None => {
                return None;
            },
        };
        // Content lines: everything after the header line.
        let mut content: Vec<Vec<char>> = Vec::new();
        let mut i: usize = 1;
        proof {
            assert(content.deep_view() =~~= ld.subrange(1, 1));
        }
        while i < lines.len()
            invariant
                1 <= i <= lines.len(),
                ld == lines.deep_view(),
                content.deep_view() == ld.subrange(1, i as int),
            decreases lines.len() - i,
        {
            let ghost pre = content.deep_view();
            content.push(lines[i].clone());
            proof {
                assert(ld[i as int] =~= lines@[i as int]@);
                assert(content.deep_view() =~~= pre.push(ld[i as int]));
                assert(content.deep_view() =~~= ld.subrange(1, i + 1));
            }
            i = i + 1;
        }
        proof {
            assert(ld.subrange(1, ld.len() as int) =~= ld.skip(1));
        }
        let ghost cd = content.deep_view();
        // Indices of the change lines.
        let mut ci: Vec<usize> = Vec::new();
        let mut p: usize = 0;
        proof {
            assert(cd.take(0) =~= Seq::<Seq<char>>::empty());
            assert(ci@.map_values(|x: usize| x as int) =~= change_indices(cd.take(0)));
        }
        while p < content.len()
            invariant
                p <= content.len(),
                cd == content.deep_view(),
                ci@.map_values(|x: usize| x as int) == change_indices(cd.take(p as int)),
                forall|a: int| 0 <= a < ci@.len() ==> ci@[a] < p,
            decreases content.len() - p,
        {
            proof {
                assert(cd.take(p + 1).drop_last() =~= cd.take(p as int));
                assert(cd[p as int] =~= content@[p as int]@);
                assert(cd.take(p + 1).last() == cd[p as int]);
            }
            let ghost pre = ci@;
            if line_is_change(&content[p]) {
                ci.push(p);
                proof {
                    assert(ci@.map_values(|x: usize| x as int) =~= pre.map_values(
                        |x: usize| x as int,
                    ).push(p as int));
                }
            }
            p = p + 1;
        }
        proof {
            assert(cd.take(content.len() as int) =~= cd);
        }
        let ghost chs = change_indices(cd);
        if ci.len() == 0 {
            proof {
                assert(chs.len() == ci@.map_values(|x: usize| x as int).len());
            }
            return None;
        }
        // Split points: gaps between adjacent change lines.
        let mut pts: Vec<(usize, usize)> = Vec::new();
        let mut w: usize = 1;
        proof {
            lemma_change_indices_sorted(cd);
            assert(chs.take(1).len() < 2);
            assert(pts@.map_values(|q: (usize, usize)| (q.0 as int, q.1 as int)) =~= split_points(
                chs.take(1),
            ));
        }
        while w < ci.len()
            invariant
                1 <= w <= ci.len(),
                cd == content.deep_view(),
                chs == change_indices(cd),
                ci@.map_values(|x: usize| x as int) == chs,
                pts@.map_values(|q: (usize, usize)| (q.0 as int, q.1 as int)) == split_points(
                    chs.take(w as int),
                ),
                forall|a: int| 0 <= a < pts@.len() ==> #[trigger] pts@[a].1 <= pts@[a].0 < cd.len(),
                forall|a: int|
                    0 <= a < pts@.len() - 1 ==> #[trigger] pts@[a].1 <= pts@[a + 1].1,
                pts@.len() > 0 ==> pts@.last().0 as int <= chs[w - 1],
            decreases ci.len() - w,
        {
            proof {
                assert(chs.take(w + 1).drop_last() =~= chs.take(w as int));
                assert(chs.take(w + 1)[w as int] == chs[w as int]);
                assert(chs.take(w + 1)[w - 1] == chs[w - 1]);
                assert(chs[w as int] == ci@[w as int]);
                assert(chs[w - 1] == ci@[w - 1]);
                lemma_change_indices_sorted(cd);
            }
            let prev = ci[w - 1];
            let next = ci[w];
            let ghost pre = pts@;
            if next > prev + 1 {
                pts.push((next, prev + 1));
                proof {
                    assert(pts@.map_values(|q: (usize, usize)| (q.0 as int, q.1 as int)) =~= pre
                        .map_values(|q: (usize, usize)| (q.0 as int, q.1 as int)).push(
                        (next as int, (prev + 1) as int),
                    ));
                    assert forall|a: int| 0 <= a < pts@.len() - 1 implies #[trigger] pts@[a].1
                        <= pts@[a + 1].1 by {
                        if a < pre.len() - 1 {
                            assert(pre[a].1 <= pre[a + 1].1);
                        } else {
                            assert(pts@[a] == pre[a]);
                            assert(pre[a].1 <= pre[a].0);
                            assert(pre.last().0 as int <= chs[w - 1]);
                        }
                    }
                }
            }
            w = w + 1;
        }
        proof {
            assert(chs.take(ci.len() as int) =~= chs);
        }
        if pts.len() == 0 {
            return None;
        }
        // Build the sub-hunks.
        let ghost ptsd = pts@.map_values(|q: (usize, usize)| (q.0 as int, q.1 as int));
        let mut out: Vec<DiffHunk> = Vec::new();
        let mut start: usize = 0;
        let mut k: usize = 0;
        proof {
            assert(ptsd.skip(0) =~= ptsd);
            assert(out.deep_view() =~~= Seq::<HunkView>::empty());
        }
        while k < pts.len()
            invariant
                k <= pts.len(),
                cd == content.deep_view(),
                ptsd == pts@.map_values(|q: (usize, usize)| (q.0 as int, q.1 as int)),
                forall|a: int| 0 <= a < pts@.len() ==> #[trigger] pts@[a].1 <= pts@[a].0 < cd.len(),
                forall|a: int|
                    0 <= a < pts@.len() - 1 ==> #[trigger] pts@[a].1 <= pts@[a + 1].1,
                k < pts.len() ==> start <= pts@[k as int].0,
                k == pts.len() && pts.len() > 0 ==> start == pts@[k - 1].1,
                start <= cd.len(),
                sub_hunks_rec(self@, cd, ptsd, 0, old_start as int, new_start as int)
                    == out.deep_view() + sub_hunks_rec(
                    self@,
                    cd,
                    ptsd.skip(k as int),
                    start as int,
                    old_start as int,
                    new_start as int,
                ),
            decreases pts.len() - k,
        {
            let end = pts[k].0;
            let next = pts[k].1;
            proof {
                assert(ptsd.skip(k as int)[0] == ptsd[k as int]);
                assert(ptsd.skip(k as int).skip(1) =~= ptsd.skip(k + 1));
            }
            let ghost pre = out.deep_view();
            if let Some(h) = self.create_sub_hunk(&content, start, end, old_start, new_start) {
                out.push(h);
                proof {
                    assert(out.deep_view() =~~= pre.push(h@));
                }
            }
            proof {
                if k + 1 < pts.len() {
                    assert(pts@[k as int].1 <= pts@[k + 1].1);
                    assert(pts@[k + 1].1 <= pts@[k + 1].0);
                }
            }
            start = next;
            k = k + 1;
        }
        proof {
            assert(ptsd.skip(pts@.len() as int) =~= Seq::<(int, int)>::empty());
        }
        let ghost pre = out.deep_view();
        if let Some(h) = self.create_sub_hunk(&content, start, content.len(), old_start, new_start) {
            out.push(h);
            proof {
                assert(out.deep_view() =~~= pre.push(h@));
            }
        }
        if out.len() > 1 {
            proof {
                assert(Some(out).deep_view() =~~= spec_split(self@));
            }
            Some(out)
        } else {
            None
        }
    }
}

// ---------------------------------------------------------------------------
// The diff view
// ---------------------------------------------------------------------------

/// State for the diff view: the rendered content, scroll position, and the
/// patch-mode machinery (hunks, progress, staged hunks for undo).
pub struct DiffView {
    /// The diff content (with ANSI colors).
    pub content: String,
    /// Current scroll offset.
    pub scroll: usize,
    /// Total line count for scroll bounds.
    pub line_count: usize,
    /// Viewport height, updated during rendering for page scrolling.
    pub viewport_height: u16,
    /// Title for the view.
    pub title: String,
    /// Path to the worktree, for commit and merge actions.
    pub worktree_path: String,
    /// Pane id for sending commands to the agent.
    pub pane_id: String,
    /// Whether this is a branch diff rather than an uncommitted diff.
    pub is_branch_diff: bool,
    /// Lines added in the diff.
    pub lines_added: usize,
    /// Lines removed in the diff.
    pub lines_removed: usize,
    /// Whether patch mode (hunk-by-hunk staging) is active.
    pub patch_mode: bool,
    /// Parsed hunks for patch mode.
    pub hunks: Vec<DiffHunk>,
    /// Current hunk index in patch mode.
    pub current_hunk: usize,
    /// Total hunk count when patch mode started, for progress display.
    pub hunks_total: usize,
    /// Hunks processed (staged or skipped), for progress display.
    pub hunks_processed: usize,
    /// Staged hunks, kept as a stack for undo.
    pub staged_hunks: Vec<DiffHunk>,
    /// Comment input buffer; present while comment mode is active.
    pub comment_input: Option<String>,
    /// The files in the diff, for the sidebar.
    pub file_list: Vec<FileEntry>,
}

impl DiffView {
    /// The number of lines the view scrolls over: in patch mode the current
    /// hunk's body lines, otherwise the whole diff.
    pub open spec fn effective_line_count(&self) -> int {
        if self.patch_mode && self.hunks@.len() > 0 {
            spec_lines(self.hunks@[self.current_hunk as int].hunk_body@).len() as int
        } else {
            self.line_count as int
        }
    }

    /// Scroll up one line, stopping at the top.
    pub fn scroll_up(&mut self)
        ensures
            final(self).scroll == if old(self).scroll > 0 {
                (old(self).scroll - 1) as int
            } else {
                0int
            },
            *final(self) == (DiffView { scroll: final(self).scroll, ..*old(self) }),
    {
        if self.scroll > 0 {
            self.scroll = self.scroll - 1;
        }
    }

    /// Scroll down one line, stopping so the last line stays visible.
    pub fn scroll_down(&mut self)
        ensures
            ({
                let max_scroll = if old(self).line_count >= old(self).viewport_height as usize {
                    old(self).line_count - old(self).viewport_height as usize
                } else {
                    0int
                };
                final(self).scroll == if old(self).scroll < max_scroll {
                    old(self).scroll + 1
                } else {
                    old(self).scroll as int
                }
            }),
            *final(self) == (DiffView { scroll: final(self).scroll, ..*old(self) }),
    {
        let vh = self.viewport_height as usize;
        let max_scroll = if self.line_count >= vh {
            self.line_count - vh
        } else {
            0
        };
        if self.scroll < max_scroll {
            self.scroll = self.scroll + 1;
        }
    }

    /// Scroll up one page.
    pub fn scroll_page_up(&mut self)
        ensures
            final(self).scroll == if old(self).scroll >= old(self).viewport_height as usize {
                old(self).scroll - old(self).viewport_height as usize
            } else {
                0int
            },
            *final(self) == (DiffView { scroll: final(self).scroll, ..*old(self) }),
    {
        let page = self.viewport_height as usize;
        if self.scroll >= page {
            self.scroll = self.scroll - page;
        } else {
            self.scroll = 0;
        }
    }

    /// Scroll down one page, bounded by the effective line count: in patch
    /// mode the current hunk's body, otherwise the whole diff.
    pub fn scroll_page_down(&mut self)
        requires
            old(self).patch_mode && old(self).hunks@.len() > 0 ==> old(self).current_hunk < old(
                self,
            ).hunks@.len(),
        ensures
            ({
                let page = old(self).viewport_height as int;
                let max_scroll = if old(self).effective_line_count() >= page {
                    old(self).effective_line_count() - page
                } else {
                    0int
                };
                final(self).scroll == if old(self).scroll + page <= max_scroll {
                    old(self).scroll + page
                } else {
                    max_scroll
                }
            }),
            *final(self) == (DiffView { scroll: final(self).scroll, ..*old(self) }),
    {
        let page = self.viewport_height as usize;
        let effective: usize = if self.patch_mode && self.hunks.len() > 0 {
            let bv = str_to_chars(self.hunks[self.current_hunk].hunk_body.as_str());
            let ls = split_lines(&bv);
            proof {
                assert(ls.deep_view().len() == ls@.len());
            }
            ls.len()
        } else {
            self.line_count
        };
        let max_scroll = if effective >= page {
            effective - page
        } else {
            0
        };
        if self.scroll >= max_scroll {
            self.scroll = max_scroll;
        } else {
            let room = max_scroll - self.scroll;
            if page <= room {
                self.scroll = self.scroll + page;
            } else {
                self.scroll = max_scroll;
            }
        }
    }
}

// ---------------------------------------------------------------------------
// The counting law
// ---------------------------------------------------------------------------

/// The added counts of a hunk sequence, summed.
pub open spec fn sum_added(hunks: Seq<HunkView>) -> int
    decreases hunks.len(),
{
    if hunks.len() == 0 {
        0
    } else {
        sum_added(hunks.drop_last()) + hunks.last().lines_added
    }
}

/// The removed counts of a hunk sequence, summed.
pub open spec fn sum_removed(hunks: Seq<HunkView>) -> int
    decreases hunks.len(),
{
    if hunks.len() == 0 {
        0
    } else {
        sum_removed(hunks.drop_last()) + hunks.last().lines_removed
    }
}

/// Summing over one more hunk adds its counts.
proof fn lemma_sum_push(hunks: Seq<HunkView>, h: HunkView)
    ensures
        sum_added(hunks.push(h)) == sum_added(hunks) + h.lines_added,
        sum_removed(hunks.push(h)) == sum_removed(hunks) + h.lines_removed,
{
    assert(hunks.push(h).drop_last() =~= hunks);
    assert(hunks.push(h).last() == h);
}

/// Counting distributes over the segmentation: over any prefix of the lines,
/// the total added/removed counts equal the sums over the hunks cut so far
/// (with the hunk under construction closed) plus the change lines seen
/// outside any hunk. A hunk under construction is never empty.
proof fn lemma_count_fold(lines: Seq<Seq<char>>)
    ensures
        ({
            let st = parse_fold(lines);
            &&& spec_count_stats(lines).0 == sum_added(flush(st)) + st.orphan_added
            &&& spec_count_stats(lines).1 == sum_removed(flush(st)) + st.orphan_removed
            &&& (st.in_hunk ==> st.hunk_lines.len() > 0)
            &&& sum_added(st.hunks) + if st.in_hunk {
                spec_count_stats(st.hunk_lines).0
            } else {
                0int
            } == sum_added(flush(st))
            &&& sum_removed(st.hunks) + if st.in_hunk {
                spec_count_stats(st.hunk_lines).1
            } else {
                0int
            } == sum_removed(flush(st))
        }),
    decreases lines.len(),
{
    if lines.len() > 0 {
        let prev = lines.drop_last();
        let l = lines.last();
        lemma_count_fold(prev);
        let st = parse_fold(prev);
        let next = parse_step(st, l);
        let stripped = spec_strip_ansi(l);
        assert(parse_fold(lines) == next);
        assert(spec_count_stats(lines).0 == spec_count_stats(prev).0 + (if is_add_line(stripped) {
            1int
        } else {
            0int
        }));
        assert(spec_count_stats(lines).1 == spec_count_stats(prev).1 + (if is_del_line(stripped) {
            1int
        } else {
            0int
        }));
        if spec_starts_with(stripped, "diff --git"@) {
            assert(flush(next) =~= next.hunks);
            if st.in_hunk && st.hunk_lines.len() > 0 {
                assert(flush(st) =~= st.hunks.push(
                    mk_hunk(st.file_header, st.filename, st.hunk_lines),
                ));
                lemma_sum_push(st.hunks, mk_hunk(st.file_header, st.filename, st.hunk_lines));
            }
            reveal_strlit("diff --git");
            reveal_strlit("+");
            reveal_strlit("-");
            assert(!is_add_line(stripped) && !is_del_line(stripped)) by {
                if is_add_line(stripped) {
                    assert(stripped.take("diff --git"@.len() as int)[0] == stripped[0]);
                    assert(stripped.take("+"@.len() as int)[0] == stripped[0]);
                }
                if is_del_line(stripped) {
                    assert(stripped.take("diff --git"@.len() as int)[0] == stripped[0]);
                    assert(stripped.take("-"@.len() as int)[0] == stripped[0]);
                }
            }
        } else if spec_starts_with(stripped, "@@"@) {
            if st.in_hunk && st.hunk_lines.len() > 0 {
                assert(flush(st) =~= st.hunks.push(
                    mk_hunk(st.file_header, st.filename, st.hunk_lines),
                ));
            }
            if st.in_hunk && st.hunk_lines.len() > 0 {
                lemma_sum_push(st.hunks, mk_hunk(st.file_header, st.filename, st.hunk_lines));
            }
            assert(next.hunk_lines =~= seq![l]);
            assert(next.hunk_lines.drop_last() =~= Seq::<Seq<char>>::empty());
            assert(spec_count_stats(Seq::<Seq<char>>::empty()) == (0int, 0int));
            assert(next.hunk_lines.last() == l);
            assert(spec_count_stats(next.hunk_lines).0 == (if is_add_line(stripped) {
                1int
            } else {
                0int
            }));
            assert(spec_count_stats(next.hunk_lines).1 == (if is_del_line(stripped) {
                1int
            } else {
                0int
            }));
            assert(flush(next) =~= next.hunks.push(mk_hunk(next.file_header, next.filename, seq![l])));
            lemma_sum_push(next.hunks, mk_hunk(next.file_header, next.filename, seq![l]));
        } else if st.in_hunk {
            assert(next.hunk_lines =~= st.hunk_lines.push(l));
            assert(next.hunk_lines.drop_last() =~= st.hunk_lines);
            assert(next.hunk_lines.last() == l);
            assert(spec_count_stats(next.hunk_lines).0 == spec_count_stats(st.hunk_lines).0 + (
            if is_add_line(stripped) {
                1int
            } else {
                0int
            }));
            assert(spec_count_stats(next.hunk_lines).1 == spec_count_stats(st.hunk_lines).1 + (
            if is_del_line(stripped) {
                1int
            } else {
                0int
            }));
            assert(flush(st) =~= st.hunks.push(mk_hunk(st.file_header, st.filename, st.hunk_lines)));
            assert(flush(next) =~= next.hunks.push(
                mk_hunk(next.file_header, next.filename, next.hunk_lines),
            ));
            lemma_sum_push(st.hunks, mk_hunk(st.file_header, st.filename, st.hunk_lines));
            lemma_sum_push(next.hunks, mk_hunk(next.file_header, next.filename, next.hunk_lines));
        } else {
            assert(flush(next) =~= next.hunks);
            assert(flush(st) =~= st.hunks);
        }
    }
}

/// The counting law: over any diff, the added and removed totals equal the
/// sums over its parsed hunks, plus the change lines that stand outside any
/// hunk. On a well-formed diff no change line stands outside a hunk, and the
/// totals equal the hunk sums exactly.
pub proof fn lemma_count_diff_stats_sum(d: Seq<char>)
    ensures
        spec_count_hunk_stats(d).0 == sum_added(spec_parse_diff_into_hunks(d)) + parse_fold(
            spec_lines(d),
        ).orphan_added,
        spec_count_hunk_stats(d).1 == sum_removed(spec_parse_diff_into_hunks(d)) + parse_fold(
            spec_lines(d),
        ).orphan_removed,
{
    lemma_count_fold(spec_lines(d));
}

/// The counting law on diffs whose change lines all stand inside hunks: the
/// totals equal the hunk sums, exactly.
pub proof fn lemma_count_diff_stats_exact(d: Seq<char>)
    requires
        parse_fold(spec_lines(d)).orphan_added == 0,
        parse_fold(spec_lines(d)).orphan_removed == 0,
    ensures
        spec_count_hunk_stats(d).0 == sum_added(spec_parse_diff_into_hunks(d)),
        spec_count_hunk_stats(d).1 == sum_removed(spec_parse_diff_into_hunks(d)),
{
    lemma_count_diff_stats_sum(d);
}

// ---------------------------------------------------------------------------
// The file list
// ---------------------------------------------------------------------------

/// The mathematical content of a `FileEntry`.
#[verifier::ext_equal]
pub struct FileEntryView {
    pub filename: Seq<char>,
    pub lines_added: int,
    pub lines_removed: int,
    pub start_line: int,
    pub is_new: bool,
}

impl View for FileEntry {
    type V = FileEntryView;

    open spec fn view(&self) -> FileEntryView {
        FileEntryView {
            filename: self.filename@,
            lines_added: self.lines_added as int,
            lines_removed: self.lines_removed as int,
            start_line: self.start_line as int,
            is_new: self.is_new,
        }
    }
}

impl DeepView for FileEntry {
    type V = FileEntryView;

    open spec fn deep_view(&self) -> FileEntryView {
        self.view()
    }
}

/// The first entry with this filename, or -1.
pub open spec fn find_entry(entries: Seq<FileEntryView>, name: Seq<char>) -> int
    decreases entries.len(),
{
    if entries.len() == 0 {
        -1
    } else if entries[0].filename == name {
        0
    } else {
        let r = find_entry(entries.skip(1), name);
        if r < 0 {
            -1
        } else {
            r + 1
        }
    }
}

/// Where `find_entry` points, characterized by the filenames.
proof fn lemma_find_entry_characterize(entries: Seq<FileEntryView>, name: Seq<char>)
    ensures
        find_entry(entries, name) == -1 <==> (forall|k: int|
            0 <= k < entries.len() ==> (#[trigger] entries[k]).filename != name),
        find_entry(entries, name) >= 0 ==> {
            &&& find_entry(entries, name) < entries.len()
            &&& entries[find_entry(entries, name)].filename == name
            &&& forall|k: int|
                0 <= k < find_entry(entries, name) ==> (#[trigger] entries[k]).filename != name
        },
    decreases entries.len(),
{
    if entries.len() > 0 && entries[0].filename != name {
        let t = entries.skip(1);
        lemma_find_entry_characterize(t, name);
        assert forall|k: int|
            0 <= k < entries.len() && (#[trigger] entries[k]).filename == name implies find_entry(
            entries,
            name,
        ) >= 0 by {
            if find_entry(t, name) == -1 {
                assert(t[k - 1].filename != name);
            }
        }
        if find_entry(t, name) >= 0 {
            let r = find_entry(t, name);
            assert(entries[r + 1] == t[r]);
            assert forall|k: int| 0 <= k < r + 1 implies (#[trigger] entries[k]).filename
                != name by {
                if k > 0 {
                    assert(entries[k] == t[k - 1]);
                }
            }
        }
    }
}

/// The entries after a summary line announced a created file: an existing
/// entry is marked new, otherwise a fresh zero-count entry is appended.
pub open spec fn mark_created(entries: Seq<FileEntryView>, name: Seq<char>) -> Seq<FileEntryView> {
    let i = find_entry(entries, name);
    if 0 <= i < entries.len() {
        entries.update(i, FileEntryView { is_new: true, ..entries[i] })
    } else {
        entries.push(
            FileEntryView { filename: name, lines_added: 0, lines_removed: 0, start_line: 0, is_new: true },
        )
    }
}

/// The entries after a numstat line: an existing entry's counts are
/// overwritten, otherwise a fresh entry is appended.
pub open spec fn record_stats(entries: Seq<FileEntryView>, name: Seq<char>, a: int, r: int) -> Seq<
    FileEntryView,
> {
    let i = find_entry(entries, name);
    if 0 <= i < entries.len() {
        entries.update(i, FileEntryView { lines_added: a, lines_removed: r, ..entries[i] })
    } else {
        entries.push(
            FileEntryView { filename: name, lines_added: a, lines_removed: r, start_line: 0, is_new: false },
        )
    }
}

/// One output line of the combined numstat and summary listing folded into
/// the entries.
pub open spec fn file_list_step(entries: Seq<FileEntryView>, line: Seq<char>) -> Seq<FileEntryView> {
    let trimmed = spec_trim(line);
    if trimmed.len() == 0 {
        entries
    } else if spec_starts_with(trimmed, "create mode "@) {
        let rest = trimmed.skip("create mode "@.len() as int);
        match crate::text::spec_split_once_char(rest, ' ') {
            Some(p) => mark_created(entries, p.1),
            None => entries,
        }
    } else if spec_starts_with(trimmed, "delete mode"@) || spec_starts_with(trimmed, "rename"@)
        || spec_starts_with(trimmed, "copy"@) || spec_starts_with(trimmed, "mode change"@) {
        entries
    } else {
        let parts = crate::text::spec_split_char(line, '\t');
        if parts.len() >= 3 {
            let a = match spec_parse_usize(parts[0]) {
                Some(n) => n as int,
                None => 0int,
            };
            let r = match spec_parse_usize(parts[1]) {
                Some(n) => n as int,
                None => 0int,
            };
            record_stats(entries, parts[2], a, r)
        } else {
            entries
        }
    }
}

/// The file entries of the whole listing.
pub open spec fn spec_file_list(lines: Seq<Seq<char>>) -> Seq<FileEntryView>
    decreases lines.len(),
{
    if lines.len() == 0 {
        Seq::empty()
    } else {
        file_list_step(spec_file_list(lines.drop_last()), lines.last())
    }
}

/// Find an entry by filename.
fn find_entry_index(entries: &Vec<FileEntry>, name: &Vec<char>) -> (r: Option<usize>)
    ensures
        match r {
            Some(i) => i < entries@.len() && find_entry(entries.deep_view(), name@) == i as int,
            None => find_entry(entries.deep_view(), name@) == -1,
        },
{
    let ghost ed = entries.deep_view();
    let mut i: usize = 0;
    while i < entries.len()
        invariant
            i <= entries.len(),
            ed == entries.deep_view(),
            forall|k: int| 0 <= k < i ==> (#[trigger] ed[k]).filename != name@,
        decreases entries.len() - i,
    {
        let nv = chars_to_string(name);
        proof {
            assert(ed[i as int] =~~= entries@[i as int]@);
        }
        if entries[i].filename == nv {
            proof {
                lemma_find_entry_characterize(ed, name@);
                assert(ed[i as int].filename == name@);
                if find_entry(ed, name@) < i as int {
                    assert(ed[find_entry(ed, name@)].filename != name@);
                }
                if find_entry(ed, name@) > i as int || find_entry(ed, name@) == -1 {
                    assert(ed[i as int].filename != name@);
                }
            }
            return Some(i);
        }
        i = i + 1;
    }
    proof {
        lemma_find_entry_characterize(ed, name@);
    }
    None
}

/// Parse the combined `--numstat --summary` listing into file entries: one
/// entry per file, its counts from its numstat line, marked new when a
/// `create mode` summary line names it.
pub fn parse_file_list(output: &str) -> (r: Vec<FileEntry>)
    ensures
        r.deep_view() == spec_file_list(spec_lines(output@)),
{
    let v = str_to_chars(output);
    let lines = split_lines(&v);
    let ghost ld = lines.deep_view();
    let mut entries: Vec<FileEntry> = Vec::new();
    let mut i: usize = 0;
    proof {
        assert(ld.take(0) =~= Seq::<Seq<char>>::empty());
        assert(entries.deep_view() =~~= spec_file_list(ld.take(0)));
    }
    while i < lines.len()
        invariant
            i <= lines.len(),
            ld == lines.deep_view(),
            entries.deep_view() == spec_file_list(ld.take(i as int)),
        decreases lines.len() - i,
    {
        proof {
            assert(ld.take(i + 1).drop_last() =~= ld.take(i as int));
            assert(ld[i as int] =~= lines@[i as int]@);
            assert(ld.take(i + 1).last() == ld[i as int]);
        }
        let line = &lines[i];
        let trimmed = crate::text::trim(line);
        let ghost pre = entries.deep_view();
        if trimmed.len() == 0 {
        } else if starts_with(&trimmed, "create mode ") {
            proof {
                reveal_strlit("create mode ");
            }
            let plen = "create mode ".unicode_len();
            let rest = sub_chars(&trimmed, plen, trimmed.len());
            proof {
                assert(rest@ =~= spec_trim(line@).skip("create mode "@.len() as int));
            }
            if let Some((_, name)) = crate::text::split_once(&rest, ' ') {
                match find_entry_index(&entries, &name) {
                    Some(idx) => {
                        let e = FileEntry {
                            filename: entries[idx].filename.clone(),
                            lines_added: entries[idx].lines_added,
                            lines_removed: entries[idx].lines_removed,
                            start_line: entries[idx].start_line,
                            is_new: true,
                        };
                        entries.set(idx, e);
                        proof {
                            assert(entries.deep_view() =~~= mark_created(pre, name@));
                        }
                    },
                    None => {
                        entries.push(
                            FileEntry {
                                filename: chars_to_string(&name),
                                lines_added: 0,
                                lines_removed: 0,
                                start_line: 0,
                                is_new: true,
                            },
                        );
                        proof {
                            assert(entries.deep_view() =~~= mark_created(pre, name@));
                        }
                    },
                }
            }
        } else if starts_with(&trimmed, "delete mode") || starts_with(&trimmed, "rename")
            || starts_with(&trimmed, "copy") || starts_with(&trimmed, "mode change") {
        } else {
            let parts = crate::text::split_char(line, '\t');
            if parts.len() >= 3 {
                proof {
                    assert(parts.deep_view()[0] =~= parts@[0]@);
                    assert(parts.deep_view()[1] =~= parts@[1]@);
                    assert(parts.deep_view()[2] =~= parts@[2]@);
                }
                let a = match parse_usize(&parts[0]) {
                    Some(n) => n,
                    None => 0,
                };
                let rm = match parse_usize(&parts[1]) {
                    Some(n) => n,
                    None => 0,
                };
                let name = &parts[2];
                match find_entry_index(&entries, name) {
                    Some(idx) => {
                        let e = FileEntry {
                            filename: entries[idx].filename.clone(),
                            lines_added: a,
                            lines_removed: rm,
                            start_line: entries[idx].start_line,
                            is_new: entries[idx].is_new,
                        };
                        entries.set(idx, e);
                        proof {
                            assert(entries.deep_view() =~~= record_stats(pre, name@, a as int, rm as int));
                        }
                    },
                    None => {
                        entries.push(
                            FileEntry {
                                filename: chars_to_string(name),
                                lines_added: a,
                                lines_removed: rm,
                                start_line: 0,
                                is_new: false,
                            },
                        );
                        proof {
                            assert(entries.deep_view() =~~= record_stats(pre, name@, a as int, rm as int));
                        }
                    },
                }
            }
        }
        i = i + 1;
    }
    proof {
        assert(ld.take(lines.len() as int) =~= ld);
    }
    entries
}

/// The entries after counting one hunk's stats against its file: an existing
/// entry accumulates (saturating), a first sighting appends a fresh entry.
pub open spec fn accumulate_file(entries: Seq<FileEntryView>, name: Seq<char>, a: int, r: int) -> Seq<
    FileEntryView,
> {
    let i = find_entry(entries, name);
    if 0 <= i < entries.len() {
        entries.update(
            i,
            FileEntryView {
                lines_added: crate::git::status::sat_add(entries[i].lines_added, a),
                lines_removed: crate::git::status::sat_add(entries[i].lines_removed, r),
                ..entries[i]
            },
        )
    } else {
        entries.push(
            FileEntryView { filename: name, lines_added: a, lines_removed: r, start_line: 0, is_new: false },
        )
    }
}

/// The per-file aggregation of the hunks' counts, files in order of first
/// appearance.
pub open spec fn spec_extract_file_list(hunks: Seq<HunkView>) -> Seq<FileEntryView>
    decreases hunks.len(),
{
    if hunks.len() == 0 {
        Seq::empty()
    } else {
        accumulate_file(
            spec_extract_file_list(hunks.drop_last()),
            hunks.last().filename,
            hunks.last().lines_added,
            hunks.last().lines_removed,
        )
    }
}

/// Aggregate the hunks into one file entry per filename, counts summed, in
/// order of first appearance. Start lines stay zero here; the view assigns
/// them later from the rendered text, and orders the list by them.
pub fn extract_file_list(hunks: &Vec<DiffHunk>) -> (r: Vec<FileEntry>)
    ensures
        r.deep_view() == spec_extract_file_list(hunks.deep_view()),
{
    let ghost hd = hunks.deep_view();
    let mut entries: Vec<FileEntry> = Vec::new();
    let mut i: usize = 0;
    proof {
        assert(hd.take(0) =~= Seq::<HunkView>::empty());
        assert(entries.deep_view() =~~= spec_extract_file_list(hd.take(0)));
    }
    while i < hunks.len()
        invariant
            i <= hunks.len(),
            hd == hunks.deep_view(),
            entries.deep_view() == spec_extract_file_list(hd.take(i as int)),
        decreases hunks.len() - i,
    {
        proof {
            assert(hd.take(i + 1).drop_last() =~= hd.take(i as int));
            assert(hd[i as int] =~~= hunks@[i as int]@);
            assert(hd.take(i + 1).last() == hd[i as int]);
        }
        let ghost pre = entries.deep_view();
        let hunk = &hunks[i];
        let name = crate::text::str_to_chars(hunk.filename.as_str());
        match find_entry_index(&entries, &name) {
            Some(idx) => {
                let e = FileEntry {
                    filename: entries[idx].filename.clone(),
                    lines_added: crate::git::status::sat_add_counts(
                        entries[idx].lines_added,
                        hunk.lines_added,
                    ),
                    lines_removed: crate::git::status::sat_add_counts(
                        entries[idx].lines_removed,
                        hunk.lines_removed,
                    ),
                    start_line: entries[idx].start_line,
                    is_new: entries[idx].is_new,
                };
                entries.set(idx, e);
                proof {
                    assert(entries.deep_view() =~~= accumulate_file(
                        pre,
                        hd[i as int].filename,
                        hd[i as int].lines_added,
                        hd[i as int].lines_removed,
                    ));
                }
            },
            None => {
                entries.push(
                    FileEntry {
                        filename: hunk.filename.clone(),
                        lines_added: hunk.lines_added,
                        lines_removed: hunk.lines_removed,
                        start_line: 0,
                        is_new: false,
                    },
                );
                proof {
                    assert(entries.deep_view() =~~= accumulate_file(
                        pre,
                        hd[i as int].filename,
                        hd[i as int].lines_added,
                        hd[i as int].lines_removed,
                    ));
                }
            },
        }
        i = i + 1;
    }
    proof {
        assert(hd.take(hunks.len() as int) =~= hd);
    }
    entries
}

// ---------------------------------------------------------------------------
// File offsets in the rendered view
// ---------------------------------------------------------------------------

/// Whether a rendered line marks where a file's diff starts: it ends with
/// the filename (possibly after a slash), contains it as a path or spaced
/// token, or is that file's `diff --git` line.
pub open spec fn offset_line_matches(line: Seq<char>, target: Seq<char>) -> bool {
    ||| crate::text::spec_ends_with(line, target)
    ||| crate::text::spec_ends_with(line, "/"@ + target)
    ||| crate::text::spec_contains_sub(line, "/"@ + target + " "@)
    ||| crate::text::spec_contains_sub(line, " "@ + target + " "@)
    ||| (spec_starts_with(line, "diff --git"@) && crate::text::spec_contains_sub(line, target))
}

/// The first line index where the file appears, if any.
pub open spec fn first_offset(lines: Seq<Seq<char>>, target: Seq<char>) -> Option<int>
    decreases lines.len(),
{
    if lines.len() == 0 {
        None
    } else if offset_line_matches(lines[0], target) {
        Some(0int)
    } else {
        match first_offset(lines.skip(1), target) {
            Some(i) => Some(i + 1),
            None => None,
        }
    }
}

/// An entry with its start line assigned from the rendered lines, when the
/// file appears at all.
pub open spec fn assign_offset(e: FileEntryView, lines: Seq<Seq<char>>) -> FileEntryView {
    match first_offset(lines, e.filename) {
        Some(i) => FileEntryView { start_line: i, ..e },
        None => e,
    }
}

/// Stable insertion into a list ordered by start line: the new entry moves
/// left past strictly larger start lines only, so equal start lines keep
/// their earlier order.
pub open spec fn insert_by_start(sorted: Seq<FileEntryView>, e: FileEntryView) -> Seq<
    FileEntryView,
>
    decreases sorted.len(),
{
    if sorted.len() == 0 {
        seq![e]
    } else if e.start_line < sorted.last().start_line {
        insert_by_start(sorted.drop_last(), e).push(sorted.last())
    } else {
        sorted.push(e)
    }
}

/// The entries ordered by start line by stable insertion.
pub open spec fn sort_by_start(entries: Seq<FileEntryView>) -> Seq<FileEntryView>
    decreases entries.len(),
{
    if entries.len() == 0 {
        Seq::empty()
    } else {
        insert_by_start(sort_by_start(entries.drop_last()), entries.last())
    }
}

/// What `map_file_offsets` leaves behind: every entry's start line assigned
/// from the rendered lines, then the list ordered by start line.
pub open spec fn spec_map_file_offsets(
    entries: Seq<FileEntryView>,
    lines: Seq<Seq<char>>,
) -> Seq<FileEntryView> {
    sort_by_start(entries.map_values(|e: FileEntryView| assign_offset(e, lines)))
}

/// Where the stable insertion lands: right after the last entry whose start
/// line does not exceed the new one.
proof fn lemma_insert_by_start_at(sorted: Seq<FileEntryView>, e: FileEntryView, k: int)
    requires
        0 <= k <= sorted.len(),
        forall|m: int| k <= m < sorted.len() ==> e.start_line < (#[trigger] sorted[m]).start_line,
        k == 0 || sorted[k - 1].start_line <= e.start_line,
    ensures
        insert_by_start(sorted, e) == sorted.take(k) + seq![e] + sorted.skip(k),
    decreases sorted.len(),
{
    if sorted.len() == 0 {
        assert(insert_by_start(sorted, e) =~= sorted.take(k) + seq![e] + sorted.skip(k));
    } else if e.start_line < sorted.last().start_line {
        assert(k < sorted.len());
        let d = sorted.drop_last();
        assert forall|m: int| k <= m < d.len() implies e.start_line
            < (#[trigger] d[m]).start_line by {
            assert(d[m] == sorted[m]);
        }
        if k > 0 {
            assert(d[k - 1] == sorted[k - 1]);
        }
        lemma_insert_by_start_at(d, e, k);
        assert(insert_by_start(sorted, e) =~= sorted.take(k) + seq![e] + sorted.skip(k)) by {
            assert(d.take(k) =~= sorted.take(k));
            assert(d.skip(k).push(sorted.last()) =~= sorted.skip(k));
        }
    } else {
        assert(k == sorted.len());
        assert(insert_by_start(sorted, e) =~= sorted.take(k) + seq![e] + sorted.skip(k));
    }
}

/// The first rendered line where the file appears, if any.
fn find_offset(line_chars: &Vec<Vec<char>>, target: &Vec<char>) -> (r: Option<usize>)
    ensures
        match r {
            Some(f) => f < line_chars@.len() && first_offset(line_chars.deep_view(), target@)
                == Some(f as int),
            None => first_offset(line_chars.deep_view(), target@) is None,
        },
{
    let ghost ld = line_chars.deep_view();
    let mut j: usize = 0;
    while j < line_chars.len()
        invariant
            j <= line_chars@.len(),
            ld == line_chars.deep_view(),
            forall|m: int| 0 <= m < j ==> !offset_line_matches(#[trigger] ld[m], target@),
        decreases line_chars@.len() - j,
    {
        proof {
            assert(ld[j as int] =~= line_chars@[j as int]@);
        }
        if offset_line_matches_exec(&line_chars[j], target) {
            proof {
                lemma_first_offset_characterize(ld, target@);
                match first_offset(ld, target@) {
                    Some(f) => {
                        if f < j as int {
                            assert(!offset_line_matches(ld[f], target@));
                        }
                        if f > j as int {
                            assert(!offset_line_matches(ld[j as int], target@));
                        }
                    },
                    None => {
                        assert(!offset_line_matches(ld[j as int], target@));
                    },
                }
            }
            return Some(j);
        }
        j = j + 1;
    }
    proof {
        lemma_first_offset_characterize(ld, target@);
    }
    None
}

/// Whether a rendered line marks the start of the file, executably.
fn offset_line_matches_exec(line: &Vec<char>, target: &Vec<char>) -> (r: bool)
    ensures
        r == offset_line_matches(line@, target@),
{
    let mut slash_target: Vec<char> = Vec::new();
    slash_target.push('/');
    let slash_target = crate::text::concat_chars(&slash_target, target);
    proof {
        assert(slash_target@ =~= seq!['/'] + target@);
        reveal_strlit("/");
        assert("/"@ =~= seq!['/']);
    }
    let mut space: Vec<char> = Vec::new();
    space.push(' ');
    let slash_target_sp = crate::text::concat_chars(&slash_target, &space);
    let space_target = crate::text::concat_chars(&space, target);
    let space_target_sp = crate::text::concat_chars(&space_target, &space);
    proof {
        reveal_strlit(" ");
        assert(" "@ =~= seq![' ']);
        assert(slash_target_sp@ =~= "/"@ + target@ + " "@);
        assert(space_target_sp@ =~= " "@ + target@ + " "@);
    }
    crate::text::ends_with_chars(line, target) || crate::text::ends_with_chars(
        line,
        &slash_target,
    ) || crate::text::contains_chars(line, &slash_target_sp) || crate::text::contains_chars(
        line,
        &space_target_sp,
    ) || (starts_with(line, "diff --git") && crate::text::contains_chars(line, target))
}

/// Assign each file entry's start line by scanning the rendered lines for
/// its first appearance, then order the list by start line (stable, so ties
/// keep their order). The rendered lines come in as plain text.
pub fn map_file_offsets(file_list: &mut Vec<FileEntry>, lines: &Vec<String>)
    ensures
        final(file_list).deep_view() == spec_map_file_offsets(
            old(file_list).deep_view(),
            lines.deep_view(),
        ),
{
    let ghost fd = old(file_list).deep_view();
    let ghost ld = lines.deep_view();
    // split each rendered line once
    let mut line_chars: Vec<Vec<char>> = Vec::new();
    let mut i: usize = 0;
    while i < lines.len()
        invariant
            i <= lines.len(),
            ld == lines.deep_view(),
            line_chars.deep_view() == ld.take(i as int),
        decreases lines.len() - i,
    {
        let ghost pre = line_chars.deep_view();
        line_chars.push(str_to_chars(lines[i].as_str()));
        proof {
            assert(ld[i as int] =~= lines@[i as int]@);
            assert(line_chars.deep_view() =~~= pre.push(ld[i as int]));
            assert(line_chars.deep_view() =~~= ld.take(i + 1));
        }
        i = i + 1;
    }
    proof {
        assert(ld.take(lines.len() as int) =~= ld);
    }
    // assign offsets
    let ghost assigned = fd.map_values(|e: FileEntryView| assign_offset(e, ld));
    let mut with_offsets: Vec<FileEntry> = Vec::new();
    let mut n: usize = 0;
    proof {
        assert(with_offsets.deep_view() =~~= assigned.take(0));
    }
    while n < file_list.len()
        invariant
            n <= file_list@.len(),
            fd == old(file_list).deep_view(),
            ld == lines.deep_view(),
            file_list@ == old(file_list)@,
            line_chars.deep_view() == ld,
            assigned == fd.map_values(|e: FileEntryView| assign_offset(e, ld)),
            with_offsets.deep_view() == assigned.take(n as int),
        decreases file_list@.len() - n,
    {
        let entry = &file_list[n];
        let target = str_to_chars(entry.filename.as_str());
        let found = find_offset(&line_chars, &target);
        let new_entry = match found {
            Some(f) => FileEntry {
                filename: entry.filename.clone(),
                lines_added: entry.lines_added,
                lines_removed: entry.lines_removed,
                start_line: f,
                is_new: entry.is_new,
            },
            None => FileEntry {
                filename: entry.filename.clone(),
                lines_added: entry.lines_added,
                lines_removed: entry.lines_removed,
                start_line: entry.start_line,
                is_new: entry.is_new,
            },
        };
        let ghost pre = with_offsets.deep_view();
        proof {
            assert(fd[n as int] =~~= file_list@[n as int]@);
            assert(new_entry@ =~~= assign_offset(fd[n as int], ld));
        }
        with_offsets.push(new_entry);
        proof {
            assert(with_offsets.deep_view() =~~= pre.push(new_entry@));
            assert(with_offsets.deep_view() =~~= assigned.take(n + 1));
        }
        n = n + 1;
    }
    proof {
        assert(assigned.take(fd.len() as int) =~= assigned);
    }
    // stable insertion by start line
    let mut sorted: Vec<FileEntry> = Vec::new();
    let mut s: usize = 0;
    proof {
        assert(sorted.deep_view() =~~= sort_by_start(assigned.take(0)));
    }
    while s < with_offsets.len()
        invariant
            s <= with_offsets@.len(),
            assigned == fd.map_values(|e: FileEntryView| assign_offset(e, ld)),
            with_offsets.deep_view() == assigned,
            sorted.deep_view() == sort_by_start(assigned.take(s as int)),
        decreases with_offsets@.len() - s,
    {
        proof {
            assert(assigned.take(s + 1).drop_last() =~= assigned.take(s as int));
            assert(assigned[s as int] =~~= with_offsets@[s as int]@);
            assert(assigned.take(s + 1).last() == assigned[s as int]);
        }
        let e = &with_offsets[s];
        // the insertion point: after the last entry not exceeding e
        let mut k: usize = sorted.len();
        while k > 0 && sorted[k - 1].start_line > e.start_line
            invariant
                k <= sorted@.len(),
                forall|m: int|
                    k <= m < sorted@.len() ==> e.start_line
                        < (#[trigger] sorted@[m]).start_line,
            decreases k,
        {
            k = k - 1;
        }
        let ghost pre = sorted.deep_view();
        proof {
            assert forall|m: int| k <= m < pre.len() implies (e@).start_line
                < (#[trigger] pre[m]).start_line by {
                assert(pre[m] =~~= sorted@[m]@);
            }
            if k > 0 {
                assert(pre[k - 1] =~~= sorted@[k - 1]@);
            }
            lemma_insert_by_start_at(pre, e@, k as int);
        }
        let new_entry = FileEntry {
            filename: e.filename.clone(),
            lines_added: e.lines_added,
            lines_removed: e.lines_removed,
            start_line: e.start_line,
            is_new: e.is_new,
        };
        proof {
            assert(new_entry@ =~~= assigned[s as int]);
        }
        sorted.insert(k, new_entry);
        proof {
            assert(sorted.deep_view() =~~= pre.take(k as int) + seq![assigned[s as int]]
                + pre.skip(k as int));
            assert(sorted.deep_view() =~~= sort_by_start(assigned.take(s + 1)));
        }
        s = s + 1;
    }
    proof {
        assert(assigned.take(assigned.len() as int) =~= assigned);
    }
    *file_list = sorted;
}

/// What `first_offset` returns, characterized by the matching lines.
proof fn lemma_first_offset_characterize(lines: Seq<Seq<char>>, target: Seq<char>)
    ensures
        first_offset(lines, target) is None <==> (forall|m: int|
            0 <= m < lines.len() ==> !offset_line_matches(#[trigger] lines[m], target)),
        first_offset(lines, target) matches Some(f) ==> {
            &&& 0 <= f < lines.len()
            &&& offset_line_matches(lines[f], target)
            &&& forall|m: int| 0 <= m < f ==> !offset_line_matches(#[trigger] lines[m], target)
        },
    decreases lines.len(),
{
    if lines.len() > 0 && !offset_line_matches(lines[0], target) {
        let t = lines.skip(1);
        lemma_first_offset_characterize(t, target);
        assert forall|m: int|
            0 <= m < lines.len() && offset_line_matches(#[trigger] lines[m], target) implies !(
        first_offset(lines, target) is None) by {
            if first_offset(t, target) is None {
                assert(!offset_line_matches(t[m - 1], target));
            }
        }
        match first_offset(t, target) {
            Some(f) => {
                assert(lines[f + 1] == t[f]);
                assert forall|m: int| 0 <= m < f + 1 implies !offset_line_matches(
                    #[trigger] lines[m],
                    target,
                ) by {
                    if m > 0 {
                        assert(lines[m] == t[m - 1]);
                    }
                }
            },
            None => {},
        }
    }
}

} // verus!
