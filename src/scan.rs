use vstd::prelude::*;

use crate::text::{
    chars_eq, chars_of, contains, contains_exec, count_char, count_char_exec, count_matches,
    count_matches_exec, indent_exec, indent_of, starts_with, starts_with_exec, total_chars, trim,
    trim_exec, view_lines,
};

verus! {

// ---------------------------------------------------------------------------
// Brace-counted unit ends
// ---------------------------------------------------------------------------

/// The line on which a brace-counted unit closes, scanning from line `i`, column
/// `j`, with running depth `d`, and `seen` telling whether an opening brace has
/// been met. A `}` that brings the depth to zero after an opening brace was seen
/// closes the unit; with none, the unit runs to the last line.
pub open spec fn brace_close_from(lines: Seq<Seq<char>>, i: int, j: int, d: int, seen: bool) -> int
    decreases lines.len() - i, lines[i].len() - j,
    when 0 <= i && 0 <= j
{
    if i >= lines.len() {
        lines.len() - 1
    } else if j >= lines[i].len() {
        brace_close_from(lines, i + 1, 0, d, seen)
    } else if lines[i][j] == '{' {
        brace_close_from(lines, i, j + 1, d + 1, true)
    } else if lines[i][j] == '}' {
        if seen && d - 1 == 0 {
            i
        } else {
            brace_close_from(lines, i, j + 1, d - 1, seen)
        }
    } else {
        brace_close_from(lines, i, j + 1, d, seen)
    }
}

/// End of a unit whose signature is on line `start`, counting braces from the
/// start of that line: the line where the depth returns to zero after the first `{`.
pub open spec fn brace_end(lines: Seq<Seq<char>>, start: int) -> int {
    brace_close_from(lines, start, 0, 0, false)
}

pub proof fn lemma_brace_close_range(lines: Seq<Seq<char>>, i: int, j: int, d: int, seen: bool)
    requires
        0 <= i,
        0 <= j,
        lines.len() > 0,
    ensures
        (if i < lines.len() { i } else { lines.len() - 1 }) <= brace_close_from(lines, i, j, d, seen) < lines.len(),
    decreases lines.len() - i, lines[i].len() - j,
{
    if i >= lines.len() {
    } else if j >= lines[i].len() {
        lemma_brace_close_range(lines, i + 1, 0, d, seen);
    } else if lines[i][j] == '{' {
        lemma_brace_close_range(lines, i, j + 1, d + 1, true);
    } else if lines[i][j] == '}' {
        if seen && d - 1 == 0 {
        } else {
            lemma_brace_close_range(lines, i, j + 1, d - 1, seen);
        }
    } else {
        lemma_brace_close_range(lines, i, j + 1, d, seen);
    }
}

pub proof fn lemma_total_chars_prefix(lines: Seq<Seq<char>>, k: int)
    requires
        0 <= k <= lines.len(),
    ensures
        total_chars(lines.subrange(0, k)) <= total_chars(lines),
    decreases lines.len() - k,
{
    if k < lines.len() {
        lemma_total_chars_prefix(lines, k + 1);
        assert(lines.subrange(0, k + 1).drop_last() =~= lines.subrange(0, k));
    } else {
        assert(lines.subrange(0, k) =~= lines);
    }
}

/// Scans braces as `brace_close_from` does, from line `from` at depth `depth` (0 or
/// 1).
fn scan_braces(lines: &[Vec<char>], from: usize, depth: usize, seen0: bool) -> (r: usize)
    requires
        lines.len() > 0,
        from <= lines.len(),
        depth <= 1,
        total_chars(view_lines(lines@)) <= usize::MAX,
    ensures
        r == brace_close_from(view_lines(lines@), from as int, 0, depth as int, seen0),
{
    let ghost ls = view_lines(lines@);
    let mut i: usize = from;
    let mut j: usize = 0;
    let mut opens: usize = 0;
    let mut closes: usize = 0;
    let mut seen = seen0;
    proof {
        lemma_total_chars_prefix(ls, from as int);
    }
    while i < lines.len()
        invariant
            from <= i <= lines.len(),
            ls == view_lines(lines@),
            ls.len() == lines.len(),
            total_chars(ls) <= usize::MAX,
            i < lines.len() ==> j <= lines@[i as int]@.len(),
            i == lines.len() ==> j == 0,
            opens + closes <= total_chars(ls.subrange(0, i as int)) + j,
            total_chars(ls.subrange(0, i as int)) + j <= total_chars(ls),
            brace_close_from(ls, i as int, j as int, depth + opens - closes, seen)
                == brace_close_from(ls, from as int, 0, depth as int, seen0),
        decreases lines.len() - i, (if i < lines.len() { lines@[i as int]@.len() - j } else { 0 }),
    {
        let line = &lines[i];
        assert(ls[i as int] == line@);
        if j >= line.len() {
            proof {
                assert(ls.subrange(0, i + 1).drop_last() =~= ls.subrange(0, i as int));
                lemma_total_chars_prefix(ls, i + 1);
            }
            i = i + 1;
            j = 0;
        } else {
            proof {
                assert(ls.subrange(0, i + 1).drop_last() =~= ls.subrange(0, i as int));
                lemma_total_chars_prefix(ls, i + 1);
            }
            let c = line[j];
            if c == '{' {
                opens = opens + 1;
                seen = true;
            } else if c == '}' {
                closes = closes + 1;
                if seen && closes >= depth && closes - depth == opens {
                    return i;
                }
            }
            j = j + 1;
        }
    }
    lines.len() - 1
}

/// End of the unit whose signature is on line `start`: see `brace_end`.
pub fn find_brace_end(lines: &[Vec<char>], start: usize) -> (r: usize)
    requires
        start < lines.len(),
        total_chars(view_lines(lines@)) <= usize::MAX,
    ensures
        r == brace_end(view_lines(lines@), start as int),
        start <= r < lines.len(),
{
    proof {
        lemma_brace_close_range(view_lines(lines@), start as int, 0, 0, false);
    }
    scan_braces(lines, start, 0, false)
}

// ---------------------------------------------------------------------------
// Indentation-based unit ends
// ---------------------------------------------------------------------------

/// A blank line, or one holding only a `#` comment, which does not end a unit.
pub open spec fn skippable(l: Seq<char>) -> bool {
    trim(l).len() == 0 || starts_with(trim(l), seq!['#'])
}

pub open spec fn indent_end_from(lines: Seq<Seq<char>>, base: nat, i: int) -> int
    decreases lines.len() - i,
{
    if i >= lines.len() {
        lines.len() - 1
    } else if !skippable(lines[i]) && indent_of(lines[i]) <= base {
        i - 1
    } else {
        indent_end_from(lines, base, i + 1)
    }
}

/// End of an indentation-delimited unit introduced on line `start`: the line before
/// the first later line that is neither blank nor a comment and is indented no deeper
/// than line `start`; else the last line.
pub open spec fn indent_end(lines: Seq<Seq<char>>, start: int) -> int {
    indent_end_from(lines, indent_of(lines[start]), start + 1)
}

pub proof fn lemma_indent_end_range(lines: Seq<Seq<char>>, base: nat, i: int)
    requires
        1 <= i <= lines.len(),
    ensures
        i - 1 <= indent_end_from(lines, base, i) < lines.len(),
    decreases lines.len() - i,
{
    if i < lines.len() && (skippable(lines[i]) || indent_of(lines[i]) > base) {
        lemma_indent_end_range(lines, base, i + 1);
    }
}

fn is_skippable(l: &[char]) -> (r: bool)
    ensures
        r == skippable(l@),
{
    let t = trim_exec(l);
    let hash: Vec<char> = vec!['#'];
    assert(hash@ =~= seq!['#']);
    t.len() == 0 || starts_with_exec(t.as_slice(), hash.as_slice())
}

/// End of the indentation-delimited unit introduced on line `start`: see `indent_end`.
pub fn find_indent_end(lines: &[Vec<char>], start: usize) -> (r: usize)
    requires
        start < lines.len(),
    ensures
        r == indent_end(view_lines(lines@), start as int),
        start <= r < lines.len(),
{
    let ghost ls = view_lines(lines@);
    let base = indent_exec(lines[start].as_slice());
    assert(ls[start as int] == lines@[start as int]@);
    proof {
        lemma_indent_end_range(ls, base as nat, start + 1);
    }
    let mut i: usize = start + 1;
    while i < lines.len()
        invariant
            start < i <= lines.len(),
            ls == view_lines(lines@),
            base == indent_of(ls[start as int]),
            indent_end_from(ls, base as nat, i as int) == indent_end(ls, start as int),
        decreases lines.len() - i,
    {
        let line = lines[i].as_slice();
        assert(ls[i as int] == line@);
        if !is_skippable(line) && indent_exec(line) <= base {
            return i - 1;
        }
        i = i + 1;
    }
    lines.len() - 1
}

// ---------------------------------------------------------------------------
// Comment lines
// ---------------------------------------------------------------------------

pub open spec fn line_comment() -> Seq<char> {
    seq!['/', '/']
}

pub open spec fn block_open() -> Seq<char> {
    seq!['/', '*']
}

pub open spec fn block_close() -> Seq<char> {
    seq!['*', '/']
}

/// Comment lines of a C-like file, from the front of `lines`, `in_block` telling
/// whether a block comment is open: a line inside a block comment counts, as do its
/// opening and closing lines, and a line that starts with `//`.
pub open spec fn c_comment_count(lines: Seq<Seq<char>>, in_block: bool) -> nat
    decreases lines.len(),
{
    if lines.len() == 0 {
        0
    } else {
        let t = trim(lines[0]);
        let rest = lines.drop_first();
        if in_block {
            1 + c_comment_count(rest, !contains(t, block_close()))
        } else if starts_with(t, line_comment()) {
            1 + c_comment_count(rest, false)
        } else if starts_with(t, block_open()) {
            1 + c_comment_count(rest, !contains(t, block_close()))
        } else {
            c_comment_count(rest, false)
        }
    }
}

/// Comment lines of a C-like file: see `c_comment_count`.
pub fn count_c_comments(lines: &[Vec<char>]) -> (r: usize)
    ensures
        r == c_comment_count(view_lines(lines@), false),
        r <= lines.len(),
{
    let ghost ls = view_lines(lines@);
    let lc: Vec<char> = vec!['/', '/'];
    let bo: Vec<char> = vec!['/', '*'];
    let bc: Vec<char> = vec!['*', '/'];
    assert(lc@ =~= line_comment());
    assert(bo@ =~= block_open());
    assert(bc@ =~= block_close());
    let mut n: usize = 0;
    let mut in_block = false;
    let mut i: usize = 0;
    assert(ls.subrange(0, ls.len() as int) =~= ls);
    while i < lines.len()
        invariant
            i <= lines.len(),
            ls == view_lines(lines@),
            n <= i,
            lc@ == line_comment(),
            bo@ == block_open(),
            bc@ == block_close(),
            n + c_comment_count(ls.subrange(i as int, ls.len() as int), in_block) == c_comment_count(
                ls,
                false,
            ),
        decreases lines.len() - i,
    {
        let ghost rest = ls.subrange(i as int, ls.len() as int);
        assert(rest[0] == lines@[i as int]@);
        assert(rest.drop_first() =~= ls.subrange(i + 1, ls.len() as int));
        let t = trim_exec(lines[i].as_slice());
        let t = t.as_slice();
        if in_block {
            n = n + 1;
            in_block = !contains_exec(t, bc.as_slice());
        } else if starts_with_exec(t, lc.as_slice()) {
            n = n + 1;
        } else if starts_with_exec(t, bo.as_slice()) {
            n = n + 1;
            in_block = !contains_exec(t, bc.as_slice());
        }
        i = i + 1;
    }
    n
}

pub open spec fn hash_mark() -> Seq<char> {
    seq!['#']
}

pub open spec fn triple_double() -> Seq<char> {
    seq!['"', '"', '"']
}

pub open spec fn triple_single() -> Seq<char> {
    seq!['\'', '\'', '\'']
}

/// The doc-string state after a line that opens one with `delim`: still open unless
/// the delimiter stands on the line twice.
pub open spec fn after_open(t: Seq<char>, delim: Seq<char>) -> Option<Seq<char>> {
    if count_matches(t, delim) > 1 {
        None
    } else {
        Some(delim)
    }
}

/// Comment lines of a Python file, from the front of `lines`, `open` holding the
/// delimiter of an open doc string: a line inside a doc string counts, as do its
/// opening and closing lines, and a line that starts with `#`.
pub open spec fn py_comment_count(lines: Seq<Seq<char>>, open: Option<Seq<char>>) -> nat
    decreases lines.len(),
{
    if lines.len() == 0 {
        0
    } else {
        let t = trim(lines[0]);
        let rest = lines.drop_first();
        match open {
            Some(d) => 1 + py_comment_count(
                rest,
                if contains(t, d) {
                    None
                } else {
                    Some(d)
                },
            ),
            None => if starts_with(t, hash_mark()) {
                1 + py_comment_count(rest, None)
            } else if starts_with(t, triple_double()) {
                1 + py_comment_count(rest, after_open(t, triple_double()))
            } else if starts_with(t, triple_single()) {
                1 + py_comment_count(rest, after_open(t, triple_single()))
            } else {
                py_comment_count(rest, None)
            },
        }
    }
}

/// Comment lines of a Python file: see `py_comment_count`.
pub fn count_py_comments(lines: &[Vec<char>]) -> (r: usize)
    ensures
        r == py_comment_count(view_lines(lines@), None),
        r <= lines.len(),
{
    let ghost ls = view_lines(lines@);
    let hm: Vec<char> = vec!['#'];
    let dq: Vec<char> = vec!['"', '"', '"'];
    let sq: Vec<char> = vec!['\'', '\'', '\''];
    assert(hm@ =~= hash_mark());
    assert(dq@ =~= triple_double());
    assert(sq@ =~= triple_single());
    let mut n: usize = 0;
    // 0: no doc string open; 1: one opened by `"""`; 2: one opened by `'''`.
    let mut state: u8 = 0;
    let mut i: usize = 0;
    assert(ls.subrange(0, ls.len() as int) =~= ls);
    while i < lines.len()
        invariant
            i <= lines.len(),
            ls == view_lines(lines@),
            n <= i,
            state <= 2,
            hm@ == hash_mark(),
            dq@ == triple_double(),
            sq@ == triple_single(),
            n + py_comment_count(
                ls.subrange(i as int, ls.len() as int),
                if state == 1 {
                    Some(triple_double())
                } else if state == 2 {
                    Some(triple_single())
                } else {
                    None
                },
            ) == py_comment_count(ls, None),
        decreases lines.len() - i,
    {
        let ghost rest = ls.subrange(i as int, ls.len() as int);
        assert(rest[0] == lines@[i as int]@);
        assert(rest.drop_first() =~= ls.subrange(i + 1, ls.len() as int));
        let t = trim_exec(lines[i].as_slice());
        let t = t.as_slice();
        if state == 1 {
            n = n + 1;
            if contains_exec(t, dq.as_slice()) {
                state = 0;
            }
        } else if state == 2 {
            n = n + 1;
            if contains_exec(t, sq.as_slice()) {
                state = 0;
            }
        } else if starts_with_exec(t, hm.as_slice()) {
            n = n + 1;
        } else if starts_with_exec(t, dq.as_slice()) {
            n = n + 1;
            state = if count_matches_exec(t, dq.as_slice()) > 1 {
                0
            } else {
                1
            };
        } else if starts_with_exec(t, sq.as_slice()) {
            n = n + 1;
            state = if count_matches_exec(t, sq.as_slice()) > 1 {
                0
            } else {
                2
            };
        }
        i = i + 1;
    }
    n
}

// ---------------------------------------------------------------------------
// Complexity
// ---------------------------------------------------------------------------

/// Occurrences in the line `l` of the patterns `pats`, each counted as
/// `count_matches` counts it.
pub open spec fn line_hits(l: Seq<char>, pats: Seq<Seq<char>>) -> nat
    decreases pats.len(),
{
    if pats.len() == 0 {
        0
    } else {
        line_hits(l, pats.drop_last()) + count_matches(l, pats.last())
    }
}

/// Occurrences of the patterns over all of `lines`.
pub open spec fn span_hits(lines: Seq<Seq<char>>, pats: Seq<Seq<char>>) -> nat
    decreases lines.len(),
{
    if lines.len() == 0 {
        0
    } else {
        span_hits(lines.drop_last(), pats) + line_hits(lines.last(), pats)
    }
}

/// `x`, or the largest `usize` where `x` is larger.
pub open spec fn cap(x: nat) -> nat {
    if x > usize::MAX {
        usize::MAX as nat
    } else {
        x
    }
}

/// Approximate complexity of the unit on lines `lo..=hi`: 1, plus one for each
/// occurrence of a control-flow pattern on those lines (saturating at `usize::MAX`).
pub open spec fn complexity_of(lines: Seq<Seq<char>>, lo: int, hi: int, pats: Seq<Seq<char>>) -> nat {
    cap(1 + span_hits(lines.subrange(lo, hi + 1), pats))
}

pub open spec fn pats_view(pats: Seq<&str>) -> Seq<Seq<char>> {
    pats.map_values(|p: &str| p@)
}

pub fn hits_in_line(l: &[char], pats: &[&str], acc: usize) -> (r: usize)
    ensures
        r == cap((acc + line_hits(l@, pats_view(pats@))) as nat),
{
    let mut k: usize = 0;
    let mut c: usize = acc;
    assert(pats_view(pats@).subrange(0, 0) =~= Seq::<Seq<char>>::empty());
    while k < pats.len()
        invariant
            k <= pats.len(),
            c == cap((acc + line_hits(l@, pats_view(pats@).subrange(0, k as int))) as nat),
        decreases pats.len() - k,
    {
        let p = chars_of(pats[k]);
        let m = count_matches_exec(l, p.as_slice());
        proof {
            let pv = pats_view(pats@);
            assert(pv.subrange(0, k + 1).drop_last() =~= pv.subrange(0, k as int));
            assert(pv.subrange(0, k + 1).last() == p@);
        }
        c = c.saturating_add(m);
        k = k + 1;
    }
    assert(pats_view(pats@).subrange(0, pats.len() as int) =~= pats_view(pats@));
    c
}

/// `acc` plus the pattern occurrences on lines `lo..hi`, saturating at `usize::MAX`.
pub fn accumulate_hits(lines: &[Vec<char>], lo: usize, hi: usize, pats: &[&str], acc: usize) -> (r: usize)
    requires
        lo <= hi <= lines.len(),
    ensures
        r == cap((acc + span_hits(view_lines(lines@).subrange(lo as int, hi as int), pats_view(pats@))) as nat),
        r >= acc,
{
    let ghost ls = view_lines(lines@);
    let ghost pv = pats_view(pats@);
    let mut c: usize = acc;
    let mut i: usize = lo;
    assert(ls.subrange(lo as int, lo as int) =~= Seq::<Seq<char>>::empty());
    while i < hi
        invariant
            lo <= i <= hi <= lines.len(),
            ls == view_lines(lines@),
            pv == pats_view(pats@),
            c == cap((acc + span_hits(ls.subrange(lo as int, i as int), pv)) as nat),
            c >= acc,
        decreases hi - i,
    {
        proof {
            assert(ls.subrange(lo as int, i + 1).drop_last() =~= ls.subrange(lo as int, i as int));
            assert(ls.subrange(lo as int, i + 1).last() == lines@[i as int]@);
        }
        c = hits_in_line(lines[i].as_slice(), pats, c);
        i = i + 1;
    }
    c
}

/// Complexity of the unit on lines `lo..=hi`: see `complexity_of`.
pub fn unit_complexity(lines: &[Vec<char>], lo: usize, hi: usize, pats: &[&str]) -> (r: usize)
    requires
        lo <= hi < lines.len(),
    ensures
        r == complexity_of(view_lines(lines@), lo as int, hi as int, pats_view(pats@)),
        r >= 1,
{
    accumulate_hits(lines, lo, hi + 1, pats, 1)
}

// ---------------------------------------------------------------------------
// Comments between delimiters
// ---------------------------------------------------------------------------

/// Comment lines of a file whose only comments run from `open` to `close`
/// (stylesheets, markup): a line that starts with `open` counts, and so does every
/// line up to the one holding `close`.
pub open spec fn delimited_comment_count(lines: Seq<Seq<char>>, in_block: bool, open: Seq<char>, close: Seq<char>) -> nat
    decreases lines.len(),
{
    if lines.len() == 0 {
        0
    } else {
        let t = trim(lines[0]);
        let rest = lines.drop_first();
        if in_block {
            1 + delimited_comment_count(rest, !contains(t, close), open, close)
        } else if starts_with(t, open) {
            1 + delimited_comment_count(rest, !contains(t, close), open, close)
        } else {
            delimited_comment_count(rest, false, open, close)
        }
    }
}

/// Comment lines between `open` and `close`: see `delimited_comment_count`.
pub fn count_delimited_comments(lines: &[Vec<char>], open: &str, close: &str) -> (r: usize)
    ensures
        r == delimited_comment_count(view_lines(lines@), false, open@, close@),
        r <= lines.len(),
{
    let ghost ls = view_lines(lines@);
    let o = chars_of(open);
    let c = chars_of(close);
    let mut n: usize = 0;
    let mut in_block = false;
    let mut i: usize = 0;
    assert(ls.subrange(0, ls.len() as int) =~= ls);
    while i < lines.len()
        invariant
            i <= lines.len(),
            ls == view_lines(lines@),
            n <= i,
            o@ == open@,
            c@ == close@,
            n + delimited_comment_count(ls.subrange(i as int, ls.len() as int), in_block, open@, close@)
                == delimited_comment_count(ls, false, open@, close@),
        decreases lines.len() - i,
    {
        let ghost rest = ls.subrange(i as int, ls.len() as int);
        assert(rest[0] == lines@[i as int]@);
        assert(rest.drop_first() =~= ls.subrange(i + 1, ls.len() as int));
        let t = trim_exec(lines[i].as_slice());
        let t = t.as_slice();
        if in_block || starts_with_exec(t, o.as_slice()) {
            n = n + 1;
            in_block = !contains_exec(t, c.as_slice());
        }
        i = i + 1;
    }
    n
}

// ---------------------------------------------------------------------------
// Parameter lists
// ---------------------------------------------------------------------------

/// Parameters in a captured parameter list: 0 where it is blank (or, with
/// `void_empty`, just `void`), else one more than its commas (saturating).
pub open spec fn param_count(p: Seq<char>, void_empty: bool) -> nat {
    if trim(p).len() == 0 || (void_empty && trim(p) == seq!['v', 'o', 'i', 'd']) {
        0
    } else {
        cap(count_char(p, ',') + 1)
    }
}

pub fn count_params(p: &[char], void_empty: bool) -> (r: usize)
    ensures
        r == param_count(p@, void_empty),
{
    let t = trim_exec(p);
    let void: Vec<char> = vec!['v', 'o', 'i', 'd'];
    assert(void@ =~= seq!['v', 'o', 'i', 'd']);
    if t.len() == 0 || (void_empty && chars_eq(t.as_slice(), void.as_slice())) {
        0
    } else {
        count_char_exec(p, ',').saturating_add(1)
    }
}

} // verus!
