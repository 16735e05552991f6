use vstd::prelude::*;

use crate::language::LanguageType;
use crate::model::{unit_wf, units_view, BaseParseResult, Function, UnitView};
use crate::parsers::lines_of;
use crate::scan::{count_params, pats_view};
use crate::text::{
    captures_of, chars_of, contains, contains_exec, count_char, count_char_exec,
    captures_view, regex_captures_each, slice_copy, split_lines, starts_with, starts_with_exec, trim, trim_exec,
    view_lines,
};
use crate::units::{make_unit, name_from, params_from, unit_at};

verus! {

pub const PHP_FUNCTION: &'static str = r"^\s*(public|private|protected)?\s*(static)?\s*function\s+([a-zA-Z_][a-zA-Z0-9_]*)\s*\(([^)]*)\)";

pub const PHP_METHOD: &'static str = r"^\s*(public|private|protected)\s+(static\s+)?(function\s+)?([a-zA-Z_][a-zA-Z0-9_]*)\s*\(([^)]*)\)";

pub open spec fn php_keywords() -> Seq<Seq<char>> {
    seq![
        " if "@,
        " else "@,
        " elseif "@,
        " for "@,
        " foreach "@,
        " while "@,
        " do "@,
        " switch "@,
        " case "@,
        " catch "@,
        " try "@,
        " && "@,
        " || "@,
        " and "@,
        " or "@,
        "??"@,
        "?:"@,
        " ? "@,
    ]
}

/// The name and parameter count of a PHP signature on a line: a `function`
/// declaration, else a method with a visibility keyword.
pub open spec fn php_signature(l: Seq<char>) -> Option<(Seq<char>, nat)> {
    match captures_of(PHP_FUNCTION@, l) {
        Some(c) => match (name_from(c, 3), params_from(c, 4, false)) {
            (Some(n), Some(p)) => Some((n, p)),
            _ => None,
        },
        None => match captures_of(PHP_METHOD@, l) {
            Some(c) => match (name_from(c, 4), params_from(c, 5, false)) {
                (Some(n), Some(p)) => Some((n, p)),
                _ => None,
            },
            None => None,
        },
    }
}

/// The end of a PHP function body from line `i`, counting braces line by line from
/// its signature on line `start` at depth `d` (`found`: a `{` was met). It ends
/// where the depth returns to zero after a `{`; a signature line holding `;` and no
/// body is no function (`false`); without a close the body runs to the last line.
pub open spec fn php_end_from(lines: Seq<Seq<char>>, start: int, i: int, d: int, found: bool) -> (int, bool)
    decreases lines.len() - i,
{
    if i < 0 || i >= lines.len() {
        (lines.len() - 1, found)
    } else {
        let o = count_char(lines[i], '{');
        let c = count_char(lines[i], '}');
        let d2 = d + o - c;
        let f2 = found || o > 0;
        if f2 && d2 == 0 {
            (i, true)
        } else if i == start && contains(lines[i], ";"@) {
            (start, false)
        } else {
            php_end_from(lines, start, i + 1, d2, f2)
        }
    }
}

/// The PHP function that starts on line `i`, if any.
pub open spec fn php_unit(lines: Seq<Seq<char>>, i: int) -> Option<UnitView> {
    match php_signature(lines[i]) {
        Some((n, p)) => {
            let (e, ok) = php_end_from(lines, i, i, 0, false);
            if ok {
                Some(unit_at(lines, i, n, p, e, php_keywords()))
            } else {
                None
            }
        },
        None => None,
    }
}

/// The line after which the scan goes on once a unit was found on line `i`: the
/// unit's last line, or the next line where the unit ends on its first.
pub open spec fn php_resume(lines: Seq<Seq<char>>, i: int, u: UnitView) -> int {
    let e = u.end_line - 1;
    if e > i && e <= lines.len() {
        e
    } else {
        i + 1
    }
}

/// The PHP functions from line `i` on; the scan resumes at the last line of each
/// function found.
pub open spec fn php_units_from(lines: Seq<Seq<char>>, i: int) -> Seq<UnitView>
    decreases lines.len() - i,
{
    if i < 0 || i >= lines.len() {
        seq![]
    } else {
        match php_unit(lines, i) {
            Some(u) => seq![u] + php_units_from(lines, php_resume(lines, i, u)),
            None => php_units_from(lines, i + 1),
        }
    }
}

pub open spec fn php_comment_count(lines: Seq<Seq<char>>, in_block: bool) -> nat
    decreases lines.len(),
{
    if lines.len() == 0 {
        0
    } else {
        let t = trim(lines[0]);
        let rest = lines.drop_first();
        if in_block {
            1 + php_comment_count(rest, !contains(t, "*/"@))
        } else if starts_with(t, "//"@) || starts_with(t, "#"@) {
            1 + php_comment_count(rest, false)
        } else if starts_with(t, "/*"@) {
            1 + php_comment_count(rest, !contains(t, "*/"@))
        } else {
            php_comment_count(rest, false)
        }
    }
}

pub open spec fn php_model(r: BaseParseResult, content: Seq<char>) -> bool {
    let lines = split_lines(content);
    &&& units_view(r.functions@) == php_units_from(lines, 0)
    &&& r.comment_lines == php_comment_count(lines, false)
    &&& r.total_lines == lines.len()
    &&& r.language == LanguageType::PHP
    &&& r.wf()
}

/// Comment lines of a PHP file: `//` and `#` lines, and block and doc comments.
pub fn count_php_comments(lines: &[Vec<char>]) -> (r: usize)
    ensures
        r == php_comment_count(view_lines(lines@), false),
        r <= lines.len(),
{
    let ghost ls = view_lines(lines@);
    let slash = chars_of("//");
    let hash = chars_of("#");
    let open = chars_of("/*");
    let close = chars_of("*/");
    let mut n: usize = 0;
    let mut in_block = false;
    let mut i: usize = 0;
    assert(ls.subrange(0, ls.len() as int) =~= ls);
    while i < lines.len()
        invariant
            i <= lines.len(),
            ls == view_lines(lines@),
            n <= i,
            slash@ == "//"@,
            hash@ == "#"@,
            open@ == "/*"@,
            close@ == "*/"@,
            n + php_comment_count(ls.subrange(i as int, ls.len() as int), in_block) == php_comment_count(ls, false),
        decreases lines.len() - i,
    {
        let ghost rest = ls.subrange(i as int, ls.len() as int);
        assert(rest[0] == lines@[i as int]@);
        assert(rest.drop_first() =~= ls.subrange(i + 1, ls.len() as int));
        let t = trim_exec(lines[i].as_slice());
        let t = t.as_slice();
        if in_block {
            n = n + 1;
            in_block = !contains_exec(t, close.as_slice());
        } else if starts_with_exec(t, slash.as_slice()) || starts_with_exec(t, hash.as_slice()) {
            n = n + 1;
        } else if starts_with_exec(t, open.as_slice()) {
            n = n + 1;
            in_block = !contains_exec(t, close.as_slice());
        }
        i = i + 1;
    }
    n
}

fn group_text(c: &Vec<Option<Vec<char>>>, k: usize) -> (r: Option<Vec<char>>)
    requires
        k > 0,
    ensures
        match r {
            Some(x) => name_from(c@.map_values(|g: Option<Vec<char>>| crate::text::opt_chars(g)), k as nat) == Some(x@),
            None => name_from(c@.map_values(|g: Option<Vec<char>>| crate::text::opt_chars(g)), k as nat) is None,
        },
{
    if k < c.len() {
        match &c[k] {
            Some(x) => Some(slice_copy(x.as_slice(), 0, x.len())),
            None => None,
        }
    } else {
        None
    }
}

fn signature_exec(
    l: &[char],
    function_caps: &Option<Vec<Option<Vec<char>>>>,
    method_caps: &Option<Vec<Option<Vec<char>>>>,
) -> (r: Option<(Vec<char>, usize)>)
    requires
        captures_view(*function_caps) == captures_of(PHP_FUNCTION@, l@),
        captures_view(*method_caps) == captures_of(PHP_METHOD@, l@),
    ensures
        match r {
            Some((n, p)) => php_signature(l@) == Some((n@, p as nat)),
            None => php_signature(l@) is None,
        },
{
    let (caps, ng, pg) = match function_caps {
        Some(c) => (c, 3, 4),
        None => match method_caps {
            Some(c) => (c, 4, 5),
            None => {
                return None;
            },
        },
    };
    let ghost cv = caps@.map_values(|g: Option<Vec<char>>| crate::text::opt_chars(g));
    assert(captures_of(if ng == 3 { PHP_FUNCTION@ } else { PHP_METHOD@ }, l@) == Some(cv));
    let name = group_text(caps, ng);
    let params = group_text(caps, pg);
    match (name, params) {
        (Some(n), Some(p)) => {
            let count = count_params(p.as_slice(), false);
            assert(params_from(cv, pg as nat, false) == Some(count as nat));
            Some((n, count))
        },
        _ => {
            assert(params_from(cv, pg as nat, false) is None || name_from(cv, ng as nat) is None);
            None
        },
    }
}

pub proof fn lemma_php_end_range(lines: Seq<Seq<char>>, start: int, i: int, d: int, found: bool)
    requires
        0 <= start <= i,
        start < lines.len(),
    ensures
        start <= php_end_from(lines, start, i, d, found).0 < lines.len(),
    decreases lines.len() - i,
{
    if i < lines.len() {
        let o = count_char(lines[i], '{');
        let c = count_char(lines[i], '}');
        let d2 = d + o - c;
        let f2 = found || o > 0;
        if !(f2 && d2 == 0) && !(i == start && contains(lines[i], ";"@)) {
            lemma_php_end_range(lines, start, i + 1, d2, f2);
        }
    }
}

fn php_end(lines: &[Vec<char>], start: usize) -> (r: (usize, bool))
    requires
        start < lines.len(),
        crate::text::total_chars(view_lines(lines@)) <= usize::MAX,
    ensures
        (r.0 as int, r.1) == php_end_from(view_lines(lines@), start as int, start as int, 0, false),
        start <= r.0 < lines.len(),
{
    let ghost ls = view_lines(lines@);
    proof {
        lemma_php_end_range(ls, start as int, start as int, 0, false);
        crate::scan::lemma_total_chars_prefix(ls, start as int);
    }
    let semi = chars_of(";");
    let mut depth: i128 = 0;
    let mut found = false;
    let mut i: usize = start;
    while i < lines.len()
        invariant
            start <= i <= lines.len(),
            ls == view_lines(lines@),
            semi@ == ";"@,
            crate::text::total_chars(ls) <= usize::MAX,
            -(crate::text::total_chars(ls.subrange(0, i as int)) as int) <= depth <= crate::text::total_chars(ls.subrange(0, i as int)),
            php_end_from(ls, start as int, i as int, depth as int, found) == php_end_from(ls, start as int, start as int, 0, false),
        decreases lines.len() - i,
    {
        let line = lines[i].as_slice();
        assert(ls[i as int] == line@);
        proof {
            assert(ls.subrange(0, i + 1).drop_last() =~= ls.subrange(0, i as int));
            crate::scan::lemma_total_chars_prefix(ls, i + 1);
        }
        let o = count_char_exec(line, '{');
        let c = count_char_exec(line, '}');
        depth = depth + o as i128 - c as i128;
        found = found || o > 0;
        if found && depth == 0 {
            return (i, true);
        }
        if i == start && contains_exec(line, semi.as_slice()) {
            return (start, false);
        }
        i = i + 1;
    }
    (lines.len() - 1, found)
}

fn php_keyword_list() -> (r: Vec<&'static str>)
    ensures
        pats_view(r@) == php_keywords(),
{
    let r = vec![
        " if ",
        " else ",
        " elseif ",
        " for ",
        " foreach ",
        " while ",
        " do ",
        " switch ",
        " case ",
        " catch ",
        " try ",
        " && ",
        " || ",
        " and ",
        " or ",
        "??",
        "?:",
        " ? ",
    ];
    assert(pats_view(r@) =~= php_keywords());
    r
}

fn php_unit_exec(
    lines: &[Vec<char>],
    i: usize,
    keywords: &Vec<&'static str>,
    function_caps: &Option<Vec<Option<Vec<char>>>>,
    method_caps: &Option<Vec<Option<Vec<char>>>>,
) -> (r: Option<Function>)
    requires
        i < lines.len(),
        captures_view(*function_caps) == captures_of(PHP_FUNCTION@, lines@[i as int]@),
        captures_view(*method_caps) == captures_of(PHP_METHOD@, lines@[i as int]@),
        crate::text::total_chars(view_lines(lines@)) <= usize::MAX,
        pats_view(keywords@) == php_keywords(),
    ensures
        crate::units::opt_unit_view(r) == php_unit(view_lines(lines@), i as int),
        r matches Some(f) ==> unit_wf(f@, lines@.len()) && i < f.end_line,
{
    assert(view_lines(lines@)[i as int] == lines@[i as int]@);
    match signature_exec(lines[i].as_slice(), function_caps, method_caps) {
        None => None,
        Some((n, p)) => {
            let (e, ok) = php_end(lines, i);
            if ok {
                Some(make_unit(lines, i, n.as_slice(), p, e, keywords.as_slice()))
            } else {
                None
            }
        },
    }
}

/// The functions of a PHP file: see `php_units_from`.
pub fn detect_php_functions(lines: &[Vec<char>]) -> (r: Vec<Function>)
    requires
        crate::text::total_chars(view_lines(lines@)) <= usize::MAX,
    ensures
        units_view(r@) == php_units_from(view_lines(lines@), 0),
        forall|k: int| 0 <= k < r@.len() ==> unit_wf(#[trigger] r@[k]@, lines@.len()),
{
    let ghost ls = view_lines(lines@);
    let keywords = php_keyword_list();
    let function_caps = regex_captures_each(PHP_FUNCTION, lines);
    let method_caps = regex_captures_each(PHP_METHOD, lines);
    let mut out: Vec<Function> = Vec::new();
    let mut i: usize = 0;
    while i < lines.len()
        invariant
            i <= lines.len(),
            ls == view_lines(lines@),
            crate::text::total_chars(ls) <= usize::MAX,
            pats_view(keywords@) == php_keywords(),
            units_view(out@) + php_units_from(ls, i as int) == php_units_from(ls, 0),
            forall|k: int| 0 <= k < out@.len() ==> unit_wf(#[trigger] out@[k]@, lines@.len()),
            function_caps@.len() == lines@.len() && method_caps@.len() == lines@.len(),
            forall|q: int| 0 <= q < lines@.len() ==> captures_view(#[trigger] function_caps@[q]) == captures_of(PHP_FUNCTION@, lines@[q]@),
            forall|q: int| 0 <= q < lines@.len() ==> captures_view(#[trigger] method_caps@[q]) == captures_of(PHP_METHOD@, lines@[q]@),
        decreases lines.len() - i,
    {
        match php_unit_exec(lines, i, &keywords, &function_caps[i], &method_caps[i]) {
            Some(f) => {
                let e = f.end_line - 1;
                let next = if e > i && e <= lines.len() {
                    e
                } else {
                    i + 1
                };
                let ghost before = units_view(out@);
                out.push(f);
                assert(units_view(out@) =~= before + seq![f@]);
                assert(php_units_from(ls, i as int) == seq![f@] + php_units_from(ls, next as int));
                assert(units_view(out@) + php_units_from(ls, next as int) =~= before + php_units_from(ls, i as int));
                i = next;
            },
            None => {
                i = i + 1;
            },
        }
    }
    out
}

/// Extractor for PHP.
pub struct PHPParser;

impl PHPParser {
    pub fn new() -> (r: PHPParser) {
        PHPParser
    }

    /// The unit model of a PHP file: see `php_units_from`.
    pub fn parse(&self, file_path: &str, content: &str) -> (r: BaseParseResult)
        ensures
            php_model(r, content@),
    {
        let lines = lines_of(content);
        let functions = detect_php_functions(lines.as_slice());
        let comment_lines = count_php_comments(lines.as_slice());
        BaseParseResult { functions, comment_lines, total_lines: lines.len(), language: LanguageType::PHP }
    }

    pub fn supported_languages(&self) -> (r: Vec<LanguageType>)
        ensures
            r@ == seq![LanguageType::PHP],
    {
        let r = vec![LanguageType::PHP];
        assert(r@ =~= seq![LanguageType::PHP]);
        r
    }
}

} // verus!
