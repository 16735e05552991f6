use vstd::prelude::*;

use crate::language::LanguageType;
use crate::model::{unit_wf, units_view, BaseParseResult, Function, UnitView};
use crate::parsers::lines_of;
use crate::scan::{
    accumulate_hits, cap, complexity_of, count_delimited_comments, delimited_comment_count,
    pats_view, span_hits,
};
use crate::text::{
    chars_of, contains, contains_exec, split_lines, starts_with, string_of, total_chars, trim,
    view_lines,
};

verus! {

// ---------------------------------------------------------------------------
// Numbering
// ---------------------------------------------------------------------------

pub open spec fn digit(d: nat) -> char {
    if d == 0 {
        '0'
    } else if d == 1 {
        '1'
    } else if d == 2 {
        '2'
    } else if d == 3 {
        '3'
    } else if d == 4 {
        '4'
    } else if d == 5 {
        '5'
    } else if d == 6 {
        '6'
    } else if d == 7 {
        '7'
    } else if d == 8 {
        '8'
    } else {
        '9'
    }
}

/// The decimal digits of `n`.
pub open spec fn decimal(n: nat) -> Seq<char>
    decreases n,
{
    if n < 10 {
        seq![digit(n)]
    } else {
        decimal(n / 10).push(digit(n % 10))
    }
}

fn digit_exec(d: u64) -> (r: char)
    requires
        d < 10,
    ensures
        r == digit(d as nat),
{
    if d == 0 {
        '0'
    } else if d == 1 {
        '1'
    } else if d == 2 {
        '2'
    } else if d == 3 {
        '3'
    } else if d == 4 {
        '4'
    } else if d == 5 {
        '5'
    } else if d == 6 {
        '6'
    } else if d == 7 {
        '7'
    } else if d == 8 {
        '8'
    } else {
        '9'
    }
}

/// The decimal digits of `n`.
pub fn decimal_exec(n: u64) -> (r: Vec<char>)
    ensures
        r@ == decimal(n as nat),
    decreases n,
{
    if n < 10 {
        let r = vec![digit_exec(n)];
        assert(r@ =~= seq![digit(n as nat)]);
        r
    } else {
        let mut r = decimal_exec(n / 10);
        r.push(digit_exec(n % 10));
        r
    }
}

// ---------------------------------------------------------------------------
// Tag-delimited blocks
// ---------------------------------------------------------------------------

/// How one kind of markup block is found and scored.
pub struct BlockRule {
    /// Text that opens a block on a line.
    pub open: &'static str,
    /// Text that closes an open block.
    pub close: &'static str,
    /// Whether a line that also holds `close` does not open a block.
    pub open_excludes_close: bool,
    /// Whether the opening line counts toward complexity.
    pub count_open_line: bool,
    pub keywords: Vec<&'static str>,
    /// Blocks are named `prefix` followed by their number, from 1.
    pub prefix: &'static str,
}

pub struct BlockView {
    pub open: Seq<char>,
    pub close: Seq<char>,
    pub open_excludes_close: bool,
    pub count_open_line: bool,
    pub keywords: Seq<Seq<char>>,
    pub prefix: Seq<char>,
}

impl View for BlockRule {
    type V = BlockView;

    open spec fn view(&self) -> BlockView {
        BlockView {
            open: self.open@,
            close: self.close@,
            open_excludes_close: self.open_excludes_close,
            count_open_line: self.count_open_line,
            keywords: pats_view(self.keywords@),
            prefix: self.prefix@,
        }
    }
}

pub open spec fn opens_block(l: Seq<char>, r: BlockView) -> bool {
    contains(l, r.open) && (!r.open_excludes_close || !contains(l, r.close))
}

/// The blocks found from line `i` on, `open` holding the start of an open block and
/// `made` the number of blocks found before. A line that opens a block (re)starts
/// it; the next line holding the closing text ends it.
pub open spec fn blocks_from(lines: Seq<Seq<char>>, i: int, open: Option<int>, made: nat, r: BlockView) -> Seq<UnitView>
    decreases lines.len() - i,
{
    if i >= lines.len() || i < 0 {
        seq![]
    } else if opens_block(lines[i], r) {
        blocks_from(lines, i + 1, Some(i), made, r)
    } else {
        match open {
            Some(s) => if contains(lines[i], r.close) {
                seq![
                    UnitView {
                        name: r.prefix + decimal(made + 1),
                        start_line: (s + 1) as nat,
                        end_line: (i + 1) as nat,
                        complexity: complexity_of(
                            lines,
                            if r.count_open_line {
                                s
                            } else {
                                s + 1
                            },
                            i,
                            r.keywords,
                        ),
                        parameters: 0,
                    },
                ] + blocks_from(lines, i + 1, None, made + 1, r)
            } else {
                blocks_from(lines, i + 1, open, made, r)
            },
            None => blocks_from(lines, i + 1, None, made, r),
        }
    }
}

pub open spec fn opt_start(open: bool, start: usize) -> Option<int> {
    if open {
        Some(start as int)
    } else {
        None
    }
}

/// The blocks that `rule` finds: see `blocks_from`.
pub fn detect_blocks(lines: &[Vec<char>], rule: &BlockRule) -> (r: Vec<Function>)
    ensures
        units_view(r@) == blocks_from(view_lines(lines@), 0, None, 0, rule@),
        forall|k: int| 0 <= k < r@.len() ==> unit_wf(#[trigger] r@[k]@, lines@.len()),
{
    let ghost ls = view_lines(lines@);
    let o = chars_of(rule.open);
    let c = chars_of(rule.close);
    let mut out: Vec<Function> = Vec::new();
    let mut open = false;
    let mut start: usize = 0;
    let mut i: usize = 0;
    while i < lines.len()
        invariant
            i <= lines.len(),
            ls == view_lines(lines@),
            o@ == rule.open@,
            c@ == rule.close@,
            open ==> start < i,
            units_view(out@) + blocks_from(ls, i as int, opt_start(open, start), out@.len() as nat, rule@)
                == blocks_from(ls, 0, None, 0, rule@),
            forall|k: int| 0 <= k < out@.len() ==> unit_wf(#[trigger] out@[k]@, lines@.len()),
            out@.len() <= i,
        decreases lines.len() - i,
    {
        let line = lines[i].as_slice();
        assert(ls[i as int] == line@);
        let has_open = contains_exec(line, o.as_slice());
        let has_close = contains_exec(line, c.as_slice());
        if has_open && (!rule.open_excludes_close || !has_close) {
            open = true;
            start = i;
        } else if open && has_close {
            let lo = if rule.count_open_line {
                start
            } else {
                start + 1
            };
            let complexity = accumulate_hits(lines, lo, i + 1, rule.keywords.as_slice(), 1);
            let mut name = chars_of(rule.prefix);
            let digits = decimal_exec(out.len() as u64 + 1);
            let mut k: usize = 0;
            let ghost base = name@;
            while k < digits.len()
                invariant
                    k <= digits.len(),
                    name@ == base + digits@.subrange(0, k as int),
                decreases digits.len() - k,
            {
                name.push(digits[k]);
                assert(digits@.subrange(0, k + 1) =~= digits@.subrange(0, k as int).push(digits@[k as int]));
                k = k + 1;
            }
            assert(digits@.subrange(0, digits.len() as int) =~= digits@);
            let f = Function {
                name: string_of(name.as_slice()),
                start_line: start + 1,
                end_line: i + 1,
                complexity,
                parameters: 0,
            };
            let ghost before = units_view(out@);
            out.push(f);
            proof {
                assert(units_view(out@) =~= before + seq![f@]);
                assert(f@.complexity == complexity_of(ls, lo as int, i as int, rule@.keywords));
            }
            open = false;
        }
        i = i + 1;
    }
    out
}

fn append_units(out: &mut Vec<Function>, more: Vec<Function>, n: usize)
    requires
        forall|k: int| 0 <= k < old(out)@.len() ==> unit_wf(#[trigger] old(out)@[k]@, n as nat),
        forall|k: int| 0 <= k < more@.len() ==> unit_wf(#[trigger] more@[k]@, n as nat),
    ensures
        units_view(final(out)@) == units_view(old(out)@) + units_view(more@),
        forall|k: int| 0 <= k < final(out)@.len() ==> unit_wf(#[trigger] final(out)@[k]@, n as nat),
{
    let ghost first = out@;
    let ghost m = more@;
    let mut more = more;
    out.append(&mut more);
    assert(out@ == first + m);
    assert(units_view(out@) =~= units_view(first) + units_view(m));
    assert forall|k: int| 0 <= k < out@.len() implies unit_wf(#[trigger] out@[k]@, n as nat) by {
        if k < first.len() {
            assert(out@[k] == first[k]);
        } else {
            assert(out@[k] == m[k - first.len()]);
        }
    }
}

// ---------------------------------------------------------------------------
// HTML
// ---------------------------------------------------------------------------

pub open spec fn script_rule() -> BlockView {
    BlockView {
        open: "<script"@,
        close: "</script>"@,
        open_excludes_close: true,
        count_open_line: true,
        keywords: seq![" if "@, " for "@, " while "@, " switch "@, " case "@, " && "@, " || "@, " ? "@],
        prefix: "script_block_"@,
    }
}

pub open spec fn style_rule() -> BlockView {
    BlockView {
        open: "<style"@,
        close: "</style>"@,
        open_excludes_close: true,
        count_open_line: true,
        keywords: seq![" "@, ">"@, "+"@, "~"@, "."@, "#"@, "["@, ":"@],
        prefix: "style_block_"@,
    }
}

pub open spec fn form_rule() -> BlockView {
    BlockView {
        open: "<form"@,
        close: "</form>"@,
        open_excludes_close: false,
        count_open_line: false,
        keywords: seq!["<input"@, "<select"@, "<textarea"@, "<button"@],
        prefix: "form_block_"@,
    }
}

pub open spec fn structure_tags() -> Seq<Seq<char>> {
    seq!["<div"@, "<span"@, "<table"@, "<ul"@, "<ol"@]
}

/// Structural elements over the whole page above which it becomes a unit.
pub const STRUCTURE_THRESHOLD: usize = 50;

/// The whole-page unit: where 1 plus the count of structural tags exceeds the
/// threshold, a unit over all lines with a tenth of that count as complexity.
pub open spec fn page_structure(lines: Seq<Seq<char>>) -> Seq<UnitView> {
    let total = cap(1 + span_hits(lines, structure_tags()));
    if total > STRUCTURE_THRESHOLD {
        seq![
            UnitView {
                name: "html_structure"@,
                start_line: 1,
                end_line: lines.len(),
                complexity: total / 10,
                parameters: 0,
            },
        ]
    } else {
        seq![]
    }
}

/// The units of an HTML page: script blocks, style blocks, form blocks, then the
/// whole-page structure unit.
pub open spec fn html_units(lines: Seq<Seq<char>>) -> Seq<UnitView> {
    blocks_from(lines, 0, None, 0, script_rule()) + blocks_from(lines, 0, None, 0, style_rule())
        + blocks_from(lines, 0, None, 0, form_rule()) + page_structure(lines)
}

pub open spec fn html_model(r: BaseParseResult, content: Seq<char>) -> bool {
    let lines = split_lines(content);
    &&& units_view(r.functions@) == html_units(lines)
    &&& r.comment_lines == delimited_comment_count(lines, false, "<!--"@, "-->"@)
    &&& r.total_lines == lines.len()
    &&& r.language == LanguageType::HTML
    &&& r.wf()
}

fn make_block_rule(
    open: &'static str,
    close: &'static str,
    open_excludes_close: bool,
    count_open_line: bool,
    keywords: Vec<&'static str>,
    prefix: &'static str,
) -> (r: BlockRule)
    ensures
        r@ == (BlockView {
            open: open@,
            close: close@,
            open_excludes_close,
            count_open_line,
            keywords: pats_view(keywords@),
            prefix: prefix@,
        }),
{
    BlockRule { open, close, open_excludes_close, count_open_line, keywords, prefix }
}

fn page_structure_exec(lines: &[Vec<char>]) -> (r: Vec<Function>)
    ensures
        units_view(r@) == page_structure(view_lines(lines@)),
        forall|k: int| 0 <= k < r@.len() ==> unit_wf(#[trigger] r@[k]@, lines@.len()),
{
    let tags = vec!["<div", "<span", "<table", "<ul", "<ol"];
    assert(pats_view(tags@) =~= structure_tags());
    let total = accumulate_hits(lines, 0, lines.len(), tags.as_slice(), 1);
    assert(view_lines(lines@).subrange(0, lines@.len() as int) =~= view_lines(lines@));
    let mut out: Vec<Function> = Vec::new();
    if total > STRUCTURE_THRESHOLD {
        let f = Function {
            name: "html_structure".to_string(),
            start_line: 1,
            end_line: lines.len(),
            complexity: total / 10,
            parameters: 0,
        };
        out.push(f);
        assert(units_view(out@) =~= seq![f@]);
        assert(lines@.len() >= 1) by {
            if lines@.len() == 0 {
                assert(view_lines(lines@) =~= Seq::<Seq<char>>::empty());
            }
        }
    } else {
        assert(units_view(out@) =~= Seq::<UnitView>::empty());
    }
    out
}

/// Extractor for HTML pages: script, style and form blocks are units, and so is
/// a page with many structural elements as a whole.
pub struct HTMLParser;

impl HTMLParser {
    pub fn new() -> (r: HTMLParser) {
        HTMLParser
    }

    /// The unit model of an HTML page: see `html_units`.
    pub fn parse(&self, file_path: &str, content: &str) -> (r: BaseParseResult)
        ensures
            html_model(r, content@),
    {
        let lines = lines_of(content);
        let ls = lines.as_slice();
        let script_words = vec![" if ", " for ", " while ", " switch ", " case ", " && ", " || ", " ? "];
        assert(pats_view(script_words@) =~= script_rule().keywords);
        let style_marks = vec![" ", ">", "+", "~", ".", "#", "[", ":"];
        assert(pats_view(style_marks@) =~= style_rule().keywords);
        let form_fields = vec!["<input", "<select", "<textarea", "<button"];
        assert(pats_view(form_fields@) =~= form_rule().keywords);
        let script = make_block_rule("<script", "</script>", true, true, script_words, "script_block_");
        let style = make_block_rule("<style", "</style>", true, true, style_marks, "style_block_");
        let form = make_block_rule("<form", "</form>", false, false, form_fields, "form_block_");
        let mut functions = detect_blocks(ls, &script);
        append_units(&mut functions, detect_blocks(ls, &style), ls.len());
        append_units(&mut functions, detect_blocks(ls, &form), ls.len());
        append_units(&mut functions, page_structure_exec(ls), ls.len());
        let comment_lines = count_delimited_comments(ls, "<!--", "-->");
        BaseParseResult { functions, comment_lines, total_lines: ls.len(), language: LanguageType::HTML }
    }

    pub fn supported_languages(&self) -> (r: Vec<LanguageType>)
        ensures
            r@ == seq![LanguageType::HTML],
    {
        let r = vec![LanguageType::HTML];
        assert(r@ =~= seq![LanguageType::HTML]);
        r
    }
}

// ---------------------------------------------------------------------------
// CSS
// ---------------------------------------------------------------------------

/// Where a stylesheet scan stands: whether a rule is open, where it started, its
/// selector, the brace depth inside it and its complexity so far.
pub struct CssState {
    pub open: bool,
    pub start: int,
    pub selector: Seq<char>,
    pub depth: int,
    pub hits: nat,
}

pub open spec fn css_initial() -> CssState {
    CssState { open: false, start: 0, selector: Seq::empty(), depth: 0, hits: 0 }
}

/// The characters of `s` before the first `c` (all of `s` where there is none).
pub open spec fn take_until(s: Seq<char>, c: char) -> Seq<char>
    decreases s.len(),
{
    if s.len() == 0 || s[0] == c {
        Seq::empty()
    } else {
        seq![s[0]] + take_until(s.drop_first(), c)
    }
}

/// `s` without its `\r` characters.
pub open spec fn without_cr(s: Seq<char>) -> Seq<char>
    decreases s.len(),
{
    if s.len() == 0 {
        s
    } else {
        without_cr(s.drop_last()) + if s.last() == '\r' {
            Seq::empty()
        } else {
            seq![s.last()]
        }
    }
}

/// The selector of a rule opened on a trimmed line: the text before its `{`, or
/// the whole line where the brace follows on the next line.
pub open spec fn selector_of(t: Seq<char>) -> Seq<char> {
    if contains(t, "{"@) {
        trim(take_until(t, '{'))
    } else {
        t
    }
}

pub const RULE_NAME_MAX: usize = 50;

/// A rule's name: its selector without `\r`, cut to 47 characters and `...` where
/// longer than 50, `css_rule` where empty.
pub open spec fn rule_name(selector: Seq<char>) -> Seq<char> {
    let c = without_cr(selector);
    if c.len() > RULE_NAME_MAX {
        c.subrange(0, 47) + "..."@
    } else if c.len() == 0 {
        "css_rule"@
    } else {
        c
    }
}

/// Selector parts that raise a rule's complexity; an id counts twice.
pub open spec fn selector_marks() -> Seq<Seq<char>> {
    seq![" "@, ">"@, "+"@, "~"@, "."@, "#"@, "#"@, "["@, ":"@, ","@]
}

/// Declaration parts that raise a rule's complexity: each declaration, heavy
/// properties and `calc(` twice, `@media` three times, each nested block.
pub open spec fn property_marks() -> Seq<Seq<char>> {
    seq![
        ":"@,
        "transform"@,
        "transform"@,
        "animation"@,
        "animation"@,
        "transition"@,
        "transition"@,
        "background"@,
        "background"@,
        "border"@,
        "border"@,
        "box-shadow"@,
        "box-shadow"@,
        "text-shadow"@,
        "text-shadow"@,
        "filter"@,
        "filter"@,
        "calc("@,
        "calc("@,
        "@media"@,
        "@media"@,
        "@media"@,
        "{"@,
    ]
}

/// A blank line, or one that starts a comment: the scan passes over it.
pub open spec fn css_skipped(l: Seq<char>) -> bool {
    starts_with(trim(l), "/*"@) || trim(l).len() == 0
}

/// Whether line `i` opens a rule: it holds `{`, or it holds `:` and the next line
/// holds the `{`.
pub open spec fn css_opens(lines: Seq<Seq<char>>, i: int) -> bool {
    let t = trim(lines[i]);
    contains(t, "{"@) || (contains(t, ":"@) && !contains(t, "{"@) && i + 1 < lines.len() && contains(
        trim(lines[i + 1]),
        "{"@,
    ))
}

/// The rules found from line `i` on, in state `st`. A rule runs from the line that
/// opens it to the line where its braces balance; its complexity is 1, plus its
/// selector marks, plus the property marks on its lines (saturating).
pub open spec fn css_from(lines: Seq<Seq<char>>, i: int, st: CssState) -> Seq<UnitView>
    decreases lines.len() - i,
{
    if i < 0 || i >= lines.len() {
        seq![]
    } else if css_skipped(lines[i]) {
        css_from(lines, i + 1, st)
    } else {
        let t = trim(lines[i]);
        let st1 = if !st.open && css_opens(lines, i) {
            CssState {
                open: true,
                start: i,
                selector: selector_of(t),
                depth: 0,
                hits: cap(1 + crate::scan::line_hits(selector_of(t), selector_marks())),
            }
        } else {
            st
        };
        if st1.open {
            let d = st1.depth + crate::text::count_char(lines[i], '{') - crate::text::count_char(lines[i], '}');
            let h = cap(st1.hits + crate::scan::line_hits(lines[i], property_marks()));
            if d == 0 {
                seq![
                    UnitView {
                        name: rule_name(st1.selector),
                        start_line: (st1.start + 1) as nat,
                        end_line: (i + 1) as nat,
                        complexity: h,
                        parameters: 0,
                    },
                ] + css_from(
                    lines,
                    i + 1,
                    CssState { open: false, start: st1.start, selector: st1.selector, depth: d, hits: h },
                )
            } else {
                css_from(
                    lines,
                    i + 1,
                    CssState { open: true, start: st1.start, selector: st1.selector, depth: d, hits: h },
                )
            }
        } else {
            css_from(lines, i + 1, st1)
        }
    }
}

pub open spec fn css_model(r: BaseParseResult, content: Seq<char>) -> bool {
    let lines = split_lines(content);
    &&& units_view(r.functions@) == css_from(lines, 0, css_initial())
    &&& r.comment_lines == delimited_comment_count(lines, false, "/*"@, "*/"@)
    &&& r.total_lines == lines.len()
    &&& r.language == LanguageType::CSS
    &&& r.wf()
}

fn take_until_exec(s: &[char], c: char) -> (r: Vec<char>)
    ensures
        r@ == take_until(s@, c),
{
    let mut k: usize = 0;
    assert(s@.subrange(0, s@.len() as int) =~= s@);
    while k < s.len() && s[k] != c
        invariant
            k <= s.len(),
            take_until(s@, c) == s@.subrange(0, k as int) + take_until(s@.subrange(k as int, s@.len() as int), c),
        decreases s.len() - k,
    {
        let ghost rest = s@.subrange(k as int, s@.len() as int);
        assert(rest.drop_first() =~= s@.subrange(k + 1, s@.len() as int));
        assert(s@.subrange(0, k + 1) =~= s@.subrange(0, k as int) + seq![s@[k as int]]);
        k = k + 1;
    }
    proof {
        let rest = s@.subrange(k as int, s@.len() as int);
        assert(take_until(rest, c) =~= Seq::<char>::empty());
        assert(s@.subrange(0, k as int) + Seq::<char>::empty() =~= s@.subrange(0, k as int));
    }
    crate::text::slice_copy(s, 0, k)
}

fn rule_name_exec(sel: &[char]) -> (r: Vec<char>)
    ensures
        r@ == rule_name(sel@),
{
    let mut c: Vec<char> = Vec::new();
    let mut k: usize = 0;
    assert(sel@.subrange(0, 0) =~= Seq::<char>::empty());
    while k < sel.len()
        invariant
            k <= sel.len(),
            c@ == without_cr(sel@.subrange(0, k as int)),
        decreases sel.len() - k,
    {
        assert(sel@.subrange(0, k + 1).drop_last() =~= sel@.subrange(0, k as int));
        if sel[k] != '\r' {
            c.push(sel[k]);
        }
        proof {
            let p = sel@.subrange(0, k + 1);
            assert(p.last() == sel@[k as int]);
            if sel@[k as int] == '\r' {
                assert(without_cr(p) =~= without_cr(sel@.subrange(0, k as int)));
            } else {
                assert(without_cr(p) =~= without_cr(sel@.subrange(0, k as int)) + seq![sel@[k as int]]);
            }
        }
        k = k + 1;
    }
    assert(sel@.subrange(0, sel@.len() as int) =~= sel@);
    if c.len() > RULE_NAME_MAX {
        let mut r = crate::text::slice_copy(c.as_slice(), 0, 47);
        let dots = chars_of("...");
        let ghost head = r@;
        let mut j: usize = 0;
        while j < dots.len()
            invariant
                j <= dots.len(),
                r@ == head + dots@.subrange(0, j as int),
            decreases dots.len() - j,
        {
            r.push(dots[j]);
            assert(dots@.subrange(0, j + 1) =~= dots@.subrange(0, j as int).push(dots@[j as int]));
            j = j + 1;
        }
        assert(dots@.subrange(0, dots.len() as int) =~= dots@);
        r
    } else if c.len() == 0 {
        chars_of("css_rule")
    } else {
        c
    }
}

fn selector_exec(t: &[char]) -> (r: Vec<char>)
    ensures
        r@ == selector_of(t@),
{
    let brace = chars_of("{");
    if contains_exec(t, brace.as_slice()) {
        let before = take_until_exec(t, '{');
        crate::text::trim_exec(before.as_slice())
    } else {
        crate::text::slice_copy(t, 0, t.len())
    }
}

pub open spec fn css_state_view(open: bool, start: usize, selector: Seq<char>, depth: i128, hits: usize) -> CssState {
    CssState { open, start: start as int, selector, depth: depth as int, hits: hits as nat }
}

proof fn lemma_prefix_chars_step(ls: Seq<Seq<char>>, i: int)
    requires
        0 <= i < ls.len(),
    ensures
        total_chars(ls.subrange(0, i + 1)) == total_chars(ls.subrange(0, i)) + ls[i].len(),
{
    assert(ls.subrange(0, i + 1).drop_last() =~= ls.subrange(0, i));
}

/// The rules of a stylesheet: see `css_from`.
pub fn detect_css_rules(lines: &[Vec<char>]) -> (r: Vec<Function>)
    requires
        total_chars(view_lines(lines@)) <= usize::MAX,
    ensures
        units_view(r@) == css_from(view_lines(lines@), 0, css_initial()),
        forall|k: int| 0 <= k < r@.len() ==> unit_wf(#[trigger] r@[k]@, lines@.len()),
{
    let ghost ls = view_lines(lines@);
    let comment = chars_of("/*");
    let brace = chars_of("{");
    let colon = chars_of(":");
    let sel_marks = vec![" ", ">", "+", "~", ".", "#", "#", "[", ":", ","];
    assert(pats_view(sel_marks@) =~= selector_marks());
    let prop_marks = vec![
        ":",
        "transform",
        "transform",
        "animation",
        "animation",
        "transition",
        "transition",
        "background",
        "background",
        "border",
        "border",
        "box-shadow",
        "box-shadow",
        "text-shadow",
        "text-shadow",
        "filter",
        "filter",
        "calc(",
        "calc(",
        "@media",
        "@media",
        "@media",
        "{",
    ];
    assert(pats_view(prop_marks@) =~= property_marks());
    let mut out: Vec<Function> = Vec::new();
    let mut open = false;
    let mut start: usize = 0;
    let mut selector: Vec<char> = Vec::new();
    let mut depth: i128 = 0;
    let mut hits: usize = 0;
    let mut i: usize = 0;
    assert(selector@ =~= Seq::<char>::empty());
    assert(ls.subrange(0, 0) =~= Seq::<Seq<char>>::empty());
    while i < lines.len()
        invariant
            i <= lines.len(),
            ls == view_lines(lines@),
            total_chars(ls) <= usize::MAX,
            comment@ == "/*"@,
            brace@ == "{"@,
            colon@ == ":"@,
            pats_view(sel_marks@) == selector_marks(),
            pats_view(prop_marks@) == property_marks(),
            open ==> start < i && hits >= 1,
            -(total_chars(ls.subrange(0, i as int)) as int) <= depth <= total_chars(ls.subrange(0, i as int)),
            units_view(out@) + css_from(ls, i as int, css_state_view(open, start, selector@, depth, hits))
                == css_from(ls, 0, css_initial()),
            forall|k: int| 0 <= k < out@.len() ==> unit_wf(#[trigger] out@[k]@, lines@.len()),
        decreases lines.len() - i,
    {
        let line = lines[i].as_slice();
        assert(ls[i as int] == line@);
        proof {
            lemma_prefix_chars_step(ls, i as int);
            crate::scan::lemma_total_chars_prefix(ls, i + 1);
        }
        let t = crate::text::trim_exec(line);
        let t = t.as_slice();
        if !(crate::text::starts_with_exec(t, comment.as_slice()) || t.len() == 0) {
            if !open {
                let has_brace = contains_exec(t, brace.as_slice());
                let opens = has_brace || (contains_exec(t, colon.as_slice()) && i + 1 < lines.len() && {
                    let next = crate::text::trim_exec(lines[i + 1].as_slice());
                    assert(ls[i + 1] == lines@[i + 1]@);
                    contains_exec(next.as_slice(), brace.as_slice())
                });
                if opens {
                    open = true;
                    start = i;
                    selector = selector_exec(t);
                    depth = 0;
                    hits = crate::scan::hits_in_line(selector.as_slice(), sel_marks.as_slice(), 1);
                }
            }
            if open {
                let o = crate::text::count_char_exec(line, '{');
                let c = crate::text::count_char_exec(line, '}');
                depth = depth + o as i128 - c as i128;
                hits = crate::scan::hits_in_line(line, prop_marks.as_slice(), hits);
                if depth == 0 {
                    let name = rule_name_exec(selector.as_slice());
                    let f = Function {
                        name: string_of(name.as_slice()),
                        start_line: start + 1,
                        end_line: i + 1,
                        complexity: hits,
                        parameters: 0,
                    };
                    let ghost before = units_view(out@);
                    out.push(f);
                    assert(units_view(out@) =~= before + seq![f@]);
                    open = false;
                }
            }
        }
        i = i + 1;
    }
    out
}

/// Extractor for stylesheets: each rule is a unit.
pub struct CSSParser;

impl CSSParser {
    pub fn new() -> (r: CSSParser) {
        CSSParser
    }

    /// The unit model of a stylesheet: see `css_from`.
    pub fn parse(&self, file_path: &str, content: &str) -> (r: BaseParseResult)
        ensures
            css_model(r, content@),
    {
        let lines = lines_of(content);
        let functions = detect_css_rules(lines.as_slice());
        let comment_lines = count_delimited_comments(lines.as_slice(), "/*", "*/");
        BaseParseResult { functions, comment_lines, total_lines: lines.len(), language: LanguageType::CSS }
    }

    pub fn supported_languages(&self) -> (r: Vec<LanguageType>)
        ensures
            r@ == seq![LanguageType::CSS],
    {
        let r = vec![LanguageType::CSS];
        assert(r@ =~= seq![LanguageType::CSS]);
        r
    }
}

} // verus!
