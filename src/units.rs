use vstd::prelude::*;

use crate::model::{unit_wf, units_view, Function, UnitView};
use crate::scan::{
    brace_end, complexity_of, count_params, find_brace_end, find_indent_end, indent_end,
    param_count, pats_view, unit_complexity,
};
use crate::text::{
    captures_of, captures_view, chars_of, contains, contains_exec, ends_with, ends_with_exec,
    regex_captures_each, slice_copy, starts_with, starts_with_exec, string_of, total_chars, trim,
    trim_exec, view_lines,
};

verus! {

/// How the last line of a unit is found from its signature line.
#[derive(Debug, Clone, Copy, PartialEq, Eq, Structural)]
pub enum EndRule {
    /// Braces counted from the signature line: `brace_end`.
    Brace,
    /// Indentation: `indent_end`.
    Indent,
    /// An expression body (`=>` on the signature line) ends at the first line from
    /// the signature on that holds `;`; any other body as `Brace`.
    ArrowOrBrace,
}

/// How one family of signatures is recognised on a line.
pub struct SignatureRule {
    /// The regular expression a signature line matches.
    pub pattern: &'static str,
    /// The capture group holding the name; 0 for the first group (after the whole
    /// match) that took part, or `anonymous` where none did.
    pub name_group: usize,
    /// The capture group holding the parameter list; 0 where parameters are not
    /// counted (the unit gets 0).
    pub params_group: usize,
    /// Whether a parameter list reading `void` counts as empty.
    pub void_is_empty: bool,
    pub end: EndRule,
    /// The control-flow patterns whose occurrences raise complexity.
    pub keywords: Vec<&'static str>,
    /// Whether a signature line must end with `{` and not start with it (after
    /// trimming).
    pub brace_line_only: bool,
}

/// What a `SignatureRule` holds, with its texts as characters.
pub struct RuleView {
    pub pattern: Seq<char>,
    pub name_group: nat,
    pub params_group: nat,
    pub void_is_empty: bool,
    pub end: EndRule,
    pub keywords: Seq<Seq<char>>,
    pub brace_line_only: bool,
}

impl View for SignatureRule {
    type V = RuleView;

    open spec fn view(&self) -> RuleView {
        RuleView {
            pattern: self.pattern@,
            name_group: self.name_group as nat,
            params_group: self.params_group as nat,
            void_is_empty: self.void_is_empty,
            end: self.end,
            keywords: pats_view(self.keywords@),
            brace_line_only: self.brace_line_only,
        }
    }
}

pub open spec fn anonymous() -> Seq<char> {
    "anonymous"@
}

/// The text of the first group from `i` on that took part in the match.
pub open spec fn first_present(c: Seq<Option<Seq<char>>>, i: int) -> Seq<char>
    decreases c.len() - i,
{
    if i >= c.len() {
        anonymous()
    } else {
        match c[i] {
            Some(x) => x,
            None => first_present(c, i + 1),
        }
    }
}

pub open spec fn name_from(c: Seq<Option<Seq<char>>>, k: nat) -> Option<Seq<char>> {
    if k == 0 {
        Some(first_present(c, 1))
    } else if k < c.len() {
        c[k as int]
    } else {
        None
    }
}

pub open spec fn params_from(c: Seq<Option<Seq<char>>>, k: nat, void_empty: bool) -> Option<nat> {
    if k == 0 {
        Some(0)
    } else if k < c.len() {
        match c[k as int] {
            Some(p) => Some(param_count(p, void_empty)),
            None => None,
        }
    } else {
        None
    }
}

pub open spec fn semicolon() -> Seq<char> {
    seq![';']
}

pub open spec fn arrow() -> Seq<char> {
    seq!['=', '>']
}

/// The first line from `i` on that holds `;`, or `start` where none does.
pub open spec fn semicolon_from(lines: Seq<Seq<char>>, i: int, start: int) -> int
    decreases lines.len() - i,
{
    if i >= lines.len() {
        start
    } else if contains(lines[i], semicolon()) {
        i
    } else {
        semicolon_from(lines, i + 1, start)
    }
}

pub open spec fn end_by(lines: Seq<Seq<char>>, i: int, end: EndRule) -> int {
    match end {
        EndRule::Brace => brace_end(lines, i),
        EndRule::Indent => indent_end(lines, i),
        EndRule::ArrowOrBrace => if contains(lines[i], arrow()) {
            semicolon_from(lines, i, i)
        } else {
            brace_end(lines, i)
        },
    }
}

/// The unit that starts on line `i` (0-based) with the given name, parameter
/// count and last line.
pub open spec fn unit_at(
    lines: Seq<Seq<char>>,
    i: int,
    name: Seq<char>,
    params: nat,
    end: int,
    keywords: Seq<Seq<char>>,
) -> UnitView {
    UnitView {
        name,
        start_line: (i + 1) as nat,
        end_line: (end + 1) as nat,
        complexity: complexity_of(lines, i, end, keywords),
        parameters: params,
    }
}

pub open spec fn open_brace() -> Seq<char> {
    seq!['{']
}

/// Whether line `l` may hold a signature under the rule's brace condition.
pub open spec fn line_admits(l: Seq<char>, r: RuleView) -> bool {
    !r.brace_line_only || (ends_with(trim(l), open_brace()) && !starts_with(trim(l), open_brace()))
}

/// The unit that the rule finds on line `i`, if any: the line must match the
/// pattern with the name group (and the parameter group, where one is named)
/// taking part.
pub open spec fn rule_unit(lines: Seq<Seq<char>>, i: int, r: RuleView) -> Option<UnitView> {
    if !line_admits(lines[i], r) {
        None
    } else {
        match captures_of(r.pattern, lines[i]) {
            None => None,
            Some(c) => match (name_from(c, r.name_group), params_from(c, r.params_group, r.void_is_empty)) {
                (Some(n), Some(p)) => Some(unit_at(lines, i, n, p, end_by(lines, i, r.end), r.keywords)),
                _ => None,
            },
        }
    }
}

pub open spec fn opt_seq(u: Option<UnitView>) -> Seq<UnitView> {
    match u {
        Some(x) => seq![x],
        None => seq![],
    }
}

/// The units that the rule finds on the first `n` lines, in line order.
pub open spec fn rule_units_upto(lines: Seq<Seq<char>>, n: int, r: RuleView) -> Seq<UnitView>
    decreases n,
{
    if n <= 0 {
        seq![]
    } else {
        rule_units_upto(lines, n - 1, r) + opt_seq(rule_unit(lines, n - 1, r))
    }
}

pub open spec fn rule_units(lines: Seq<Seq<char>>, r: RuleView) -> Seq<UnitView> {
    rule_units_upto(lines, lines.len() as int, r)
}

pub open spec fn opt_unit_view(f: Option<Function>) -> Option<UnitView> {
    match f {
        Some(x) => Some(x@),
        None => None,
    }
}

/// Builds the unit on line `i` with the given name, parameters and last line.
pub fn make_unit(
    lines: &[Vec<char>],
    i: usize,
    name: &[char],
    params: usize,
    end: usize,
    keywords: &[&'static str],
) -> (r: Function)
    requires
        i <= end < lines.len(),
    ensures
        r@ == unit_at(view_lines(lines@), i as int, name@, params as nat, end as int, pats_view(keywords@)),
        unit_wf(r@, lines@.len()),
{
    let complexity = unit_complexity(lines, i, end, keywords);
    Function { name: string_of(name), start_line: i + 1, end_line: end + 1, complexity, parameters: params }
}

fn first_present_exec(c: &Vec<Option<Vec<char>>>) -> (r: Vec<char>)
    ensures
        r@ == first_present(c@.map_values(|g: Option<Vec<char>>| crate::text::opt_chars(g)), 1),
{
    let ghost cv = c@.map_values(|g: Option<Vec<char>>| crate::text::opt_chars(g));
    let mut i: usize = 1;
    while i < c.len()
        invariant
            1 <= i,
            cv == c@.map_values(|g: Option<Vec<char>>| crate::text::opt_chars(g)),
            first_present(cv, i as int) == first_present(cv, 1),
        decreases c.len() - i,
    {
        match &c[i] {
            Some(x) => {
                return slice_copy(x.as_slice(), 0, x.len());
            },
            None => {},
        }
        i = i + 1;
    }
    chars_of("anonymous")
}

/// The first line from `start` on that holds `;`, or `start`.
fn find_semicolon(lines: &[Vec<char>], start: usize) -> (r: usize)
    requires
        start < lines.len(),
    ensures
        r == semicolon_from(view_lines(lines@), start as int, start as int),
        start <= r < lines.len(),
{
    let ghost ls = view_lines(lines@);
    let semi: Vec<char> = vec![';'];
    assert(semi@ =~= semicolon());
    let mut i: usize = start;
    while i < lines.len()
        invariant
            start <= i <= lines.len(),
            ls == view_lines(lines@),
            semi@ == semicolon(),
            semicolon_from(ls, i as int, start as int) == semicolon_from(ls, start as int, start as int),
        decreases lines.len() - i,
    {
        assert(ls[i as int] == lines@[i as int]@);
        if contains_exec(lines[i].as_slice(), semi.as_slice()) {
            return i;
        }
        i = i + 1;
    }
    start
}

/// Last line of the unit whose signature is on line `i`, under `end`.
pub fn find_end(lines: &[Vec<char>], i: usize, end: EndRule) -> (r: usize)
    requires
        i < lines.len(),
        total_chars(view_lines(lines@)) <= usize::MAX,
    ensures
        r == end_by(view_lines(lines@), i as int, end),
        i <= r < lines.len(),
{
    match end {
        EndRule::Brace => find_brace_end(lines, i),
        EndRule::Indent => find_indent_end(lines, i),
        EndRule::ArrowOrBrace => {
            let arr: Vec<char> = vec!['=', '>'];
            assert(arr@ =~= arrow());
            assert(view_lines(lines@)[i as int] == lines@[i as int]@);
            if contains_exec(lines[i].as_slice(), arr.as_slice()) {
                find_semicolon(lines, i)
            } else {
                find_brace_end(lines, i)
            }
        },
    }
}

fn admits(l: &[char], rule: &SignatureRule) -> (r: bool)
    ensures
        r == line_admits(l@, rule@),
{
    if !rule.brace_line_only {
        return true;
    }
    let t = trim_exec(l);
    let ob: Vec<char> = vec!['{'];
    assert(ob@ =~= open_brace());
    ends_with_exec(t.as_slice(), ob.as_slice()) && !starts_with_exec(t.as_slice(), ob.as_slice())
}

/// The unit that `rule` finds on line `i`: see `rule_unit`.
pub fn rule_unit_exec(
    lines: &[Vec<char>],
    i: usize,
    rule: &SignatureRule,
    caps: &Option<Vec<Option<Vec<char>>>>,
) -> (r: Option<Function>)
    requires
        i < lines.len(),
        captures_view(*caps) == captures_of(rule.pattern@, lines@[i as int]@),
        total_chars(view_lines(lines@)) <= usize::MAX,
    ensures
        opt_unit_view(r) == rule_unit(view_lines(lines@), i as int, rule@),
        r matches Some(f) ==> unit_wf(f@, lines@.len()),
{
    let ghost ls = view_lines(lines@);
    let line = lines[i].as_slice();
    assert(ls[i as int] == line@);
    if !admits(line, rule) {
        return None;
    }
    match caps {
        None => None,
        Some(c) => {
            let ghost cv = c@.map_values(|g: Option<Vec<char>>| crate::text::opt_chars(g));
            assert(captures_view(Some(*c)) == Some(cv));
            let name: Option<Vec<char>> = if rule.name_group == 0 {
                Some(first_present_exec(c))
            } else if rule.name_group < c.len() {
                match &c[rule.name_group] {
                    Some(x) => Some(slice_copy(x.as_slice(), 0, x.len())),
                    None => None,
                }
            } else {
                None
            };
            let params: Option<usize> = if rule.params_group == 0 {
                Some(0)
            } else if rule.params_group < c.len() {
                match &c[rule.params_group] {
                    Some(x) => Some(count_params(x.as_slice(), rule.void_is_empty)),
                    None => None,
                }
            } else {
                None
            };
            assert(match name {
                Some(n) => name_from(cv, rule.name_group as nat) == Some(n@),
                None => name_from(cv, rule.name_group as nat) is None,
            });
            assert(match params {
                Some(p) => params_from(cv, rule.params_group as nat, rule.void_is_empty) == Some(p as nat),
                None => params_from(cv, rule.params_group as nat, rule.void_is_empty) is None,
            });
            match (name, params) {
                (Some(n), Some(p)) => {
                    let end = find_end(lines, i, rule.end);
                    Some(make_unit(lines, i, n.as_slice(), p, end, rule.keywords.as_slice()))
                },
                _ => None,
            }
        },
    }
}

/// The units that `rule` finds in `lines`, in line order: see `rule_units`.
pub fn detect_with_rule(lines: &[Vec<char>], rule: &SignatureRule) -> (r: Vec<Function>)
    requires
        total_chars(view_lines(lines@)) <= usize::MAX,
    ensures
        units_view(r@) == rule_units(view_lines(lines@), rule@),
        forall|k: int| 0 <= k < r@.len() ==> unit_wf(#[trigger] r@[k]@, lines@.len()),
{
    let ghost ls = view_lines(lines@);
    let caps = regex_captures_each(rule.pattern, lines);
    let mut out: Vec<Function> = Vec::new();
    let mut i: usize = 0;
    while i < lines.len()
        invariant
            i <= lines.len(),
            ls == view_lines(lines@),
            total_chars(ls) <= usize::MAX,
            units_view(out@) == rule_units_upto(ls, i as int, rule@),
            forall|k: int| 0 <= k < out@.len() ==> unit_wf(#[trigger] out@[k]@, lines@.len()),
            caps@.len() == lines@.len(),
            forall|q: int| 0 <= q < caps@.len() ==> captures_view(#[trigger] caps@[q]) == captures_of(rule.pattern@, lines@[q]@),
        decreases lines.len() - i,
    {
        let u = rule_unit_exec(lines, i, rule, &caps[i]);
        match u {
            Some(f) => {
                let ghost before = out@;
                out.push(f);
                assert(units_view(out@) =~= units_view(before) + seq![f@]);
            },
            None => {
                assert(opt_seq(rule_unit(ls, i as int, rule@)) =~= Seq::<UnitView>::empty());
                assert(units_view(out@) =~= units_view(out@) + Seq::<UnitView>::empty());
            },
        }
        i = i + 1;
    }
    out
}

} // verus!
