use vstd::prelude::*;

use crate::metrics::{
    issues_view, iv, lemma_prefix_all, lemma_prefix_step, metric_view, min_nat, Issue, IssueKind,
    IssueView, MetricKind, MetricResult, SCALE,
};
use crate::model::{span_of, units_view, BaseParseResult, Function, UnitView};
use crate::text::{
    chars_of, ends_with, ends_with_exec, is_numeric_char, is_uppercase_char, numeric_char,
    slice_copy, starts_with, starts_with_exec, string_of, uppercase_char, view_lines,
};

verus! {

// ---------------------------------------------------------------------------
// Signatures
// ---------------------------------------------------------------------------

/// The categorical fingerprint of a unit: size, complexity and parameter
/// buckets, exact line count, and the style of its name.
#[derive(Debug, Clone, Copy, PartialEq, Eq, Structural)]
pub struct FunctionPattern {
    /// 0 tiny (≤10 lines), 1 small (≤30), 2 medium (≤60), 3 large (≤100), 4 huge.
    pub size: u8,
    /// 0 trivial (≤3), 1 simple (≤7), 2 moderate (≤12), 3 complex (≤20), 4 very complex.
    pub complexity: u8,
    /// 0 none, 1 one, 2 few (≤3), 3 several (≤5), 4 many.
    pub params: u8,
    pub lines: u128,
    /// 0 for no known prefix, else 1 + the index of the prefix in `name_prefixes`.
    pub prefix: u8,
    /// 0 camel (an upper-case letter), 1 snake (an underscore), 2 flat.
    pub style: u8,
}

pub open spec fn size_bucket(n: nat) -> u8 {
    if n <= 10 {
        0
    } else if n <= 30 {
        1
    } else if n <= 60 {
        2
    } else if n <= 100 {
        3
    } else {
        4
    }
}

pub open spec fn complexity_bucket(c: nat) -> u8 {
    if c <= 3 {
        0
    } else if c <= 7 {
        1
    } else if c <= 12 {
        2
    } else if c <= 20 {
        3
    } else {
        4
    }
}

pub open spec fn param_bucket(p: nat) -> u8 {
    if p == 0 {
        0
    } else if p == 1 {
        1
    } else if p <= 3 {
        2
    } else if p <= 5 {
        3
    } else {
        4
    }
}

pub open spec fn name_prefixes() -> Seq<Seq<char>> {
    seq![
        "get"@,
        "set"@,
        "handle"@,
        "process"@,
        "check"@,
        "validate"@,
        "init"@,
        "create"@,
        "update"@,
        "delete"@,
    ]
}

/// 1 + the index of the first prefix from `k` on that `n` starts with; 0 for none.
pub open spec fn prefix_from(n: Seq<char>, k: int) -> u8
    decreases name_prefixes().len() - k,
{
    if k >= name_prefixes().len() || k < 0 {
        0
    } else if starts_with(n, name_prefixes()[k]) {
        (k + 1) as u8
    } else {
        prefix_from(n, k + 1)
    }
}

pub open spec fn has_upper(n: Seq<char>) -> bool {
    exists|i: int| 0 <= i < n.len() && uppercase_char(#[trigger] n[i])
}

pub open spec fn has_underscore(n: Seq<char>) -> bool {
    exists|i: int| 0 <= i < n.len() && #[trigger] n[i] == '_'
}

pub open spec fn name_style(n: Seq<char>) -> u8 {
    if has_upper(n) {
        0
    } else if has_underscore(n) {
        1
    } else {
        2
    }
}

pub open spec fn pattern_of(u: UnitView) -> FunctionPattern {
    FunctionPattern {
        size: size_bucket(span_of(u)),
        complexity: complexity_bucket(u.complexity),
        params: param_bucket(u.parameters),
        lines: span_of(u) as u128,
        prefix: prefix_from(u.name, 0),
        style: name_style(u.name),
    }
}

/// Similarity of the units that share a signature, in millionths: 0.2 (tiny or
/// small), 0.3 (medium) or 0.4 (larger) for size; 0.1 to 0.4 by complexity bucket;
/// 0.2 for a non-empty parameter list; 0.1 for more than 10 lines and 0.2 for more
/// than 20; capped at 1.
pub open spec fn similarity(p: FunctionPattern) -> nat {
    let by_size: nat = if p.size <= 1 {
        200_000
    } else if p.size == 2 {
        300_000
    } else {
        400_000
    };
    let by_complexity: nat = if p.complexity == 0 {
        100_000
    } else if p.complexity == 1 {
        200_000
    } else if p.complexity == 2 {
        300_000
    } else {
        400_000
    };
    let by_params: nat = if p.params != 0 {
        200_000
    } else {
        0
    };
    let by_lines: nat = if p.lines > 20 {
        200_000
    } else if p.lines > 10 {
        100_000
    } else {
        0
    };
    min_nat(by_size + by_complexity + by_params + by_lines, SCALE as nat)
}

pub const HIGHLY_SIMILAR: u64 = 700_000;

pub const MODERATELY_SIMILAR: u64 = 500_000;

fn prefix_index(n: &[char]) -> (r: u8)
    ensures
        r == prefix_from(n@, 0),
{
    let ps = vec!["get", "set", "handle", "process", "check", "validate", "init", "create", "update", "delete"];
    assert(ps@.map_values(|p: &str| p@) =~= name_prefixes());
    let mut k: usize = 0;
    while k < ps.len()
        invariant
            k <= ps.len(),
            ps.len() == 10,
            ps@.map_values(|p: &str| p@) == name_prefixes(),
            prefix_from(n@, k as int) == prefix_from(n@, 0),
        decreases ps.len() - k,
    {
        let p = chars_of(ps[k]);
        assert(p@ == name_prefixes()[k as int]);
        if starts_with_exec(n, p.as_slice()) {
            return (k + 1) as u8;
        }
        k = k + 1;
    }
    0
}

fn style_of(n: &[char]) -> (r: u8)
    ensures
        r == name_style(n@),
{
    let mut upper = false;
    let mut under = false;
    let mut i: usize = 0;
    while i < n.len()
        invariant
            i <= n.len(),
            upper == exists|k: int| 0 <= k < i && uppercase_char(#[trigger] n@[k]),
            under == exists|k: int| 0 <= k < i && #[trigger] n@[k] == '_',
        decreases n.len() - i,
    {
        if is_uppercase_char(n[i]) {
            upper = true;
        }
        if n[i] == '_' {
            under = true;
        }
        i = i + 1;
    }
    if upper {
        0
    } else if under {
        1
    } else {
        2
    }
}

/// The signature of a unit: see `pattern_of`.
pub fn extract_function_pattern(f: &Function) -> (r: FunctionPattern)
    ensures
        r == pattern_of(f@),
{
    let lines: u128 = if f.end_line >= f.start_line {
        (f.end_line - f.start_line) as u128 + 1
    } else {
        0
    };
    let size: u8 = if lines <= 10 {
        0
    } else if lines <= 30 {
        1
    } else if lines <= 60 {
        2
    } else if lines <= 100 {
        3
    } else {
        4
    };
    let c = f.complexity;
    let complexity: u8 = if c <= 3 {
        0
    } else if c <= 7 {
        1
    } else if c <= 12 {
        2
    } else if c <= 20 {
        3
    } else {
        4
    };
    let p = f.parameters;
    let params: u8 = if p == 0 {
        0
    } else if p == 1 {
        1
    } else if p <= 3 {
        2
    } else if p <= 5 {
        3
    } else {
        4
    };
    let name = chars_of(f.name.as_str());
    FunctionPattern {
        size,
        complexity,
        params,
        lines,
        prefix: prefix_index(name.as_slice()),
        style: style_of(name.as_slice()),
    }
}

/// Similarity of a signature: see `similarity`.
pub fn calculate_similarity_score(p: &FunctionPattern) -> (r: u64)
    ensures
        r == similarity(*p),
        r <= SCALE,
{
    let by_size: u64 = if p.size <= 1 {
        200_000
    } else if p.size == 2 {
        300_000
    } else {
        400_000
    };
    let by_complexity: u64 = if p.complexity == 0 {
        100_000
    } else if p.complexity == 1 {
        200_000
    } else if p.complexity == 2 {
        300_000
    } else {
        400_000
    };
    let by_params: u64 = if p.params != 0 {
        200_000
    } else {
        0
    };
    let by_lines: u64 = if p.lines > 20 {
        200_000
    } else if p.lines > 10 {
        100_000
    } else {
        0
    };
    let s = by_size + by_complexity + by_params + by_lines;
    if s > SCALE {
        SCALE
    } else {
        s
    }
}

// ---------------------------------------------------------------------------
// Base names
// ---------------------------------------------------------------------------

pub open spec fn strip_numeric(n: Seq<char>) -> Seq<char>
    decreases n.len(),
{
    if n.len() > 0 && numeric_char(n.last()) {
        strip_numeric(n.drop_last())
    } else {
        n
    }
}

pub open spec fn variant_suffixes() -> Seq<Seq<char>> {
    seq!["_v2"@, "_v3"@, "_new"@, "_old"@, "_temp"@, "_tmp"@, "_copy"@, "_backup"@]
}

pub open spec fn strip_suffix_from(b: Seq<char>, k: int) -> Seq<char>
    decreases variant_suffixes().len() - k,
{
    if k >= variant_suffixes().len() || k < 0 {
        b
    } else if ends_with(b, variant_suffixes()[k]) {
        b.subrange(0, b.len() - variant_suffixes()[k].len())
    } else {
        strip_suffix_from(b, k + 1)
    }
}

/// A name without one known variant suffix and then without trailing digits;
/// empty where fewer than 3 characters remain.
pub open spec fn base_of(n: Seq<char>) -> Seq<char> {
    let b = strip_numeric(strip_suffix_from(n, 0));
    if b.len() < 3 {
        Seq::empty()
    } else {
        b
    }
}

/// Whether the unit's name has a base name of 3 characters or more, by which it
/// is grouped.
pub open spec fn has_base(u: UnitView) -> bool {
    base_of(u.name).len() > 0
}

/// The base name of a unit name: see `base_of`.
pub fn get_base_name(n: &[char]) -> (r: Vec<char>)
    ensures
        r@ == base_of(n@),
{
    let sufs = vec!["_v2", "_v3", "_new", "_old", "_temp", "_tmp", "_copy", "_backup"];
    assert(sufs@.map_values(|p: &str| p@) =~= variant_suffixes());
    let mut k: usize = 0;
    let mut cut: usize = n.len();
    let mut found = false;
    while k < sufs.len() && !found
        invariant
            k <= sufs.len(),
            sufs.len() == 8,
            sufs@.map_values(|p: &str| p@) == variant_suffixes(),
            !found ==> cut == n.len() && strip_suffix_from(n@, k as int) == strip_suffix_from(n@, 0),
            found ==> cut <= n.len() && n@.subrange(0, cut as int) == strip_suffix_from(n@, 0),
        decreases sufs.len() - k + (if found { 0int } else { 1int }),
    {
        let s = chars_of(sufs[k]);
        assert(s@ == variant_suffixes()[k as int]);
        if ends_with_exec(n, s.as_slice()) {
            cut = n.len() - s.len();
            found = true;
        } else {
            k = k + 1;
        }
    }
    let b = slice_copy(n, 0, cut);
    proof {
        if !found {
            assert(b@ =~= n@);
        }
    }
    assert(b@ == strip_suffix_from(n@, 0));
    let mut end: usize = b.len();
    assert(b@.subrange(0, end as int) =~= b@);
    while end > 0 && is_numeric_char(b[end - 1])
        invariant
            end <= b.len(),
            strip_numeric(b@.subrange(0, end as int)) == strip_numeric(b@),
        decreases end,
    {
        assert(b@.subrange(0, end as int).drop_last() =~= b@.subrange(0, end - 1));
        end = end - 1;
    }
    let r = slice_copy(b.as_slice(), 0, end);
    assert(strip_numeric(r@) == r@);
    if r.len() < 3 {
        Vec::new()
    } else {
        r
    }
}

// ---------------------------------------------------------------------------
// Counts over units
// ---------------------------------------------------------------------------

pub open spec fn count_pattern(us: Seq<UnitView>, p: FunctionPattern) -> nat
    decreases us.len(),
{
    if us.len() == 0 {
        0
    } else {
        count_pattern(us.drop_last(), p) + if pattern_of(us.last()) == p {
            1nat
        } else {
            0nat
        }
    }
}

pub open spec fn count_base(us: Seq<UnitView>, b: Seq<char>) -> nat
    decreases us.len(),
{
    if us.len() == 0 {
        0
    } else {
        count_base(us.drop_last(), b) + if has_base(us.last()) && base_of(us.last().name) == b {
            1nat
        } else {
            0nat
        }
    }
}

pub open spec fn count_pair(us: Seq<UnitView>, params: nat, complexity: nat) -> nat
    decreases us.len(),
{
    if us.len() == 0 {
        0
    } else {
        count_pair(us.drop_last(), params, complexity) + if us.last().parameters == params
            && us.last().complexity == complexity {
            1nat
        } else {
            0nat
        }
    }
}

/// Twice what unit `i` adds to the group penalty: its group's similarity where that
/// is high, half of it where moderate, nothing where the unit is alone.
pub open spec fn similar_weight2(us: Seq<UnitView>, i: int) -> nat {
    let p = pattern_of(us[i]);
    if count_pattern(us, p) > 1 {
        if similarity(p) > HIGHLY_SIMILAR {
            2 * similarity(p)
        } else if similarity(p) > MODERATELY_SIMILAR {
            similarity(p)
        } else {
            0
        }
    } else {
        0
    }
}

/// The lines that unit `i` counts as duplicated: all of them where it belongs to a
/// highly similar group and is not the group's first unit.
pub open spec fn duplicated_lines_of(us: Seq<UnitView>, i: int) -> nat {
    let p = pattern_of(us[i]);
    if count_pattern(us, p) > 1 && similarity(p) > HIGHLY_SIMILAR && count_pattern(us.subrange(0, i), p) > 0 {
        span_of(us[i])
    } else {
        0
    }
}

/// Whether unit `i` has a base name shared by more than 2 units.
pub open spec fn in_naming_group(us: Seq<UnitView>, i: int) -> bool {
    has_base(us[i]) && count_base(us, base_of(us[i].name)) > 2
}

/// Whether another unit has the same parameter count and complexity as unit `i`.
pub open spec fn shares_pair(us: Seq<UnitView>, i: int) -> bool {
    count_pair(us, us[i].parameters, us[i].complexity) > 1
}

/// Sums over the first `n` units of `us`.
pub open spec fn sum_weight2(us: Seq<UnitView>, n: int) -> nat
    decreases n,
{
    if n <= 0 {
        0
    } else {
        sum_weight2(us, n - 1) + similar_weight2(us, n - 1)
    }
}

pub open spec fn sum_dup_lines(us: Seq<UnitView>, n: int) -> nat
    decreases n,
{
    if n <= 0 {
        0
    } else {
        sum_dup_lines(us, n - 1) + duplicated_lines_of(us, n - 1)
    }
}

pub open spec fn sum_spans(us: Seq<UnitView>, n: int) -> nat
    decreases n,
{
    if n <= 0 {
        0
    } else {
        sum_spans(us, n - 1) + span_of(us[n - 1])
    }
}

pub open spec fn naming_units(us: Seq<UnitView>, n: int) -> nat
    decreases n,
{
    if n <= 0 {
        0
    } else {
        naming_units(us, n - 1) + if in_naming_group(us, n - 1) {
            1nat
        } else {
            0nat
        }
    }
}

pub open spec fn pair_units(us: Seq<UnitView>, n: int) -> nat
    decreases n,
{
    if n <= 0 {
        0
    } else {
        pair_units(us, n - 1) + if shares_pair(us, n - 1) {
            1nat
        } else {
            0nat
        }
    }
}

// ---------------------------------------------------------------------------
// Issues
// ---------------------------------------------------------------------------

/// Whether `a` comes no later than `b` in the order of their characters' code
/// points (the order of `str`'s `Ord`).
pub open spec fn lex_le(a: Seq<char>, b: Seq<char>) -> bool
    decreases a.len(),
{
    if a.len() == 0 {
        true
    } else if b.len() == 0 {
        false
    } else if (a[0] as u32) < (b[0] as u32) {
        true
    } else if (a[0] as u32) > (b[0] as u32) {
        false
    } else {
        lex_le(a.drop_first(), b.drop_first())
    }
}

/// `x` placed in the sorted list `s` before the first name it does not follow.
pub open spec fn insert_sorted(x: Seq<char>, s: Seq<Seq<char>>) -> Seq<Seq<char>>
    decreases s.len(),
{
    if s.len() == 0 {
        seq![x]
    } else if lex_le(x, s[0]) {
        seq![x] + s
    } else {
        seq![s[0]] + insert_sorted(x, s.drop_first())
    }
}

/// The names `s`, sorted.
pub open spec fn sort_names(s: Seq<Seq<char>>) -> Seq<Seq<char>>
    decreases s.len(),
{
    if s.len() == 0 {
        seq![]
    } else {
        insert_sorted(s.last(), sort_names(s.drop_last()))
    }
}

/// The names `s`, separated by `, `.
pub open spec fn join_names(s: Seq<Seq<char>>) -> Seq<char>
    decreases s.len(),
{
    if s.len() == 0 {
        seq![]
    } else if s.len() == 1 {
        s[0]
    } else {
        join_names(s.drop_last()) + ", "@ + s.last()
    }
}

/// The names of the units with signature `p`, in order.
pub open spec fn names_with(us: Seq<UnitView>, p: FunctionPattern) -> Seq<Seq<char>>
    decreases us.len(),
{
    if us.len() == 0 {
        seq![]
    } else {
        names_with(us.drop_last(), p) + if pattern_of(us.last()) == p {
            seq![us.last().name]
        } else {
            Seq::<Seq<char>>::empty()
        }
    }
}

/// The members of the group with signature `p`: their names sorted and joined.
pub open spec fn group_members(us: Seq<UnitView>, p: FunctionPattern) -> Seq<char> {
    join_names(sort_names(names_with(us, p)))
}

/// The similarity issue raised at unit `i`, the first unit of a shared signature;
/// it names every unit of the group.
pub open spec fn similarity_issue_at(us: Seq<UnitView>, i: int) -> Seq<IssueView> {
    let p = pattern_of(us[i]);
    if count_pattern(us, p) > 1 && count_pattern(us.subrange(0, i), p) == 0 {
        if similarity(p) > HIGHLY_SIMILAR {
            seq![iv(IssueKind::DuplicateHighlySimilar, group_members(us, p), similarity(p), HIGHLY_SIMILAR as nat)]
        } else if similarity(p) > MODERATELY_SIMILAR {
            seq![iv(IssueKind::DuplicateSimilar, group_members(us, p), similarity(p), MODERATELY_SIMILAR as nat)]
        } else {
            seq![]
        }
    } else {
        seq![]
    }
}

/// The naming issue raised at unit `i`, the first unit of a base name shared by
/// more than 2.
pub open spec fn naming_issue_at(us: Seq<UnitView>, i: int) -> Seq<IssueView> {
    if in_naming_group(us, i) && count_base(us.subrange(0, i), base_of(us[i].name)) == 0 {
        seq![iv(IssueKind::DuplicateNamingPattern, base_of(us[i].name), count_base(us, base_of(us[i].name)), 2)]
    } else {
        seq![]
    }
}

pub open spec fn similarity_issues(us: Seq<UnitView>, n: int) -> Seq<IssueView>
    decreases n,
{
    if n <= 0 {
        seq![]
    } else {
        similarity_issues(us, n - 1) + similarity_issue_at(us, n - 1)
    }
}

pub open spec fn naming_issues(us: Seq<UnitView>, n: int) -> Seq<IssueView>
    decreases n,
{
    if n <= 0 {
        seq![]
    } else {
        naming_issues(us, n - 1) + naming_issue_at(us, n - 1)
    }
}

pub const PARAMETER_DUPLICATES: u64 = 3;

pub open spec fn duplication_issues(us: Seq<UnitView>) -> Seq<IssueView> {
    if us.len() < 2 {
        seq![]
    } else {
        let n = us.len() as int;
        similarity_issues(us, n) + naming_issues(us, n) + if pair_units(us, n) > PARAMETER_DUPLICATES {
            seq![iv(IssueKind::DuplicateParameterSignature, Seq::empty(), pair_units(us, n), PARAMETER_DUPLICATES as nat)]
        } else {
            seq![]
        }
    }
}

/// Twice the group penalty: similarity-weighted group contributions, 0.3 for
/// each unit in a naming group, and 0.2 for each unit sharing its parameter count
/// and complexity where there are more than 3 such units.
pub open spec fn penalty2(us: Seq<UnitView>) -> nat {
    let n = us.len() as int;
    sum_weight2(us, n) + 600_000 * naming_units(us, n) + if pair_units(us, n) > PARAMETER_DUPLICATES {
        400_000 * pair_units(us, n)
    } else {
        0
    }
}

/// `0.4 × duplicated lines / unit lines + 0.6 × min(1, penalty / unit count)`,
/// capped at 1; 0 with fewer than 2 units.
pub open spec fn duplication_score(us: Seq<UnitView>) -> nat {
    let n = us.len() as int;
    if n < 2 {
        0
    } else {
        let total = sum_spans(us, n);
        let line_part: nat = if total > 0 {
            ((400_000 * sum_dup_lines(us, n)) as int / (total as int)) as nat
        } else {
            0
        };
        let normalized = min_nat(((penalty2(us) as int) / (2 * n)) as nat, SCALE as nat);
        min_nat(line_part + 6 * normalized / 10, SCALE as nat)
    }
}

// ---------------------------------------------------------------------------
// Analysis
// ---------------------------------------------------------------------------

/// `a × m / c` rounded down, for `a ≤ c`, without forming `a × m`.
pub fn mul_div(a: u128, m: u64, c: u128) -> (r: u128)
    requires
        a <= c,
        c > 0,
    ensures
        r == (a * m) / (c as int),
{
    let mut q: u128 = 0;
    let mut rem: u128 = 0;
    let mut j: u64 = 0;
    while j < m
        invariant
            j <= m,
            a <= c,
            c > 0,
            rem < c,
            q <= j,
            q * c + rem == a * j,
        decreases m - j,
    {
        proof {
            assert(a * (j + 1) == a * j + a) by (nonlinear_arith);
            assert((q + 1) * c == q * c + c) by (nonlinear_arith);
        }
        if rem >= c - a {
            rem = rem - (c - a);
            q = q + 1;
        } else {
            rem = rem + a;
        }
        j = j + 1;
    }
    proof {
        vstd::arithmetic::div_mod::lemma_fundamental_div_mod_converse(
            (a * m) as int,
            c as int,
            q as int,
            rem as int,
        );
    }
    q
}

/// Units before position `m` with signature `p`.
fn count_pattern_upto(fs: &Vec<Function>, pats: &Vec<FunctionPattern>, p: FunctionPattern, m: usize) -> (r: usize)
    requires
        m <= fs.len(),
        pats.len() == fs.len(),
        forall|j: int| 0 <= j < fs.len() ==> pats@[j] == pattern_of(#[trigger] fs@[j]@),
    ensures
        r == count_pattern(units_view(fs@).subrange(0, m as int), p),
        r <= m,
{
    let ghost us = units_view(fs@);
    let mut c: usize = 0;
    let mut j: usize = 0;
    proof {
        lemma_prefix_all(fs@);
    }
    while j < m
        invariant
            j <= m <= fs.len(),
            pats.len() == fs.len(),
            us == units_view(fs@),
            forall|k: int| 0 <= k < fs.len() ==> pats@[k] == pattern_of(#[trigger] fs@[k]@),
            c == count_pattern(us.subrange(0, j as int), p),
            c <= j,
        decreases m - j,
    {
        proof {
            lemma_prefix_step(fs@, j as int);
            assert(pats@[j as int] == pattern_of(fs@[j as int]@));
        }
        if pats[j] == p {
            c = c + 1;
        }
        j = j + 1;
    }
    c
}

/// Units before position `m` whose variant name has base `b`.
fn count_base_upto(
    fs: &Vec<Function>,
    bases: &Vec<Vec<char>>,
    variant: &Vec<bool>,
    b: &Vec<char>,
    m: usize,
) -> (r: usize)
    requires
        m <= fs.len(),
        bases.len() == fs.len(),
        variant.len() == fs.len(),
        forall|j: int| 0 <= j < fs.len() ==> bases@[j]@ == base_of(#[trigger] fs@[j]@.name),
        forall|j: int| 0 <= j < fs.len() ==> variant@[j] == has_base(#[trigger] fs@[j]@),
    ensures
        r == count_base(units_view(fs@).subrange(0, m as int), b@),
        r <= m,
{
    let ghost us = units_view(fs@);
    let mut c: usize = 0;
    let mut j: usize = 0;
    proof {
        lemma_prefix_all(fs@);
    }
    while j < m
        invariant
            j <= m <= fs.len(),
            bases.len() == fs.len(),
            variant.len() == fs.len(),
            us == units_view(fs@),
            forall|k: int| 0 <= k < fs.len() ==> bases@[k]@ == base_of(#[trigger] fs@[k]@.name),
            forall|k: int| 0 <= k < fs.len() ==> variant@[k] == has_base(#[trigger] fs@[k]@),
            c == count_base(us.subrange(0, j as int), b@),
            c <= j,
        decreases m - j,
    {
        proof {
            lemma_prefix_step(fs@, j as int);
            assert(bases@[j as int]@ == base_of(fs@[j as int]@.name));
            assert(variant@[j as int] == has_base(fs@[j as int]@));
        }
        if variant[j] && crate::text::chars_eq(bases[j].as_slice(), b.as_slice()) {
            c = c + 1;
        }
        j = j + 1;
    }
    c
}

/// Units with the given parameter count and complexity.
fn count_pair_all(fs: &Vec<Function>, params: usize, complexity: usize) -> (r: usize)
    ensures
        r == count_pair(units_view(fs@), params as nat, complexity as nat),
        r <= fs.len(),
{
    let ghost us = units_view(fs@);
    let mut c: usize = 0;
    let mut j: usize = 0;
    proof {
        lemma_prefix_all(fs@);
    }
    while j < fs.len()
        invariant
            j <= fs.len(),
            us == units_view(fs@),
            c == count_pair(us.subrange(0, j as int), params as nat, complexity as nat),
            c <= j,
        decreases fs.len() - j,
    {
        proof {
            lemma_prefix_step(fs@, j as int);
        }
        if fs[j].parameters == params && fs[j].complexity == complexity {
            c = c + 1;
        }
        j = j + 1;
    }
    c
}

/// Whether `a` comes no later than `b`: see `lex_le`.
pub fn lex_le_exec(a: &[char], b: &[char]) -> (r: bool)
    ensures
        r == lex_le(a@, b@),
{
    let mut k: usize = 0;
    assert(a@.subrange(0, a@.len() as int) =~= a@);
    assert(b@.subrange(0, b@.len() as int) =~= b@);
    loop
        invariant
            k <= a.len(),
            k <= b.len(),
            lex_le(a@.subrange(k as int, a@.len() as int), b@.subrange(k as int, b@.len() as int)) == lex_le(a@, b@),
        decreases a.len() - k,
    {
        let ghost x = a@.subrange(k as int, a@.len() as int);
        let ghost y = b@.subrange(k as int, b@.len() as int);
        if k == a.len() {
            return true;
        }
        if k == b.len() {
            return false;
        }
        assert(x[0] == a@[k as int] && y[0] == b@[k as int]);
        if (a[k] as u32) < (b[k] as u32) {
            return true;
        }
        if (a[k] as u32) > (b[k] as u32) {
            return false;
        }
        assert(x.drop_first() =~= a@.subrange(k + 1, a@.len() as int));
        assert(y.drop_first() =~= b@.subrange(k + 1, b@.len() as int));
        k = k + 1;
    }
}

/// Places `x` in the sorted list `v`: see `insert_sorted`.
pub fn insert_sorted_exec(v: &mut Vec<Vec<char>>, x: Vec<char>)
    ensures
        view_lines(final(v)@) == insert_sorted(x@, view_lines(old(v)@)),
{
    let ghost s = view_lines(v@);
    let mut k: usize = 0;
    assert(s.subrange(0, 0) + s.subrange(0, s.len() as int) =~= s);
    while k < v.len() && !lex_le_exec(x.as_slice(), v[k].as_slice())
        invariant
            k <= v.len(),
            s == view_lines(v@),
            insert_sorted(x@, s) == s.subrange(0, k as int) + insert_sorted(x@, s.subrange(k as int, s.len() as int)),
        decreases v.len() - k,
    {
        let ghost rest = s.subrange(k as int, s.len() as int);
        assert(rest[0] == v@[k as int]@);
        assert(rest.drop_first() =~= s.subrange(k + 1, s.len() as int));
        assert(s.subrange(0, k + 1) =~= s.subrange(0, k as int) + seq![rest[0]]);
        k = k + 1;
    }
    let ghost rest = s.subrange(k as int, s.len() as int);
    if k < v.len() {
        assert(rest[0] == v@[k as int]@);
    }
    assert(insert_sorted(x@, rest) =~= seq![x@] + rest);
    let ghost xv = x@;
    v.insert(k, x);
    assert(view_lines(v@) =~= s.subrange(0, k as int) + (seq![xv] + rest));
}

/// The members of the group with signature `p`: see `group_members`.
fn group_members_exec(fs: &Vec<Function>, pats: &Vec<FunctionPattern>, p: FunctionPattern) -> (r: String)
    requires
        pats.len() == fs.len(),
        forall|j: int| 0 <= j < fs.len() ==> pats@[j] == pattern_of(#[trigger] fs@[j]@),
    ensures
        r@ == group_members(units_view(fs@), p),
{
    let ghost us = units_view(fs@);
    let mut sorted: Vec<Vec<char>> = Vec::new();
    let mut j: usize = 0;
    proof {
        lemma_prefix_all(fs@);
        assert(view_lines(sorted@) =~= Seq::<Seq<char>>::empty());
    }
    while j < fs.len()
        invariant
            j <= fs.len(),
            pats.len() == fs.len(),
            us == units_view(fs@),
            forall|q: int| 0 <= q < fs.len() ==> pats@[q] == pattern_of(#[trigger] fs@[q]@),
            view_lines(sorted@) == sort_names(names_with(us.subrange(0, j as int), p)),
        decreases fs.len() - j,
    {
        proof {
            lemma_prefix_step(fs@, j as int);
            assert(pats@[j as int] == pattern_of(fs@[j as int]@));
        }
        let ghost before = names_with(us.subrange(0, j as int), p);
        if pats[j] == p {
            let name = chars_of(fs[j].name.as_str());
            insert_sorted_exec(&mut sorted, name);
            assert((before + seq![fs@[j as int]@.name]).drop_last() =~= before);
        } else {
            assert(before + Seq::<Seq<char>>::empty() =~= before);
        }
        j = j + 1;
    }
    assert(us.subrange(0, fs.len() as int) =~= us);
    let ghost names = view_lines(sorted@);
    let comma = chars_of(", ");
    let mut out: Vec<char> = Vec::new();
    let mut k: usize = 0;
    assert(names.subrange(0, 0) =~= Seq::<Seq<char>>::empty());
    while k < sorted.len()
        invariant
            k <= sorted.len(),
            names == view_lines(sorted@),
            comma@ == ", "@,
            out@ == join_names(names.subrange(0, k as int)),
        decreases sorted.len() - k,
    {
        let ghost prev = out@;
        if k > 0 {
            let mut c: usize = 0;
            while c < comma.len()
                invariant
                    c <= comma.len(),
                    out@ == prev + comma@.subrange(0, c as int),
                decreases comma.len() - c,
            {
                out.push(comma[c]);
                assert(comma@.subrange(0, c + 1) =~= comma@.subrange(0, c as int).push(comma@[c as int]));
                c = c + 1;
            }
            assert(comma@.subrange(0, comma.len() as int) =~= comma@);
        }
        let ghost mid = out@;
        let name = &sorted[k];
        let mut c: usize = 0;
        while c < name.len()
            invariant
                c <= name.len(),
                out@ == mid + name@.subrange(0, c as int),
            decreases name.len() - c,
        {
            out.push(name[c]);
            assert(name@.subrange(0, c + 1) =~= name@.subrange(0, c as int).push(name@[c as int]));
            c = c + 1;
        }
        assert(name@.subrange(0, name.len() as int) =~= name@);
        proof {
            let pre = names.subrange(0, k + 1);
            assert(pre.drop_last() =~= names.subrange(0, k as int));
            assert(pre.last() == name@);
            if k == 0 {
                assert(pre.len() == 1);
                assert(out@ =~= pre[0]);
            } else {
                assert(out@ =~= join_names(names.subrange(0, k as int)) + ", "@ + name@);
            }
        }
        k = k + 1;
    }
    assert(names.subrange(0, sorted.len() as int) =~= names);
    string_of(out.as_slice())
}

pub struct CodeDuplicationMetric;

impl CodeDuplicationMetric {
    pub fn new() -> (r: CodeDuplicationMetric) {
        CodeDuplicationMetric
    }

    pub fn weight(&self) -> (r: u64)
        ensures
            r == crate::metrics::WEIGHT_DUPLICATION,
    {
        crate::metrics::WEIGHT_DUPLICATION
    }

    /// Scores duplicated structure: units grouped by signature, variant names of
    /// one base, and units sharing parameter count and complexity. See
    /// `duplication_score` and `duplication_issues`.
    pub fn analyze(&self, model: &BaseParseResult) -> (r: MetricResult)
        ensures
            r.score <= SCALE,
            r@ == metric_view(
                MetricKind::CodeDuplication,
                duplication_score(units_view(model.functions@)),
                duplication_issues(units_view(model.functions@)),
            ),
    {
        let fs = &model.functions;
        let ghost us = units_view(fs@);
        let n = fs.len();
        if n < 2 {
            let none: Vec<Issue> = Vec::new();
            proof {
                assert(issues_view(none@) =~= duplication_issues(us));
            }
            return crate::metrics::finish_result(MetricKind::CodeDuplication, 0, none);
        }
        // Signatures, spans and base names of every unit.
        let mut pats: Vec<FunctionPattern> = Vec::new();
        let mut bases: Vec<Vec<char>> = Vec::new();
        let mut variant: Vec<bool> = Vec::new();
        let mut k: usize = 0;
        while k < n
            invariant
                k <= n == fs.len(),
                us == units_view(fs@),
                pats.len() == k,
                bases.len() == k,
                variant.len() == k,
                forall|j: int| 0 <= j < k ==> pats@[j] == pattern_of(#[trigger] fs@[j]@),
                forall|j: int| 0 <= j < k ==> bases@[j]@ == base_of(#[trigger] fs@[j]@.name),
                forall|j: int| 0 <= j < k ==> variant@[j] == has_base(#[trigger] fs@[j]@),
            decreases n - k,
        {
            pats.push(extract_function_pattern(&fs[k]));
            let name = chars_of(fs[k].name.as_str());
            let b = get_base_name(name.as_slice());
            let v = b.len() > 0;
            bases.push(b);
            variant.push(v);
            k = k + 1;
        }
        let mut w2: u128 = 0;
        let mut dup_lines: u128 = 0;
        let mut total: u128 = 0;
        let mut in_naming: u128 = 0;
        let mut sharing: u128 = 0;
        let mut sim_issues: Vec<Issue> = Vec::new();
        let mut name_issues: Vec<Issue> = Vec::new();
        let mut i: usize = 0;
        while i < n
            invariant
                i <= n == fs.len(),
                n >= 2,
                us == units_view(fs@),
                pats.len() == n,
                bases.len() == n,
                variant.len() == n,
                forall|j: int| 0 <= j < n ==> pats@[j] == pattern_of(#[trigger] fs@[j]@),
                forall|j: int| 0 <= j < n ==> bases@[j]@ == base_of(#[trigger] fs@[j]@.name),
                forall|j: int| 0 <= j < n ==> variant@[j] == has_base(#[trigger] fs@[j]@),
                w2 == sum_weight2(us, i as int),
                w2 <= 2_000_000 * i,
                dup_lines == sum_dup_lines(us, i as int),
                total == sum_spans(us, i as int),
                dup_lines <= total,
                total <= i * 0x1_0000_0000_0000_0000,
                in_naming == naming_units(us, i as int),
                in_naming <= i,
                sharing == pair_units(us, i as int),
                sharing <= i,
                issues_view(sim_issues@) == similarity_issues(us, i as int),
                issues_view(name_issues@) == naming_issues(us, i as int),
            decreases n - i,
        {
            let f = &fs[i];
            let p = pats[i];
            assert(p == pattern_of(us[i as int]));
            let sim = calculate_similarity_score(&p);
            let in_group = count_pattern_upto(fs, &pats, p, n);
            let before = count_pattern_upto(fs, &pats, p, i);
            proof {
                assert(us.subrange(0, n as int) =~= us);
            }
            let span: u128 = if f.end_line >= f.start_line {
                (f.end_line - f.start_line) as u128 + 1
            } else {
                0
            };
            assert(span == span_of(us[i as int]));
            if in_group > 1 {
                if sim > HIGHLY_SIMILAR {
                    w2 = w2 + 2 * sim as u128;
                    if before > 0 {
                        dup_lines = dup_lines + span;
                    }
                } else if sim > MODERATELY_SIMILAR {
                    w2 = w2 + sim as u128;
                }
                if before == 0 && sim > MODERATELY_SIMILAR {
                    let members = group_members_exec(fs, &pats, p);
                    if sim > HIGHLY_SIMILAR {
                        crate::metrics::push_new_issue(&mut sim_issues, IssueKind::DuplicateHighlySimilar, &members, sim, HIGHLY_SIMILAR);
                    } else {
                        crate::metrics::push_new_issue(&mut sim_issues, IssueKind::DuplicateSimilar, &members, sim, MODERATELY_SIMILAR);
                    }
                }
            }
            proof {
                assert(issues_view(sim_issues@) =~= similarity_issues(us, i as int) + similarity_issue_at(us, i as int));
                assert(span <= 0x1_0000_0000_0000_0000);
            }
            total = total + span;
            // Variant names.
            let variant_here = variant[i];
            assert(variant_here == has_base(us[i as int]));
            assert(bases@[i as int]@ == base_of(us[i as int].name));
            let ghost prev_names = issues_view(name_issues@);
            if variant_here {
                let b = &bases[i];
                let with_base = count_base_upto(fs, &bases, &variant, b, n);
                if with_base > 2 {
                    in_naming = in_naming + 1;
                    let earlier = count_base_upto(fs, &bases, &variant, b, i);
                    if earlier == 0 {
                        let subject = string_of(b.as_slice());
                        crate::metrics::push_new_issue(
                            &mut name_issues,
                            IssueKind::DuplicateNamingPattern,
                            &subject,
                            with_base as u64,
                            2,
                        );
                    }
                }
            }
            proof {
                assert(issues_view(name_issues@) =~= prev_names + naming_issue_at(us, i as int));
            }
            // Shared parameter count and complexity.
            if count_pair_all(fs, f.parameters, f.complexity) > 1 {
                sharing = sharing + 1;
            }
            i = i + 1;
        }
        let mut issues = sim_issues;
        let mut j: usize = 0;
        let ghost first = issues_view(issues@);
        while j < name_issues.len()
            invariant
                j <= name_issues.len(),
                issues_view(issues@) == first + issues_view(name_issues@).subrange(0, j as int),
            decreases name_issues.len() - j,
        {
            let ghost before = issues_view(issues@);
            crate::metrics::push_cloned(&mut issues, &name_issues[j]);
            assert(issues_view(name_issues@).subrange(0, j + 1) =~= issues_view(name_issues@).subrange(0, j as int).push(name_issues@[j as int]@));
            j = j + 1;
        }
        assert(issues_view(name_issues@).subrange(0, name_issues.len() as int) =~= issues_view(name_issues@));
        if sharing > PARAMETER_DUPLICATES as u128 {
            let empty = String::new();
            assert(empty@ =~= Seq::<char>::empty());
            crate::metrics::push_new_issue(&mut issues, IssueKind::DuplicateParameterSignature, &empty, sharing as u64, PARAMETER_DUPLICATES);
        }
        proof {
            assert(issues_view(issues@) =~= duplication_issues(us));
        }
        let penalty: u128 = w2 + 600_000 * in_naming + if sharing > PARAMETER_DUPLICATES as u128 {
            400_000 * sharing
        } else {
            0
        };
        let nn = n as u128;
        let normalized: u128 = if penalty / (2 * nn) > SCALE as u128 {
            SCALE as u128
        } else {
            penalty / (2 * nn)
        };
        let line_part: u128 = if total > 0 {
            mul_div(dup_lines, 400_000, total)
        } else {
            0
        };
        proof {
            if total > 0 {
                let (d, t) = (dup_lines as int, total as int);
                assert(400_000 * d / t <= 400_000) by (nonlinear_arith)
                    requires 0 <= d <= t, t > 0;
            }
        }
        let s = line_part + 6 * normalized / 10;
        let score: u64 = if s > SCALE as u128 {
            SCALE
        } else {
            s as u64
        };
        crate::metrics::finish_result(MetricKind::CodeDuplication, score, issues)
    }
}

} // verus!
