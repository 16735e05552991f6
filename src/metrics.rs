use vstd::prelude::*;

use crate::language::LanguageType;
use crate::model::{span_of, units_view, BaseParseResult, Function, UnitView};
use crate::text::{chars_of, contains, contains_exec};

verus! {

/// Scores are fixed-point fractions of `SCALE`: `SCALE` stands for 1.0.
pub const SCALE: u64 = 1_000_000;

/// Weights are in hundredths.
pub const WEIGHT_COMPLEXITY: u64 = 30;

pub const WEIGHT_LENGTH: u64 = 20;

pub const WEIGHT_COMMENTS: u64 = 15;

pub const WEIGHT_ERRORS: u64 = 10;

pub const WEIGHT_NAMING: u64 = 8;

pub const WEIGHT_DUPLICATION: u64 = 15;

pub const WEIGHT_STRUCTURE: u64 = 15;

/// The seven quality measures.
#[derive(Debug, Clone, Copy, PartialEq, Eq, Structural)]
pub enum MetricKind {
    CyclomaticComplexity,
    FunctionLength,
    CommentRatio,
    ErrorHandling,
    NamingConvention,
    CodeDuplication,
    StructureAnalysis,
}

/// What an issue reports.
#[derive(Debug, Clone, Copy, PartialEq, Eq, Structural)]
pub enum IssueKind {
    ComplexityVeryHigh,
    ComplexityHigh,
    LengthExtreme,
    LengthVeryLong,
    LengthLong,
    LengthComplexitySevere,
    LengthComplexityHigh,
    ParametersExtreme,
    ParametersMany,
    CommentsExtremelyLow,
    CommentsLow,
    ErrorHandlingMissing,
    ErrorHandlingWeak,
    BadName,
    DuplicateHighlySimilar,
    DuplicateSimilar,
    DuplicateNamingPattern,
    DuplicateParameterSignature,
    NestingVeryDeep,
    NestingDeep,
}

/// A language-neutral finding: what was found, about which unit (or group), the
/// value observed and the threshold it crossed.
#[derive(Debug, Clone)]
pub struct Issue {
    pub kind: IssueKind,
    pub subject: String,
    pub observed: u64,
    pub threshold: u64,
}

pub struct IssueView {
    pub kind: IssueKind,
    pub subject: Seq<char>,
    pub observed: nat,
    pub threshold: nat,
}

impl View for Issue {
    type V = IssueView;

    open spec fn view(&self) -> IssueView {
        IssueView {
            kind: self.kind,
            subject: self.subject@,
            observed: self.observed as nat,
            threshold: self.threshold as nat,
        }
    }
}

pub open spec fn issues_view(v: Seq<Issue>) -> Seq<IssueView> {
    v.map_values(|i: Issue| i@)
}

/// The result of one metric on one file (or, averaged, on a project). `score` is a
/// badness in `0..=SCALE`.
#[derive(Debug, Clone)]
pub struct MetricResult {
    pub kind: MetricKind,
    pub score: u64,
    pub weight: u64,
    pub description: String,
    pub issues: Vec<Issue>,
}

pub struct MetricView {
    pub kind: MetricKind,
    pub score: nat,
    pub weight: nat,
    pub description: Seq<char>,
    pub issues: Seq<IssueView>,
}

impl View for MetricResult {
    type V = MetricView;

    open spec fn view(&self) -> MetricView {
        MetricView {
            kind: self.kind,
            score: self.score as nat,
            weight: self.weight as nat,
            description: self.description@,
            issues: issues_view(self.issues@),
        }
    }
}

pub open spec fn min_nat(a: nat, b: nat) -> nat {
    if a <= b {
        a
    } else {
        b
    }
}

pub open spec fn weight_of(k: MetricKind) -> nat {
    match k {
        MetricKind::CyclomaticComplexity => WEIGHT_COMPLEXITY as nat,
        MetricKind::FunctionLength => WEIGHT_LENGTH as nat,
        MetricKind::CommentRatio => WEIGHT_COMMENTS as nat,
        MetricKind::ErrorHandling => WEIGHT_ERRORS as nat,
        MetricKind::NamingConvention => WEIGHT_NAMING as nat,
        MetricKind::CodeDuplication => WEIGHT_DUPLICATION as nat,
        MetricKind::StructureAnalysis => WEIGHT_STRUCTURE as nat,
    }
}

pub open spec fn description_of(k: MetricKind) -> Seq<char> {
    match k {
        MetricKind::CyclomaticComplexity => "Control-flow complexity of functions"@,
        MetricKind::FunctionLength => "Length and parameter count of functions"@,
        MetricKind::CommentRatio => "Share of comment lines"@,
        MetricKind::ErrorHandling => "Error handling where errors can arise"@,
        MetricKind::NamingConvention => "Quality of function names"@,
        MetricKind::CodeDuplication => "Duplicated function structure"@,
        MetricKind::StructureAnalysis => "Estimated nesting depth"@,
    }
}

pub fn weight_for(k: MetricKind) -> (r: u64)
    ensures
        r == weight_of(k),
        r > 0,
{
    match k {
        MetricKind::CyclomaticComplexity => WEIGHT_COMPLEXITY,
        MetricKind::FunctionLength => WEIGHT_LENGTH,
        MetricKind::CommentRatio => WEIGHT_COMMENTS,
        MetricKind::ErrorHandling => WEIGHT_ERRORS,
        MetricKind::NamingConvention => WEIGHT_NAMING,
        MetricKind::CodeDuplication => WEIGHT_DUPLICATION,
        MetricKind::StructureAnalysis => WEIGHT_STRUCTURE,
    }
}

pub fn description_for(k: MetricKind) -> (r: String)
    ensures
        r@ == description_of(k),
{
    let s = match k {
        MetricKind::CyclomaticComplexity => "Control-flow complexity of functions",
        MetricKind::FunctionLength => "Length and parameter count of functions",
        MetricKind::CommentRatio => "Share of comment lines",
        MetricKind::ErrorHandling => "Error handling where errors can arise",
        MetricKind::NamingConvention => "Quality of function names",
        MetricKind::CodeDuplication => "Duplicated function structure",
        MetricKind::StructureAnalysis => "Estimated nesting depth",
    };
    s.to_string()
}

impl MetricResult {
    /// A result with its score clamped to `0..=SCALE`.
    pub fn new(kind: MetricKind, score: u64, weight: u64, description: String, issues: Vec<Issue>) -> (r: MetricResult)
        ensures
            r@ == (MetricView {
                kind,
                score: min_nat(score as nat, SCALE as nat),
                weight: weight as nat,
                description: description@,
                issues: issues_view(issues@),
            }),
    {
        let score = if score > SCALE {
            SCALE
        } else {
            score
        };
        MetricResult { kind, score, weight, description, issues }
    }

    /// The score times the weight.
    pub fn weighted_score(&self) -> (r: u128)
        ensures
            r == self.score * self.weight,
    {
        let a = self.score as u128;
        let b = self.weight as u128;
        proof {
            let x = a as int;
            let y = b as int;
            assert(x * y <= 0xffff_ffff_ffff_ffff * 0xffff_ffff_ffff_ffff) by (nonlinear_arith)
                requires 0 <= x <= 0xffff_ffff_ffff_ffff, 0 <= y <= 0xffff_ffff_ffff_ffff;
        }
        a * b
    }
}

/// The result that a metric of kind `k` gives, with score `score` and issues
/// `issues`.
pub open spec fn metric_view(k: MetricKind, score: nat, issues: Seq<IssueView>) -> MetricView {
    MetricView { kind: k, score, weight: weight_of(k), description: description_of(k), issues }
}

fn finish(k: MetricKind, score: u64, issues: Vec<Issue>) -> (r: MetricResult)
    requires
        score <= SCALE,
    ensures
        r@ == metric_view(k, score as nat, issues_view(issues@)),
        r.score <= SCALE,
{
    MetricResult { kind: k, score, weight: weight_for(k), description: description_for(k), issues }
}

/// The kind at position `k` of a file's metric list.
pub(crate) fn kind_for_index(k: usize) -> (r: MetricKind)
    requires
        k < 7,
    ensures
        r == crate::analysis::kind_at(k as int),
{
    if k == 0 {
        MetricKind::CyclomaticComplexity
    } else if k == 1 {
        MetricKind::FunctionLength
    } else if k == 2 {
        MetricKind::CommentRatio
    } else if k == 3 {
        MetricKind::ErrorHandling
    } else if k == 4 {
        MetricKind::NamingConvention
    } else if k == 5 {
        MetricKind::CodeDuplication
    } else {
        MetricKind::StructureAnalysis
    }
}

pub(crate) fn finish_result(k: MetricKind, score: u64, issues: Vec<Issue>) -> (r: MetricResult)
    requires
        score <= SCALE,
    ensures
        r@ == metric_view(k, score as nat, issues_view(issues@)),
        r.score <= SCALE,
{
    finish(k, score, issues)
}

pub(crate) fn push_new_issue(v: &mut Vec<Issue>, kind: IssueKind, subject: &String, observed: u64, threshold: u64)
    ensures
        issues_view(final(v)@) == issues_view(old(v)@).push(
            IssueView { kind, subject: subject@, observed: observed as nat, threshold: threshold as nat },
        ),
{
    push_issue(v, issue(kind, subject, observed, threshold));
}

pub(crate) fn push_cloned(v: &mut Vec<Issue>, i: &Issue)
    ensures
        issues_view(final(v)@) == issues_view(old(v)@).push(i@),
{
    push_issue(v, issue(i.kind, &i.subject, i.observed, i.threshold));
}

fn issue(kind: IssueKind, subject: &String, observed: u64, threshold: u64) -> (r: Issue)
    ensures
        r@ == (IssueView { kind, subject: subject@, observed: observed as nat, threshold: threshold as nat }),
{
    Issue { kind, subject: subject.clone(), observed, threshold }
}

fn push_issue(v: &mut Vec<Issue>, i: Issue)
    ensures
        issues_view(final(v)@) == issues_view(old(v)@).push(i@),
{
    let ghost before = v@;
    v.push(i);
    assert(issues_view(v@) =~= issues_view(before).push(i@));
}

/// `x` as a `u64`, or the largest `u64`.
pub open spec fn clamp64(x: nat) -> nat {
    if x > u64::MAX {
        u64::MAX as nat
    } else {
        x
    }
}

fn to_u64(x: usize) -> (r: u64)
    ensures
        r == clamp64(x as nat),
{
    if x as u128 > u64::MAX as u128 {
        u64::MAX
    } else {
        x as u64
    }
}

pub open spec fn iv(kind: IssueKind, subject: Seq<char>, observed: nat, threshold: nat) -> IssueView {
    IssueView { kind, subject, observed: clamp64(observed), threshold }
}

// ---------------------------------------------------------------------------
// Sums over units
// ---------------------------------------------------------------------------

pub open spec fn sum_complexity(us: Seq<UnitView>) -> nat
    decreases us.len(),
{
    if us.len() == 0 {
        0
    } else {
        sum_complexity(us.drop_last()) + us.last().complexity
    }
}

pub proof fn lemma_prefix_step(fs: Seq<Function>, i: int)
    requires
        0 <= i < fs.len(),
    ensures
        units_view(fs).subrange(0, i + 1).drop_last() == units_view(fs).subrange(0, i),
        units_view(fs).subrange(0, i + 1).last() == fs[i]@,
{
    assert(units_view(fs).subrange(0, i + 1).drop_last() =~= units_view(fs).subrange(0, i));
}

pub proof fn lemma_prefix_all(fs: Seq<Function>)
    ensures
        units_view(fs).subrange(0, fs.len() as int) == units_view(fs),
        units_view(fs).subrange(0, 0) == Seq::<UnitView>::empty(),
{
    assert(units_view(fs).subrange(0, fs.len() as int) =~= units_view(fs));
    assert(units_view(fs).subrange(0, 0) =~= Seq::<UnitView>::empty());
}

// ---------------------------------------------------------------------------
// Cyclomatic complexity
// ---------------------------------------------------------------------------

pub const COMPLEXITY_HIGH: u64 = 10;

pub const COMPLEXITY_VERY_HIGH: u64 = 15;

pub open spec fn complexity_issues_of(u: UnitView) -> Seq<IssueView> {
    if u.complexity > COMPLEXITY_VERY_HIGH {
        seq![iv(IssueKind::ComplexityVeryHigh, u.name, u.complexity, COMPLEXITY_VERY_HIGH as nat)]
    } else if u.complexity > COMPLEXITY_HIGH {
        seq![iv(IssueKind::ComplexityHigh, u.name, u.complexity, COMPLEXITY_HIGH as nat)]
    } else {
        seq![]
    }
}

pub open spec fn complexity_issues(us: Seq<UnitView>) -> Seq<IssueView>
    decreases us.len(),
{
    if us.len() == 0 {
        seq![]
    } else {
        complexity_issues(us.drop_last()) + complexity_issues_of(us.last())
    }
}

/// `0.4 + 0.1 × average complexity`, capped at 1; 0.4 with no units.
pub open spec fn complexity_score(us: Seq<UnitView>) -> nat {
    if us.len() == 0 {
        400_000
    } else {
        min_nat((400_000 + 100_000 * sum_complexity(us) / us.len()) as nat, SCALE as nat)
    }
}

pub struct CyclomaticComplexityMetric;

impl CyclomaticComplexityMetric {
    pub fn new() -> (r: CyclomaticComplexityMetric) {
        CyclomaticComplexityMetric
    }

    pub fn weight(&self) -> (r: u64)
        ensures
            r == WEIGHT_COMPLEXITY,
    {
        WEIGHT_COMPLEXITY
    }

    /// Scores the average unit complexity and flags each unit above 10 (high) or
    /// 15 (very high).
    pub fn analyze(&self, model: &BaseParseResult) -> (r: MetricResult)
        ensures
            r.score <= SCALE,
            r@ == metric_view(
                MetricKind::CyclomaticComplexity,
                complexity_score(units_view(model.functions@)),
                complexity_issues(units_view(model.functions@)),
            ),
    {
        let fs = &model.functions;
        let ghost us = units_view(fs@);
        let mut total: u128 = 0;
        let mut issues: Vec<Issue> = Vec::new();
        let mut i: usize = 0;
        proof {
            lemma_prefix_all(fs@);
        }
        while i < fs.len()
            invariant
                i <= fs.len(),
                us == units_view(fs@),
                total == sum_complexity(us.subrange(0, i as int)),
                total <= i * (usize::MAX as nat),
                issues_view(issues@) == complexity_issues(us.subrange(0, i as int)),
            decreases fs.len() - i,
        {
            proof {
                lemma_prefix_step(fs@, i as int);
            }
            let f = &fs[i];
            proof {
                let t = total as int;
                let k = i as int;
                let c = f.complexity as int;
                let m = usize::MAX as int;
                assert(t + c <= (k + 1) * m && (k + 1) * m <= m * m) by (nonlinear_arith)
                    requires t <= k * m, 0 <= c <= m, 0 <= k < m;
                assert(m <= 0xffff_ffff_ffff_ffff);
                assert(m * m <= 0xffff_ffff_ffff_ffff * 0xffff_ffff_ffff_ffff) by (nonlinear_arith)
                    requires 0 <= m <= 0xffff_ffff_ffff_ffff;
            }
            total = total + f.complexity as u128;
            if f.complexity as u64 > COMPLEXITY_VERY_HIGH {
                push_issue(&mut issues, issue(IssueKind::ComplexityVeryHigh, &f.name, to_u64(f.complexity), COMPLEXITY_VERY_HIGH));
            } else if f.complexity as u64 > COMPLEXITY_HIGH {
                push_issue(&mut issues, issue(IssueKind::ComplexityHigh, &f.name, to_u64(f.complexity), COMPLEXITY_HIGH));
            }
            proof {
                let u = fs@[i as int]@;
                assert(issues_view(issues@) =~= complexity_issues(us.subrange(0, i as int)) + complexity_issues_of(u));
            }
            i = i + 1;
        }
        let n = fs.len() as u128;
        let score: u64 = if n == 0 {
            400_000
        } else if total >= 6 * n {
            proof {
                let t = total as int;
                let m = n as int;
                assert(100_000 * t / m >= 600_000) by (nonlinear_arith)
                    requires t >= 6 * m, m > 0;
            }
            SCALE
        } else {
            proof {
                let t = total as int;
                let m = n as int;
                assert(100_000 * t / m < 600_000) by (nonlinear_arith)
                    requires t < 6 * m, m > 0;
            }
            (400_000 + 100_000 * total / n) as u64
        };
        finish(MetricKind::CyclomaticComplexity, score, issues)
    }
}

// ---------------------------------------------------------------------------
// Function length
// ---------------------------------------------------------------------------

pub const LENGTH_LONG: u64 = 40;

pub const LENGTH_VERY_LONG: u64 = 70;

pub const LENGTH_EXTREME: u64 = 120;

pub const LENGTH_COMPLEXITY_HIGH: u64 = 12;

pub const LENGTH_COMPLEXITY_SEVERE: u64 = 18;

pub const PARAMS_MANY: u64 = 6;

pub const PARAMS_EXTREME: u64 = 8;

pub open spec fn length_issues_of(u: UnitView) -> Seq<IssueView> {
    let n = span_of(u);
    let by_length = if n > LENGTH_EXTREME {
        seq![iv(IssueKind::LengthExtreme, u.name, n, LENGTH_EXTREME as nat)]
    } else if n > LENGTH_VERY_LONG {
        seq![iv(IssueKind::LengthVeryLong, u.name, n, LENGTH_VERY_LONG as nat)]
    } else if n > LENGTH_LONG {
        seq![iv(IssueKind::LengthLong, u.name, n, LENGTH_LONG as nat)]
    } else {
        seq![]
    };
    let by_complexity = if u.complexity > LENGTH_COMPLEXITY_SEVERE {
        seq![iv(IssueKind::LengthComplexitySevere, u.name, u.complexity, LENGTH_COMPLEXITY_SEVERE as nat)]
    } else if u.complexity > LENGTH_COMPLEXITY_HIGH {
        seq![iv(IssueKind::LengthComplexityHigh, u.name, u.complexity, LENGTH_COMPLEXITY_HIGH as nat)]
    } else {
        seq![]
    };
    let by_params = if u.parameters > PARAMS_EXTREME {
        seq![iv(IssueKind::ParametersExtreme, u.name, u.parameters, PARAMS_EXTREME as nat)]
    } else if u.parameters > PARAMS_MANY {
        seq![iv(IssueKind::ParametersMany, u.name, u.parameters, PARAMS_MANY as nat)]
    } else {
        seq![]
    };
    by_length + by_complexity + by_params
}

pub open spec fn length_issues(us: Seq<UnitView>) -> Seq<IssueView>
    decreases us.len(),
{
    if us.len() == 0 {
        seq![]
    } else {
        length_issues(us.drop_last()) + length_issues_of(us.last())
    }
}

/// Units whose span lies in `lo + 1 ..= hi`.
pub open spec fn count_spans(us: Seq<UnitView>, lo: nat, hi: nat) -> nat
    decreases us.len(),
{
    if us.len() == 0 {
        0
    } else {
        count_spans(us.drop_last(), lo, hi) + if lo < span_of(us.last()) <= hi {
            1nat
        } else {
            0nat
        }
    }
}

/// `0.3 r40 + 0.5 r70 + 0.8 r120`, where `rN` is the share of units longer than
/// `N` lines (and no longer than the next bound), capped at 1; 0 with no units.
pub open spec fn length_score(us: Seq<UnitView>) -> nat {
    if us.len() == 0 {
        0
    } else {
        min_nat(
            ((300_000 * count_spans(us, 40, 70) + 500_000 * count_spans(us, 70, 120) + 800_000
                * count_spans(us, 120, usize::MAX as nat + 1)) / us.len()) as nat,
            SCALE as nat,
        )
    }
}

pub struct FunctionLengthMetric;

fn span_exec(f: &Function) -> (r: u128)
    ensures
        r == span_of(f@),
{
    if f.end_line >= f.start_line {
        (f.end_line - f.start_line) as u128 + 1
    } else {
        0
    }
}

fn to_u64_wide(x: u128) -> (r: u64)
    ensures
        r == clamp64(x as nat),
{
    if x > u64::MAX as u128 {
        u64::MAX
    } else {
        x as u64
    }
}

impl FunctionLengthMetric {
    pub fn new() -> (r: FunctionLengthMetric) {
        FunctionLengthMetric
    }

    pub fn weight(&self) -> (r: u64)
        ensures
            r == WEIGHT_LENGTH,
    {
        WEIGHT_LENGTH
    }

    /// Scores the shares of long units; flags long units, complex units and long
    /// parameter lists. No units score 0.
    pub fn analyze(&self, model: &BaseParseResult) -> (r: MetricResult)
        ensures
            r.score <= SCALE,
            r@ == metric_view(
                MetricKind::FunctionLength,
                length_score(units_view(model.functions@)),
                length_issues(units_view(model.functions@)),
            ),
    {
        let fs = &model.functions;
        let ghost us = units_view(fs@);
        let mut long: u128 = 0;
        let mut very: u128 = 0;
        let mut extreme: u128 = 0;
        let mut issues: Vec<Issue> = Vec::new();
        let mut i: usize = 0;
        proof {
            lemma_prefix_all(fs@);
        }
        while i < fs.len()
            invariant
                i <= fs.len(),
                us == units_view(fs@),
                long == count_spans(us.subrange(0, i as int), 40, 70),
                very == count_spans(us.subrange(0, i as int), 70, 120),
                extreme == count_spans(us.subrange(0, i as int), 120, usize::MAX as nat + 1),
                long <= i && very <= i && extreme <= i,
                issues_view(issues@) == length_issues(us.subrange(0, i as int)),
            decreases fs.len() - i,
        {
            proof {
                lemma_prefix_step(fs@, i as int);
            }
            let f = &fs[i];
            let n = span_exec(f);
            let ghost before = issues_view(issues@);
            if n > LENGTH_EXTREME as u128 {
                push_issue(&mut issues, issue(IssueKind::LengthExtreme, &f.name, to_u64_wide(n), LENGTH_EXTREME));
                extreme = extreme + 1;
            } else if n > LENGTH_VERY_LONG as u128 {
                push_issue(&mut issues, issue(IssueKind::LengthVeryLong, &f.name, to_u64_wide(n), LENGTH_VERY_LONG));
                very = very + 1;
            } else if n > LENGTH_LONG as u128 {
                push_issue(&mut issues, issue(IssueKind::LengthLong, &f.name, to_u64_wide(n), LENGTH_LONG));
                long = long + 1;
            }
            let ghost mid1 = issues_view(issues@);
            if f.complexity as u128 > LENGTH_COMPLEXITY_SEVERE as u128 {
                push_issue(&mut issues, issue(IssueKind::LengthComplexitySevere, &f.name, to_u64(f.complexity), LENGTH_COMPLEXITY_SEVERE));
            } else if f.complexity as u128 > LENGTH_COMPLEXITY_HIGH as u128 {
                push_issue(&mut issues, issue(IssueKind::LengthComplexityHigh, &f.name, to_u64(f.complexity), LENGTH_COMPLEXITY_HIGH));
            }
            let ghost mid2 = issues_view(issues@);
            if f.parameters as u128 > PARAMS_EXTREME as u128 {
                push_issue(&mut issues, issue(IssueKind::ParametersExtreme, &f.name, to_u64(f.parameters), PARAMS_EXTREME));
            } else if f.parameters as u128 > PARAMS_MANY as u128 {
                push_issue(&mut issues, issue(IssueKind::ParametersMany, &f.name, to_u64(f.parameters), PARAMS_MANY));
            }
            proof {
                let u = fs@[i as int]@;
                assert(span_of(u) <= usize::MAX as nat + 1);
                assert(issues_view(issues@) =~= before + length_issues_of(u));
            }
            i = i + 1;
        }
        let n = fs.len() as u128;
        let score: u64 = if n == 0 {
            0
        } else {
            proof {
                let (a, b, c, m) = (long as int, very as int, extreme as int, n as int);
                assert(300_000 * a + 500_000 * b + 800_000 * c <= 1_600_000 * m) by (nonlinear_arith)
                    requires 0 <= a <= m, 0 <= b <= m, 0 <= c <= m;
                assert(m <= 0xffff_ffff_ffff_ffff);
            }
            let x = (300_000 * long + 500_000 * very + 800_000 * extreme) / n;
            if x > SCALE as u128 {
                SCALE
            } else {
                x as u64
            }
        };
        finish(MetricKind::FunctionLength, score, issues)
    }
}

// ---------------------------------------------------------------------------
// Comment ratio
// ---------------------------------------------------------------------------

/// `0.9 − 5 × (100 × ratio)`, floored at 0, where `ratio` is comment lines over
/// total lines (0 for an empty file): fewer comments score worse.
pub open spec fn comment_score(c: nat, t: nat) -> nat {
    if t == 0 {
        900_000
    } else if 500_000_000 * c >= 900_000 * t {
        0
    } else {
        ((900_000 * t - 500_000_000 * c) / (t as int)) as nat
    }
}

/// The comment ratio in hundredths of a percent.
pub open spec fn ratio_bp(c: nat, t: nat) -> nat {
    if t == 0 {
        0
    } else {
        10_000 * c / t
    }
}

pub const COMMENTS_EXTREMELY_LOW_BP: u64 = 500;

pub const COMMENTS_LOW_BP: u64 = 1000;

pub open spec fn comment_issues(c: nat, t: nat) -> Seq<IssueView> {
    if t == 0 || 20 * c < t {
        seq![iv(IssueKind::CommentsExtremelyLow, Seq::empty(), ratio_bp(c, t), COMMENTS_EXTREMELY_LOW_BP as nat)]
    } else if 10 * c < t {
        seq![iv(IssueKind::CommentsLow, Seq::empty(), ratio_bp(c, t), COMMENTS_LOW_BP as nat)]
    } else {
        seq![]
    }
}

pub struct CommentRatioMetric;

impl CommentRatioMetric {
    pub fn new() -> (r: CommentRatioMetric) {
        CommentRatioMetric
    }

    pub fn weight(&self) -> (r: u64)
        ensures
            r == WEIGHT_COMMENTS,
    {
        WEIGHT_COMMENTS
    }

    /// Scores the share of comment lines; flags a share under 5% (extremely low)
    /// or under 10% (low).
    pub fn analyze(&self, model: &BaseParseResult) -> (r: MetricResult)
        ensures
            r.score <= SCALE,
            r@ == metric_view(
                MetricKind::CommentRatio,
                comment_score(model.comment_lines as nat, model.total_lines as nat),
                comment_issues(model.comment_lines as nat, model.total_lines as nat),
            ),
    {
        let c = model.comment_lines as u128;
        let t = model.total_lines as u128;
        proof {
            assert(c <= 0xffff_ffff_ffff_ffff && t <= 0xffff_ffff_ffff_ffff);
        }
        let score: u64 = if t == 0 {
            900_000
        } else if 500_000_000 * c >= 900_000 * t {
            0
        } else {
            proof {
                let (ci, ti) = (c as int, t as int);
                assert((900_000 * ti - 500_000_000 * ci) / ti <= 900_000) by (nonlinear_arith)
                    requires ti > 0, ci >= 0, 900_000 * ti - 500_000_000 * ci > 0;
            }
            ((900_000 * t - 500_000_000 * c) / t) as u64
        };
        let bp: u128 = if t == 0 {
            0
        } else {
            10_000 * c / t
        };
        let empty = String::new();
        let mut issues: Vec<Issue> = Vec::new();
        if t == 0 || 20 * c < t {
            push_issue(&mut issues, issue(IssueKind::CommentsExtremelyLow, &empty, to_u64_wide(bp), COMMENTS_EXTREMELY_LOW_BP));
        } else if 10 * c < t {
            push_issue(&mut issues, issue(IssueKind::CommentsLow, &empty, to_u64_wide(bp), COMMENTS_LOW_BP));
        }
        proof {
            assert(empty@ =~= Seq::<char>::empty());
            assert(issues_view(issues@) =~= comment_issues(c as nat, t as nat));
        }
        finish(MetricKind::CommentRatio, score, issues)
    }
}

// ---------------------------------------------------------------------------
// Naming convention
// ---------------------------------------------------------------------------

/// Names made of `x`, `y` and `z` only.
pub open spec fn only_xyz(n: Seq<char>) -> bool {
    forall|i: int| 0 <= i < n.len() ==> (n[i] == 'x' || n[i] == 'y' || n[i] == 'z')
}

/// A name that says nothing: two characters or fewer, a placeholder word, or only
/// `x`, `y` and `z`.
pub open spec fn bad_name(n: Seq<char>) -> bool {
    n.len() <= 2 || n == "tmp"@ || n == "temp"@ || n == "xxx"@ || n == "foo"@ || n == "bar"@ || n
        == "test"@ || only_xyz(n)
}

pub fn is_bad_name(name: &str) -> (r: bool)
    ensures
        r == bad_name(name@),
{
    let n = chars_of(name);
    let n = n.as_slice();
    if n.len() <= 2 || crate::text::chars_are(n, "tmp") || crate::text::chars_are(n, "temp")
        || crate::text::chars_are(n, "xxx") || crate::text::chars_are(n, "foo")
        || crate::text::chars_are(n, "bar") || crate::text::chars_are(n, "test") {
        return true;
    }
    let mut i: usize = 0;
    while i < n.len()
        invariant
            i <= n.len(),
            n@ == name@,
            !(n@.len() <= 2 || n@ == "tmp"@ || n@ == "temp"@ || n@ == "xxx"@ || n@ == "foo"@ || n@
                == "bar"@ || n@ == "test"@),
            forall|k: int| 0 <= k < i ==> (n@[k] == 'x' || n@[k] == 'y' || n@[k] == 'z'),
        decreases n.len() - i,
    {
        if n[i] != 'x' && n[i] != 'y' && n[i] != 'z' {
            assert(!only_xyz(n@)) by {
                let k = i as int;
                assert(!(n@[k] == 'x' || n@[k] == 'y' || n@[k] == 'z'));
            }
            return false;
        }
        i = i + 1;
    }
    true
}

pub open spec fn count_bad(us: Seq<UnitView>) -> nat
    decreases us.len(),
{
    if us.len() == 0 {
        0
    } else {
        count_bad(us.drop_last()) + if bad_name(us.last().name) {
            1nat
        } else {
            0nat
        }
    }
}

pub open spec fn naming_issues(us: Seq<UnitView>) -> Seq<IssueView>
    decreases us.len(),
{
    if us.len() == 0 {
        seq![]
    } else {
        naming_issues(us.drop_last()) + if bad_name(us.last().name) {
            seq![iv(IssueKind::BadName, us.last().name, us.last().name.len(), 2)]
        } else {
            seq![]
        }
    }
}

/// `0.4 + 10 × (share of bad names)`, capped at 1; 0.4 with no units.
pub open spec fn naming_score(us: Seq<UnitView>) -> nat {
    if us.len() == 0 {
        400_000
    } else {
        min_nat((400_000 + 10_000_000 * count_bad(us) / us.len()) as nat, SCALE as nat)
    }
}

pub struct NamingConventionMetric;

impl NamingConventionMetric {
    pub fn new() -> (r: NamingConventionMetric) {
        NamingConventionMetric
    }

    pub fn weight(&self) -> (r: u64)
        ensures
            r == WEIGHT_NAMING,
    {
        WEIGHT_NAMING
    }

    /// Scores the share of bad unit names and flags each.
    pub fn analyze(&self, model: &BaseParseResult) -> (r: MetricResult)
        ensures
            r.score <= SCALE,
            r@ == metric_view(
                MetricKind::NamingConvention,
                naming_score(units_view(model.functions@)),
                naming_issues(units_view(model.functions@)),
            ),
    {
        let fs = &model.functions;
        let ghost us = units_view(fs@);
        let mut bad: u128 = 0;
        let mut issues: Vec<Issue> = Vec::new();
        let mut i: usize = 0;
        proof {
            lemma_prefix_all(fs@);
        }
        while i < fs.len()
            invariant
                i <= fs.len(),
                us == units_view(fs@),
                bad == count_bad(us.subrange(0, i as int)),
                bad <= i,
                issues_view(issues@) == naming_issues(us.subrange(0, i as int)),
            decreases fs.len() - i,
        {
            proof {
                lemma_prefix_step(fs@, i as int);
            }
            let f = &fs[i];
            let ghost before = issues_view(issues@);
            if is_bad_name(f.name.as_str()) {
                let len = chars_of(f.name.as_str()).len();
                push_issue(&mut issues, issue(IssueKind::BadName, &f.name, to_u64(len), 2));
                bad = bad + 1;
            }
            proof {
                let u = fs@[i as int]@;
                assert(issues_view(issues@) =~= before + if bad_name(u.name) {
                    seq![iv(IssueKind::BadName, u.name, u.name.len(), 2)]
                } else {
                    Seq::<IssueView>::empty()
                });
            }
            i = i + 1;
        }
        let n = fs.len() as u128;
        let score: u64 = if n == 0 {
            400_000
        } else {
            proof {
                assert(n <= 0xffff_ffff_ffff_ffff);
            }
            let x = 400_000 + 10_000_000 * bad / n;
            if x > SCALE as u128 {
                SCALE
            } else {
                x as u64
            }
        };
        finish(MetricKind::NamingConvention, score, issues)
    }
}

// ---------------------------------------------------------------------------
// Structure
// ---------------------------------------------------------------------------

pub const NESTING_DEEP: u64 = 3;

pub const NESTING_VERY_DEEP: u64 = 5;

/// Estimated nesting depth of a unit: its complexity over 3, rounded up.
pub open spec fn depth_of(u: UnitView) -> nat {
    ((u.complexity + 2) / 3) as nat
}

pub open spec fn max_depth(us: Seq<UnitView>) -> nat
    decreases us.len(),
{
    if us.len() == 0 {
        0
    } else {
        let d = depth_of(us.last());
        let m = max_depth(us.drop_last());
        if d > m {
            d
        } else {
            m
        }
    }
}

pub open spec fn structure_issues(us: Seq<UnitView>) -> Seq<IssueView>
    decreases us.len(),
{
    if us.len() == 0 {
        seq![]
    } else {
        let u = us.last();
        structure_issues(us.drop_last()) + if depth_of(u) > NESTING_VERY_DEEP {
            seq![iv(IssueKind::NestingVeryDeep, u.name, depth_of(u), NESTING_VERY_DEEP as nat)]
        } else if depth_of(u) > NESTING_DEEP {
            seq![iv(IssueKind::NestingDeep, u.name, depth_of(u), NESTING_DEEP as nat)]
        } else {
            seq![]
        }
    }
}

/// `0.4 + 0.15 × (d − 1)` for the deepest estimated nesting `d`, capped at 1; 0.4
/// where no unit nests deeper than 1.
pub open spec fn structure_score(us: Seq<UnitView>) -> nat {
    let d = max_depth(us);
    if d > 1 {
        min_nat((400_000 + 150_000 * (d - 1)) as nat, SCALE as nat)
    } else {
        400_000
    }
}

pub struct StructureAnalysisMetric;

impl StructureAnalysisMetric {
    pub fn new() -> (r: StructureAnalysisMetric) {
        StructureAnalysisMetric
    }

    pub fn weight(&self) -> (r: u64)
        ensures
            r == WEIGHT_STRUCTURE,
    {
        WEIGHT_STRUCTURE
    }

    /// Scores the deepest estimated nesting and flags units nested deeper than 3
    /// (deep) or 5 (very deep).
    pub fn analyze(&self, model: &BaseParseResult) -> (r: MetricResult)
        ensures
            r.score <= SCALE,
            r@ == metric_view(
                MetricKind::StructureAnalysis,
                structure_score(units_view(model.functions@)),
                structure_issues(units_view(model.functions@)),
            ),
    {
        let fs = &model.functions;
        let ghost us = units_view(fs@);
        let mut deepest: u128 = 0;
        let mut issues: Vec<Issue> = Vec::new();
        let mut i: usize = 0;
        proof {
            lemma_prefix_all(fs@);
        }
        while i < fs.len()
            invariant
                i <= fs.len(),
                us == units_view(fs@),
                deepest == max_depth(us.subrange(0, i as int)),
                deepest <= 0xffff_ffff_ffff_ffff,
                issues_view(issues@) == structure_issues(us.subrange(0, i as int)),
            decreases fs.len() - i,
        {
            proof {
                lemma_prefix_step(fs@, i as int);
            }
            let f = &fs[i];
            proof {
                assert(f.complexity as int <= 0xffff_ffff_ffff_ffff);
            }
            let d = (f.complexity as u128 + 2) / 3;
            let ghost before = issues_view(issues@);
            if d > NESTING_VERY_DEEP as u128 {
                push_issue(&mut issues, issue(IssueKind::NestingVeryDeep, &f.name, to_u64_wide(d), NESTING_VERY_DEEP));
            } else if d > NESTING_DEEP as u128 {
                push_issue(&mut issues, issue(IssueKind::NestingDeep, &f.name, to_u64_wide(d), NESTING_DEEP));
            }
            if d > deepest {
                deepest = d;
            }
            proof {
                let u = fs@[i as int]@;
                assert(d == depth_of(u));
                assert(issues_view(issues@) =~= before + if depth_of(u) > NESTING_VERY_DEEP {
                    seq![iv(IssueKind::NestingVeryDeep, u.name, depth_of(u), NESTING_VERY_DEEP as nat)]
                } else if depth_of(u) > NESTING_DEEP {
                    seq![iv(IssueKind::NestingDeep, u.name, depth_of(u), NESTING_DEEP as nat)]
                } else {
                    Seq::<IssueView>::empty()
                });
            }
            i = i + 1;
        }
        let score: u64 = if deepest > 1 {
            let x = 400_000 + 150_000 * (deepest - 1);
            if x > SCALE as u128 {
                SCALE
            } else {
                x as u64
            }
        } else {
            400_000
        };
        finish(MetricKind::StructureAnalysis, score, issues)
    }
}

// ---------------------------------------------------------------------------
// Error handling
// ---------------------------------------------------------------------------

/// The error-handling judgement on one unit: errors are possible, errors are
/// handled, and a handling quality in `0..=SCALE`.
pub struct ErrorVerdict {
    pub potential: bool,
    pub handled: bool,
    pub quality: u64,
}

pub open spec fn verdict(potential: bool, handled: bool, quality: nat) -> (bool, bool, nat) {
    (potential, handled, quality)
}

/// The heuristic verdict on a unit, by language family, from its complexity and
/// words in its name.
pub open spec fn error_verdict(u: UnitView, l: LanguageType) -> (bool, bool, nat) {
    let c = u.complexity;
    let n = u.name;
    match l {
        LanguageType::Rust => {
            let result_like = contains(n, "Result"@) || c > 5;
            let handled = c > 3;
            verdict(
                result_like || c > 8,
                handled,
                if handled {
                    800_000
                } else if result_like {
                    500_000
                } else {
                    300_000
                },
            )
        },
        LanguageType::Go => {
            let potential = c > 5;
            let handled = c > 7;
            verdict(
                potential,
                handled,
                if handled {
                    700_000
                } else if potential {
                    300_000
                } else {
                    500_000
                },
            )
        },
        LanguageType::JavaScript | LanguageType::TypeScript => {
            let async_like = contains(n, "async"@) || contains(n, "fetch"@) || contains(n, "request"@);
            let handled = c > 8;
            verdict(
                async_like || c > 6,
                handled,
                if handled {
                    600_000
                } else if async_like {
                    200_000
                } else {
                    400_000
                },
            )
        },
        LanguageType::Python => {
            let io_like = contains(n, "read"@) || contains(n, "write"@) || contains(n, "open"@)
                || contains(n, "request"@);
            let handled = c > 7;
            verdict(
                io_like || c > 6,
                handled,
                if handled {
                    650_000
                } else if io_like {
                    150_000
                } else {
                    400_000
                },
            )
        },
        LanguageType::Java | LanguageType::CSharp => {
            let potential = c > 5;
            let handled = c > 8;
            verdict(
                potential,
                handled,
                if handled {
                    750_000
                } else if potential {
                    350_000
                } else {
                    500_000
                },
            )
        },
        LanguageType::C | LanguageType::CPlusPlus => {
            let resource_like = contains(n, "alloc"@) || contains(n, "malloc"@) || contains(n, "open"@)
                || contains(n, "read"@) || contains(n, "write"@);
            let handled = c > 7;
            verdict(
                resource_like || c > 6,
                handled,
                if handled {
                    500_000
                } else if resource_like {
                    100_000
                } else {
                    300_000
                },
            )
        },
        _ => verdict(false, false, 500_000),
    }
}

fn name_has(name: &[char], word: &str) -> (r: bool)
    ensures
        r == contains(name@, word@),
{
    let w = chars_of(word);
    contains_exec(name, w.as_slice())
}

/// The verdict on one unit: see `error_verdict`.
pub fn judge_error_handling(f: &Function, l: LanguageType) -> (r: ErrorVerdict)
    ensures
        (r.potential, r.handled, r.quality as nat) == error_verdict(f@, l),
        r.quality <= SCALE,
{
    let c = f.complexity;
    let nv = chars_of(f.name.as_str());
    let n = nv.as_slice();
    match l {
        LanguageType::Rust => {
            let result_like = name_has(n, "Result") || c > 5;
            let handled = c > 3;
            let quality = if handled {
                800_000
            } else if result_like {
                500_000
            } else {
                300_000
            };
            ErrorVerdict { potential: result_like || c > 8, handled, quality }
        },
        LanguageType::Go => {
            let potential = c > 5;
            let handled = c > 7;
            let quality = if handled {
                700_000
            } else if potential {
                300_000
            } else {
                500_000
            };
            ErrorVerdict { potential, handled, quality }
        },
        LanguageType::JavaScript | LanguageType::TypeScript => {
            let async_like = name_has(n, "async") || name_has(n, "fetch") || name_has(n, "request");
            let handled = c > 8;
            let quality = if handled {
                600_000
            } else if async_like {
                200_000
            } else {
                400_000
            };
            ErrorVerdict { potential: async_like || c > 6, handled, quality }
        },
        LanguageType::Python => {
            let io_like = name_has(n, "read") || name_has(n, "write") || name_has(n, "open")
                || name_has(n, "request");
            let handled = c > 7;
            let quality = if handled {
                650_000
            } else if io_like {
                150_000
            } else {
                400_000
            };
            ErrorVerdict { potential: io_like || c > 6, handled, quality }
        },
        LanguageType::Java | LanguageType::CSharp => {
            let potential = c > 5;
            let handled = c > 8;
            let quality = if handled {
                750_000
            } else if potential {
                350_000
            } else {
                500_000
            };
            ErrorVerdict { potential, handled, quality }
        },
        LanguageType::C | LanguageType::CPlusPlus => {
            let resource_like = name_has(n, "alloc") || name_has(n, "malloc") || name_has(n, "open")
                || name_has(n, "read") || name_has(n, "write");
            let handled = c > 7;
            let quality = if handled {
                500_000
            } else if resource_like {
                100_000
            } else {
                300_000
            };
            ErrorVerdict { potential: resource_like || c > 6, handled, quality }
        },
        _ => ErrorVerdict { potential: false, handled: false, quality: 500_000 },
    }
}

pub const ERROR_QUALITY_WEAK: u64 = 300_000;

pub open spec fn unhandled(u: UnitView, l: LanguageType) -> bool {
    error_verdict(u, l).0 && !error_verdict(u, l).1
}

pub open spec fn sum_quality(us: Seq<UnitView>, l: LanguageType) -> nat
    decreases us.len(),
{
    if us.len() == 0 {
        0
    } else {
        sum_quality(us.drop_last(), l) + error_verdict(us.last(), l).2
    }
}

pub open spec fn count_unhandled(us: Seq<UnitView>, l: LanguageType) -> nat
    decreases us.len(),
{
    if us.len() == 0 {
        0
    } else {
        count_unhandled(us.drop_last(), l) + if unhandled(us.last(), l) {
            1nat
        } else {
            0nat
        }
    }
}

pub open spec fn error_issues(us: Seq<UnitView>, l: LanguageType) -> Seq<IssueView>
    decreases us.len(),
{
    if us.len() == 0 {
        seq![]
    } else {
        let u = us.last();
        let (p, h, q) = error_verdict(u, l);
        error_issues(us.drop_last(), l) + if p && !h {
            seq![iv(IssueKind::ErrorHandlingMissing, u.name, 0, 0)]
        } else if p && q < ERROR_QUALITY_WEAK {
            seq![iv(IssueKind::ErrorHandlingWeak, u.name, q, ERROR_QUALITY_WEAK as nat)]
        } else {
            seq![]
        }
    }
}

/// `0.6 × (1 − average quality) + 0.4 × (share of units with errors possible but
/// unhandled)`; 0 with no units.
pub open spec fn error_score(us: Seq<UnitView>, l: LanguageType) -> nat {
    if us.len() == 0 {
        0
    } else {
        ((6 * (SCALE * us.len() - sum_quality(us, l)) + 4 * SCALE * count_unhandled(us, l)) / (10
            * us.len()) as int) as nat
    }
}

pub struct ErrorHandlingMetric;

impl ErrorHandlingMetric {
    pub fn new() -> (r: ErrorHandlingMetric) {
        ErrorHandlingMetric
    }

    pub fn weight(&self) -> (r: u64)
        ensures
            r == WEIGHT_ERRORS,
    {
        WEIGHT_ERRORS
    }

    /// Scores how well units where errors can arise seem to handle them, and flags
    /// each unit that lacks handling or handles poorly.
    pub fn analyze(&self, model: &BaseParseResult) -> (r: MetricResult)
        ensures
            r.score <= SCALE,
            r@ == metric_view(
                MetricKind::ErrorHandling,
                error_score(units_view(model.functions@), model.language),
                error_issues(units_view(model.functions@), model.language),
            ),
    {
        let fs = &model.functions;
        let l = model.language;
        let ghost us = units_view(fs@);
        let mut quality: u128 = 0;
        let mut missing: u128 = 0;
        let mut issues: Vec<Issue> = Vec::new();
        let mut i: usize = 0;
        proof {
            lemma_prefix_all(fs@);
        }
        while i < fs.len()
            invariant
                i <= fs.len(),
                us == units_view(fs@),
                l == model.language,
                quality == sum_quality(us.subrange(0, i as int), l),
                quality <= i * SCALE,
                missing == count_unhandled(us.subrange(0, i as int), l),
                missing <= i,
                issues_view(issues@) == error_issues(us.subrange(0, i as int), l),
            decreases fs.len() - i,
        {
            proof {
                lemma_prefix_step(fs@, i as int);
            }
            let f = &fs[i];
            let v = judge_error_handling(f, l);
            let ghost before = issues_view(issues@);
            if v.potential && !v.handled {
                push_issue(&mut issues, issue(IssueKind::ErrorHandlingMissing, &f.name, 0, 0));
                missing = missing + 1;
            } else if v.potential && v.quality < ERROR_QUALITY_WEAK {
                push_issue(&mut issues, issue(IssueKind::ErrorHandlingWeak, &f.name, v.quality, ERROR_QUALITY_WEAK));
            }
            quality = quality + v.quality as u128;
            proof {
                let u = fs@[i as int]@;
                let (p, h, q) = error_verdict(u, l);
                assert(issues_view(issues@) =~= before + if p && !h {
                    seq![iv(IssueKind::ErrorHandlingMissing, u.name, 0, 0)]
                } else if p && q < ERROR_QUALITY_WEAK {
                    seq![iv(IssueKind::ErrorHandlingWeak, u.name, q, ERROR_QUALITY_WEAK as nat)]
                } else {
                    Seq::<IssueView>::empty()
                });
            }
            i = i + 1;
        }
        let n = fs.len() as u128;
        let score: u64 = if n == 0 {
            0
        } else {
            proof {
                let (qi, mi, ni) = (quality as int, missing as int, n as int);
                assert(ni <= 0xffff_ffff_ffff_ffff);
                assert(6 * (1_000_000 * ni - qi) + 4 * 1_000_000 * mi <= 10 * 1_000_000 * ni) by (nonlinear_arith)
                    requires 0 <= qi <= ni * 1_000_000, 0 <= mi <= ni;
                assert((6 * (1_000_000 * ni - qi) + 4 * 1_000_000 * mi) / (10 * ni) <= 1_000_000) by (nonlinear_arith)
                    requires 6 * (1_000_000 * ni - qi) + 4 * 1_000_000 * mi <= 10 * 1_000_000 * ni, ni > 0, 0 <= qi <= ni * 1_000_000, mi >= 0;
            }
            ((6 * (1_000_000 * n - quality) + 4 * 1_000_000 * missing) / (10 * n)) as u64
        };
        finish(MetricKind::ErrorHandling, score, issues)
    }
}

} // verus!
