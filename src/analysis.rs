use vstd::prelude::*;

use crate::duplication::{duplication_issues, duplication_score, CodeDuplicationMetric};
use crate::metrics::{
    complexity_issues, complexity_score, description_of, error_issues, error_score,
    issues_view, length_issues, length_score, metric_view, naming_issues, naming_score,
    structure_issues, structure_score, comment_issues, comment_score, weight_of, Issue,
    IssueView, MetricKind, MetricResult, MetricView, CommentRatioMetric,
    CyclomaticComplexityMetric, ErrorHandlingMetric, FunctionLengthMetric,
    NamingConventionMetric, StructureAnalysisMetric, SCALE,
};
use crate::model::{units_view, BaseParseResult};
use crate::parsers::{create_parser_for_file, parsed_as, parser_kind};
use crate::language::language_of_path;

verus! {

/// Number of metrics every file is measured by.
pub const METRIC_COUNT: usize = 7;

/// Sum of the seven weights, in hundredths.
pub const TOTAL_WEIGHT: u64 = 113;

/// The metric at position `k` of every file's result list.
pub open spec fn kind_at(k: int) -> MetricKind {
    if k == 0 {
        MetricKind::CyclomaticComplexity
    } else if k == 1 {
        MetricKind::FunctionLength
    } else if k == 2 {
        MetricKind::CommentRatio
    } else if k == 3 {
        MetricKind::ErrorHandling
    } else if k == 4 {
        MetricKind::NamingConvention
    } else if k == 5 {
        MetricKind::CodeDuplication
    } else {
        MetricKind::StructureAnalysis
    }
}

/// What metric `k` gives on a unit model.
pub open spec fn metric_of(k: int, m: BaseParseResult) -> MetricView {
    let us = units_view(m.functions@);
    if k == 0 {
        metric_view(kind_at(k), complexity_score(us), complexity_issues(us))
    } else if k == 1 {
        metric_view(kind_at(k), length_score(us), length_issues(us))
    } else if k == 2 {
        metric_view(
            kind_at(k),
            comment_score(m.comment_lines as nat, m.total_lines as nat),
            comment_issues(m.comment_lines as nat, m.total_lines as nat),
        )
    } else if k == 3 {
        metric_view(kind_at(k), error_score(us, m.language), error_issues(us, m.language))
    } else if k == 4 {
        metric_view(kind_at(k), naming_score(us), naming_issues(us))
    } else if k == 5 {
        metric_view(kind_at(k), duplication_score(us), duplication_issues(us))
    } else {
        metric_view(kind_at(k), structure_score(us), structure_issues(us))
    }
}

/// A list of the seven metric results, in the fixed order, each scored in
/// `0..=SCALE` and carrying its kind's weight and description.
pub open spec fn metrics_wf(ms: Seq<MetricResult>) -> bool {
    &&& ms.len() == METRIC_COUNT
    &&& forall|k: int|
        0 <= k < METRIC_COUNT ==> {
            &&& (#[trigger] ms[k]).kind == kind_at(k)
            &&& ms[k].score <= SCALE
            &&& ms[k].weight == weight_of(kind_at(k))
            &&& ms[k].description@ == description_of(kind_at(k))
        }
}

/// `Σ score × weight`, over the first `n` results.
pub open spec fn weighted_sum(ms: Seq<MetricResult>, n: int) -> nat
    decreases n,
{
    if n <= 0 {
        0
    } else {
        weighted_sum(ms, n - 1) + (ms[n - 1].score as nat) * (ms[n - 1].weight as nat)
    }
}

/// `Σ weight`, over the first `n` results.
pub open spec fn weight_sum(ms: Seq<MetricResult>, n: int) -> nat
    decreases n,
{
    if n <= 0 {
        0
    } else {
        weight_sum(ms, n - 1) + ms[n - 1].weight as nat
    }
}

/// The weighted average of the scores, rounded down; 0 where no weight is given.
pub open spec fn weighted_average(ms: Seq<MetricResult>) -> nat {
    let w = weight_sum(ms, ms.len() as int);
    if w == 0 {
        0
    } else {
        weighted_sum(ms, ms.len() as int) / w
    }
}

pub proof fn lemma_weight_sum_wf(ms: Seq<MetricResult>)
    requires
        metrics_wf(ms),
    ensures
        weight_sum(ms, ms.len() as int) == TOTAL_WEIGHT,
{
    let k0 = ms[0];
    let k1 = ms[1];
    let k2 = ms[2];
    let k3 = ms[3];
    let k4 = ms[4];
    let k5 = ms[5];
    let k6 = ms[6];
    reveal_with_fuel(weight_sum, 8);
}

/// The weighted score of a file's metric list: `Σ score × weight / Σ weight`.
pub fn calculate_score(ms: &Vec<MetricResult>) -> (r: u64)
    requires
        metrics_wf(ms@),
    ensures
        r == weighted_average(ms@),
        r <= SCALE,
{
    let mut total: u64 = 0;
    let mut weights: u64 = 0;
    let mut i: usize = 0;
    while i < ms.len()
        invariant
            metrics_wf(ms@),
            i <= ms.len(),
            total == weighted_sum(ms@, i as int),
            weights == weight_sum(ms@, i as int),
            total <= weights * SCALE,
            weights <= 30 * i,
        decreases ms.len() - i,
    {
        let s = ms[i].score;
        let w = ms[i].weight;
        proof {
            let k = i as int;
            assert(ms@[k].score <= SCALE && ms@[k].weight <= 30);
            let (si, wi) = (s as int, w as int);
            assert(si * wi <= wi * 1_000_000) by (nonlinear_arith)
                requires 0 <= si <= 1_000_000, 0 <= wi;
        }
        total = total + s * w;
        weights = weights + w;
        i = i + 1;
    }
    proof {
        lemma_weight_sum_wf(ms@);
        let (t, w) = (total as int, weights as int);
        assert(t / w <= 1_000_000) by (nonlinear_arith)
            requires t <= w * 1_000_000, w > 0;
    }
    total / weights
}

/// Lists the metrics that a run applies.
pub struct MetricFactory;

impl MetricFactory {
    pub fn new() -> (r: MetricFactory) {
        MetricFactory
    }

    /// All seven metrics, in the fixed order.
    pub fn create_all_metrics(&self) -> (r: Vec<MetricKind>)
        ensures
            r@.len() == METRIC_COUNT,
            forall|k: int| 0 <= k < METRIC_COUNT ==> #[trigger] r@[k] == kind_at(k),
    {
        let mut r: Vec<MetricKind> = Vec::new();
        let mut k: usize = 0;
        while k < METRIC_COUNT
            invariant
                k <= METRIC_COUNT,
                r@.len() == k,
                forall|q: int| 0 <= q < k ==> #[trigger] r@[q] == kind_at(q),
            decreases METRIC_COUNT - k,
        {
            r.push(crate::metrics::kind_for_index(k));
            k = k + 1;
        }
        r
    }

    /// The three core metrics: complexity, function length and comments.
    pub fn create_core_metrics(&self) -> (r: Vec<MetricKind>)
        ensures
            r@ == seq![MetricKind::CyclomaticComplexity, MetricKind::FunctionLength, MetricKind::CommentRatio],
    {
        let r = vec![MetricKind::CyclomaticComplexity, MetricKind::FunctionLength, MetricKind::CommentRatio];
        assert(r@ =~= seq![MetricKind::CyclomaticComplexity, MetricKind::FunctionLength, MetricKind::CommentRatio]);
        r
    }
}

/// Runs one metric over a unit model.
pub fn analyze_with(kind: MetricKind, model: &BaseParseResult) -> (r: MetricResult)
    ensures
        r.score <= SCALE,
        r.kind == kind,
        forall|k: int| 0 <= k < METRIC_COUNT && kind_at(k) == kind ==> r@ == metric_of(k, *model),
{
    match kind {
        MetricKind::CyclomaticComplexity => CyclomaticComplexityMetric::new().analyze(model),
        MetricKind::FunctionLength => FunctionLengthMetric::new().analyze(model),
        MetricKind::CommentRatio => CommentRatioMetric::new().analyze(model),
        MetricKind::ErrorHandling => ErrorHandlingMetric::new().analyze(model),
        MetricKind::NamingConvention => NamingConventionMetric::new().analyze(model),
        MetricKind::CodeDuplication => CodeDuplicationMetric::new().analyze(model),
        MetricKind::StructureAnalysis => StructureAnalysisMetric::new().analyze(model),
    }
}

/// Runs the seven metrics over a unit model, in the fixed order.
pub fn analyze_metrics(model: &BaseParseResult) -> (r: Vec<MetricResult>)
    ensures
        metrics_wf(r@),
        forall|k: int| 0 <= k < METRIC_COUNT ==> (#[trigger] r@[k])@ == metric_of(k, *model),
{
    let mut r: Vec<MetricResult> = Vec::new();
    r.push(CyclomaticComplexityMetric::new().analyze(model));
    r.push(FunctionLengthMetric::new().analyze(model));
    r.push(CommentRatioMetric::new().analyze(model));
    r.push(ErrorHandlingMetric::new().analyze(model));
    r.push(NamingConventionMetric::new().analyze(model));
    r.push(CodeDuplicationMetric::new().analyze(model));
    r.push(StructureAnalysisMetric::new().analyze(model));
    proof {
        assert forall|k: int| 0 <= k < METRIC_COUNT implies {
            &&& (#[trigger] r@[k]).kind == kind_at(k)
            &&& r@[k].score <= SCALE
            &&& r@[k].weight == weight_of(kind_at(k))
            &&& r@[k].description@ == description_of(kind_at(k))
        } by {
            assert(r@[k]@ == metric_of(k, *model));
        }
    }
    r
}

/// The issues of the first `n` metric results, one list after another.
pub open spec fn concat_issues(ms: Seq<MetricResult>, n: int) -> Seq<IssueView>
    decreases n,
{
    if n <= 0 {
        seq![]
    } else {
        concat_issues(ms, n - 1) + issues_view(ms[n - 1].issues@)
    }
}

fn collect_issues(ms: &Vec<MetricResult>) -> (r: Vec<Issue>)
    ensures
        issues_view(r@) == concat_issues(ms@, ms@.len() as int),
{
    let mut r: Vec<Issue> = Vec::new();
    let mut i: usize = 0;
    while i < ms.len()
        invariant
            i <= ms.len(),
            issues_view(r@) == concat_issues(ms@, i as int),
        decreases ms.len() - i,
    {
        let is = &ms[i].issues;
        let ghost before = issues_view(r@);
        let mut j: usize = 0;
        while j < is.len()
            invariant
                j <= is.len(),
                is == ms@[i as int].issues,
                issues_view(r@) == before + issues_view(is@).subrange(0, j as int),
            decreases is.len() - j,
        {
            crate::metrics::push_cloned(&mut r, &is[j]);
            assert(issues_view(is@).subrange(0, j + 1) =~= issues_view(is@).subrange(0, j as int).push(is@[j as int]@));
            j = j + 1;
        }
        assert(issues_view(is@).subrange(0, is.len() as int) =~= issues_view(is@));
        i = i + 1;
    }
    r
}

/// What one file contributes to a project: its metric results, all their issues
/// and its line count.
pub struct FileAnalysisData {
    pub path: String,
    pub metrics: Vec<MetricResult>,
    pub issues: Vec<Issue>,
    pub lines: usize,
}

impl FileAnalysisData {
    pub open spec fn wf(&self) -> bool {
        metrics_wf(self.metrics@)
    }
}

/// Per-file data measured on the model `m`.
pub open spec fn measured(d: FileAnalysisData, path: Seq<char>, m: BaseParseResult) -> bool {
    &&& d.path@ == path
    &&& d.wf()
    &&& forall|k: int| 0 <= k < METRIC_COUNT ==> (#[trigger] d.metrics@[k])@ == metric_of(k, m)
    &&& issues_view(d.issues@) == concat_issues(d.metrics@, METRIC_COUNT as int)
    &&& d.lines == m.total_lines
}

/// Measures a unit model: the seven metrics and their issues.
pub fn analyze_model(path: String, model: &BaseParseResult) -> (r: FileAnalysisData)
    ensures
        measured(r, path@, *model),
{
    let metrics = analyze_metrics(model);
    let issues = collect_issues(&metrics);
    FileAnalysisData { path, metrics, issues, lines: model.total_lines }
}

/// Extracts and measures one file: the extractor is chosen by the file's language.
pub fn analyze_file(path: &str, content: &str) -> (r: FileAnalysisData)
    ensures
        exists|m: BaseParseResult|
            parsed_as(parser_kind(language_of_path(path@)), m, path@, content@) && measured(
                r,
                path@,
                m,
            ),
{
    let parser = create_parser_for_file(path);
    let model = parser.parse(path, content);
    let owned = crate::text::string_of(crate::text::chars_of(path).as_slice());
    analyze_model(owned, &model)
}

/// The per-file outcomes that succeeded, in order.
pub open spec fn successes(rs: Seq<Result<FileAnalysisData, crate::config::AppError>>) -> Seq<FileAnalysisData>
    decreases rs.len(),
{
    if rs.len() == 0 {
        seq![]
    } else {
        successes(rs.drop_last()) + match rs.last() {
            Ok(d) => seq![d],
            Err(_) => seq![],
        }
    }
}

/// The number of per-file outcomes that failed.
pub open spec fn failure_count(rs: Seq<Result<FileAnalysisData, crate::config::AppError>>) -> nat
    decreases rs.len(),
{
    if rs.len() == 0 {
        0
    } else {
        failure_count(rs.drop_last()) + match rs.last() {
            Ok(_) => 0nat,
            Err(_) => 1nat,
        }
    }
}

/// Splits per-file outcomes into the data to aggregate and the failures, so that
/// no failed file is lost unobserved.
pub fn split_outcomes(rs: Vec<Result<FileAnalysisData, crate::config::AppError>>) -> (r: (
    Vec<FileAnalysisData>,
    Vec<crate::config::AppError>,
))
    ensures
        r.0@ == successes(rs@),
        r.1@.len() == failure_count(rs@),
        r.0@.len() + r.1@.len() == rs@.len(),
{
    let ghost all = rs@;
    let mut ok: Vec<FileAnalysisData> = Vec::new();
    let mut failed: Vec<crate::config::AppError> = Vec::new();
    let mut rest = rs;
    let ghost mut i: int = 0;
    assert(all.subrange(0, 0) =~= Seq::<Result<FileAnalysisData, crate::config::AppError>>::empty());
    assert(all.subrange(0, all.len() as int) =~= all);
    while rest.len() > 0
        invariant
            0 <= i <= all.len(),
            rest@ == all.subrange(i, all.len() as int),
            ok@ == successes(all.subrange(0, i)),
            failed@.len() == failure_count(all.subrange(0, i)),
            ok@.len() + failed@.len() == i,
        decreases rest@.len(),
    {
        let x = rest.remove(0);
        assert(x == all[i]);
        assert(all.subrange(0, i + 1).drop_last() =~= all.subrange(0, i));
        assert(all.subrange(0, i + 1).last() == x);
        assert(rest@ =~= all.subrange(i + 1, all.len() as int));
        match x {
            Ok(d) => {
                ok.push(d);
            },
            Err(e) => {
                failed.push(e);
            },
        }
        assert(ok@ =~= successes(all.subrange(0, i + 1)));
        proof {
            i = i + 1;
        }
    }
    assert(all.subrange(0, i) =~= all);
    (ok, failed)
}

/// One file's line in a project report.
pub struct FileAnalysisResult {
    pub file_path: String,
    pub file_score: u64,
    pub issues: Vec<Issue>,
}

pub open spec fn file_result_of(r: FileAnalysisResult, d: FileAnalysisData) -> bool {
    &&& r.file_path@ == d.path@
    &&& r.file_score == weighted_average(d.metrics@)
    &&& issues_view(r.issues@) == issues_view(d.issues@)
}

/// The result of analysing a file or a project.
pub struct AnalysisResult {
    pub code_quality_score: u64,
    pub metrics: Vec<MetricResult>,
    pub files_analyzed: Vec<FileAnalysisResult>,
    pub total_files: usize,
    pub total_lines: u128,
    pub is_empty: bool,
}

/// Score of metric `k` summed over files (`k` = `METRIC_COUNT` sums line counts).
pub open spec fn file_value(d: FileAnalysisData, k: int) -> nat {
    if k < METRIC_COUNT {
        d.metrics@[k].score as nat
    } else {
        d.lines as nat
    }
}

pub open spec fn value_sum(fs: Seq<FileAnalysisData>, k: int) -> nat
    decreases fs.len(),
{
    if fs.len() == 0 {
        0
    } else {
        value_sum(fs.drop_last(), k) + file_value(fs.last(), k)
    }
}

/// The project score of metric `k`: its file scores averaged, rounded down.
pub open spec fn average_of(fs: Seq<FileAnalysisData>, k: int) -> nat {
    if fs.len() == 0 {
        0
    } else {
        (value_sum(fs, k) as int / fs.len() as int) as nat
    }
}

/// `Σ average × weight` over the first `n` metrics.
pub open spec fn project_weighted(fs: Seq<FileAnalysisData>, n: int) -> nat
    decreases n,
{
    if n <= 0 {
        0
    } else {
        project_weighted(fs, n - 1) + average_of(fs, n - 1) * weight_of(kind_at(n - 1))
    }
}

/// The project score: the weighted average of the averaged metric scores.
pub open spec fn project_score(fs: Seq<FileAnalysisData>) -> nat {
    if fs.len() == 0 {
        0
    } else {
        (project_weighted(fs, METRIC_COUNT as int) as int / TOTAL_WEIGHT as int) as nat
    }
}

/// The project view of the files `fs` that `r` reports.
pub open spec fn reports(r: AnalysisResult, fs: Seq<FileAnalysisData>) -> bool {
    &&& r.is_empty == (fs.len() == 0)
    &&& r.total_files == fs.len()
    &&& r.total_lines == value_sum(fs, METRIC_COUNT as int)
    &&& r.code_quality_score == project_score(fs)
    &&& fs.len() == 0 ==> r.metrics@.len() == 0
    &&& fs.len() > 0 ==> metrics_wf(r.metrics@)
    &&& fs.len() > 0 ==> forall|k: int|
        0 <= k < METRIC_COUNT ==> (#[trigger] r.metrics@[k])@ == metric_view(kind_at(k), average_of(fs, k), seq![])
    &&& r.files_analyzed@.len() == fs.len()
    &&& forall|i: int| 0 <= i < fs.len() ==> file_result_of(#[trigger] r.files_analyzed@[i], fs[i])
}

pub proof fn lemma_value_sum_bound(fs: Seq<FileAnalysisData>, k: int)
    requires
        0 <= k < METRIC_COUNT,
        forall|i: int| 0 <= i < fs.len() ==> (#[trigger] fs[i]).wf(),
    ensures
        value_sum(fs, k) <= fs.len() * SCALE,
    decreases fs.len(),
{
    if fs.len() > 0 {
        assert(fs.last().wf());
        assert forall|i: int| 0 <= i < fs.drop_last().len() implies (#[trigger] fs.drop_last()[i]).wf() by {
            assert(fs.drop_last()[i] == fs[i]);
        }
        lemma_value_sum_bound(fs.drop_last(), k);
        assert(fs.last().metrics@[k].score <= SCALE);
    }
}

/// An empty project: score 0, no metrics, no files.
pub fn create_empty_result() -> (r: AnalysisResult)
    ensures
        reports(r, Seq::empty()),
{
    AnalysisResult {
        code_quality_score: 0,
        metrics: Vec::new(),
        files_analyzed: Vec::new(),
        total_files: 0,
        total_lines: 0,
        is_empty: true,
    }
}

fn copy_issues(v: &Vec<Issue>) -> (r: Vec<Issue>)
    ensures
        issues_view(r@) == issues_view(v@),
{
    let mut r: Vec<Issue> = Vec::new();
    let mut j: usize = 0;
    while j < v.len()
        invariant
            j <= v.len(),
            issues_view(r@) == issues_view(v@).subrange(0, j as int),
        decreases v.len() - j,
    {
        crate::metrics::push_cloned(&mut r, &v[j]);
        assert(issues_view(v@).subrange(0, j + 1) =~= issues_view(v@).subrange(0, j as int).push(v@[j as int]@));
        j = j + 1;
    }
    assert(issues_view(v@).subrange(0, v.len() as int) =~= issues_view(v@));
    r
}

/// Merges per-file data into a project result: each metric's score is averaged
/// over the files, and the project score is the weighted average of those.
pub fn aggregate_results(files: &Vec<FileAnalysisData>) -> (r: AnalysisResult)
    requires
        forall|i: int| 0 <= i < files.len() ==> (#[trigger] files@[i]).wf(),
    ensures
        reports(r, files@),
{
    if files.len() == 0 {
        let r = create_empty_result();
        assert(files@ =~= Seq::<FileAnalysisData>::empty());
        return r;
    }
    let n = files.len();
    let mut sums: Vec<u128> = vec![0, 0, 0, 0, 0, 0, 0, 0];
    let mut results: Vec<FileAnalysisResult> = Vec::new();
    let mut i: usize = 0;
    while i < n
        invariant
            i <= n == files.len(),
            sums.len() == METRIC_COUNT + 1,
            forall|j: int| 0 <= j < files.len() ==> (#[trigger] files@[j]).wf(),
            forall|k: int| 0 <= k <= METRIC_COUNT ==> #[trigger] sums@[k] == value_sum(files@.subrange(0, i as int), k),
            forall|k: int| 0 <= k < METRIC_COUNT ==> #[trigger] sums@[k] <= i * SCALE,
            sums@[METRIC_COUNT as int] <= i * 0xffff_ffff_ffff_ffff,
            results@.len() == i,
            forall|j: int| 0 <= j < i ==> file_result_of(#[trigger] results@[j], files@[j]),
        decreases n - i,
    {
        let d = &files[i];
        assert(d.wf());
        proof {
            assert(files@.subrange(0, i + 1).drop_last() =~= files@.subrange(0, i as int));
            assert(files@.subrange(0, i + 1).last() == files@[i as int]);
        }
        let mut k: usize = 0;
        while k < METRIC_COUNT
            invariant
                k <= METRIC_COUNT,
                sums.len() == METRIC_COUNT + 1,
                d.wf(),
                d == files@[i as int],
                i < n == files.len(),
                files@.subrange(0, i + 1).drop_last() == files@.subrange(0, i as int),
                files@.subrange(0, i + 1).last() == files@[i as int],
                forall|q: int| 0 <= q < k ==> #[trigger] sums@[q] == value_sum(files@.subrange(0, i + 1), q),
                forall|q: int| k <= q <= METRIC_COUNT ==> #[trigger] sums@[q] == value_sum(files@.subrange(0, i as int), q),
                forall|q: int| 0 <= q < k ==> #[trigger] sums@[q] <= (i + 1) * SCALE,
                forall|q: int| k <= q < METRIC_COUNT ==> #[trigger] sums@[q] <= i * SCALE,
                sums@[METRIC_COUNT as int] <= i * 0xffff_ffff_ffff_ffff,
            decreases METRIC_COUNT - k,
        {
            assert(d.metrics@[k as int].score <= SCALE);
            let v = sums[k] + d.metrics[k].score as u128;
            sums.set(k, v);
            k = k + 1;
        }
        let v = sums[METRIC_COUNT] + d.lines as u128;
        sums.set(METRIC_COUNT, v);
        let file_score = calculate_score(&d.metrics);
        let path = crate::text::string_of(crate::text::chars_of(d.path.as_str()).as_slice());
        results.push(FileAnalysisResult { file_path: path, file_score, issues: copy_issues(&d.issues) });
        i = i + 1;
    }
    assert(files@.subrange(0, n as int) =~= files@);
    let mut metrics: Vec<MetricResult> = Vec::new();
    let mut total: u128 = 0;
    let mut k: usize = 0;
    while k < METRIC_COUNT
        invariant
            k <= METRIC_COUNT,
            n == files.len(),
            n > 0,
            sums.len() == METRIC_COUNT + 1,
            forall|q: int| 0 <= q <= METRIC_COUNT ==> #[trigger] sums@[q] == value_sum(files@, q),
            forall|q: int| 0 <= q < METRIC_COUNT ==> #[trigger] sums@[q] <= n * SCALE,
            metrics@.len() == k,
            forall|q: int| 0 <= q < k ==> (#[trigger] metrics@[q])@ == metric_view(kind_at(q), average_of(files@, q), seq![]),
            forall|q: int| 0 <= q < k ==> (#[trigger] metrics@[q]).score <= SCALE,
            total == project_weighted(files@, k as int),
            total <= 30_000_000 * k,
        decreases METRIC_COUNT - k,
    {
        let kind = crate::metrics::kind_for_index(k);
        let avg = sums[k] / n as u128;
        proof {
            let (s, m) = (sums@[k as int] as int, n as int);
            assert(s / m <= 1_000_000) by (nonlinear_arith)
                requires s <= m * 1_000_000, m > 0;
        }
        let none: Vec<Issue> = Vec::new();
        assert(issues_view(none@) =~= Seq::<IssueView>::empty());
        let m = crate::metrics::finish_result(kind, avg as u64, none);
        proof {
            let (a, w) = (avg as int, weight_of(kind_at(k as int)) as int);
            assert(a * w <= 30 * 1_000_000) by (nonlinear_arith)
                requires 0 <= a <= 1_000_000, 0 <= w <= 30;
        }
        assert(m.weight == weight_of(kind_at(k as int)));
        assert(avg * (m.weight as u128) <= 30_000_000);
        total = total + avg * m.weight as u128;
        metrics.push(m);
        k = k + 1;
    }
    let score = (total / TOTAL_WEIGHT as u128) as u64;
    proof {
        assert forall|q: int| 0 <= q < METRIC_COUNT implies {
            &&& (#[trigger] metrics@[q]).kind == kind_at(q)
            &&& metrics@[q].score <= SCALE
            &&& metrics@[q].weight == weight_of(kind_at(q))
            &&& metrics@[q].description@ == description_of(kind_at(q))
        } by {
            assert(metrics@[q]@ == metric_view(kind_at(q), average_of(files@, q), seq![]));
        }
    }
    AnalysisResult {
        code_quality_score: score,
        metrics,
        files_analyzed: results,
        total_files: n,
        total_lines: sums[METRIC_COUNT],
        is_empty: false,
    }
}

} // verus!
