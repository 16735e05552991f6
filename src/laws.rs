//! Properties that relate several functions of the library, proved over the
//! specifications that those functions' contracts use.
use vstd::prelude::*;

use crate::analysis::{
    average_of, file_value, metric_of, project_score, project_weighted, reports, value_sum,
    AnalysisResult, FileAnalysisData, FileAnalysisResult, METRIC_COUNT, file_result_of,
    metrics_wf, weighted_average, weighted_sum, weight_sum,
};
use crate::duplication::{
    count_pattern, duplication_issues, group_members, insert_sorted, join_names, lex_le,
    names_with, sort_names, duplication_score, pattern_of, similarity,
    similarity_issue_at, similarity_issues, HIGHLY_SIMILAR,
};
use crate::metrics::{
    comment_score, count_unhandled, error_score, error_verdict, length_score, sum_quality,
    IssueKind, SCALE,
};
use crate::model::{units_view, BaseParseResult, UnitView};
use crate::language::LanguageType;

verus! {

// ---------------------------------------------------------------------------
// Scores stay in range
// ---------------------------------------------------------------------------

proof fn lemma_quality_bound(us: Seq<UnitView>, l: LanguageType)
    ensures
        sum_quality(us, l) <= us.len() * SCALE,
        count_unhandled(us, l) <= us.len(),
    decreases us.len(),
{
    if us.len() > 0 {
        lemma_quality_bound(us.drop_last(), l);
        assert(error_verdict(us.last(), l).2 <= SCALE);
    }
}

/// Every metric scores a unit model in `0..=SCALE`.
pub proof fn law_metric_scores_in_range(m: BaseParseResult)
    ensures
        forall|k: int| 0 <= k < METRIC_COUNT ==> #[trigger] metric_of(k, m).score <= SCALE,
{
    let us = units_view(m.functions@);
    let (c, t) = (m.comment_lines as int, m.total_lines as int);
    if t > 0 && 500_000_000 * c < 900_000 * t {
        assert((900_000 * t - 500_000_000 * c) / t <= 900_000) by (nonlinear_arith)
            requires t > 0, c >= 0, 900_000 * t - 500_000_000 * c > 0;
    }
    assert(comment_score(c as nat, t as nat) <= SCALE);
    if us.len() > 0 {
        lemma_quality_bound(us, m.language);
        let (n, q, w) = (us.len() as int, sum_quality(us, m.language) as int, count_unhandled(us, m.language) as int);
        assert((6 * (1_000_000 * n - q) + 4 * 1_000_000 * w) / (10 * n) <= 1_000_000) by (nonlinear_arith)
            requires n > 0, 0 <= q <= n * 1_000_000, 0 <= w <= n;
    }
    assert(error_score(us, m.language) <= SCALE);
}

/// A project's averaged metric scores and its overall score stay in `0..=SCALE`
/// when every file's do.
pub proof fn law_project_scores_in_range(fs: Seq<FileAnalysisData>)
    requires
        forall|i: int| 0 <= i < fs.len() ==> (#[trigger] fs[i]).wf(),
    ensures
        forall|k: int| 0 <= k < METRIC_COUNT ==> #[trigger] average_of(fs, k) <= SCALE,
        project_score(fs) <= SCALE,
{
    assert forall|k: int| 0 <= k < METRIC_COUNT implies #[trigger] average_of(fs, k) <= SCALE by {
        crate::analysis::lemma_value_sum_bound(fs, k);
        if fs.len() > 0 {
            let (s, n) = (value_sum(fs, k) as int, fs.len() as int);
            assert(s / n <= 1_000_000) by (nonlinear_arith)
                requires s <= n * 1_000_000, n > 0;
        }
    }
    lemma_project_weighted_expand(fs);
    let (a0, a1, a2, a3, a4, a5, a6) = (
        average_of(fs, 0) as int,
        average_of(fs, 1) as int,
        average_of(fs, 2) as int,
        average_of(fs, 3) as int,
        average_of(fs, 4) as int,
        average_of(fs, 5) as int,
        average_of(fs, 6) as int,
    );
    let t = project_weighted(fs, 7) as int;
    assert(t <= 113_000_000);
    assert(t / 113 <= 1_000_000) by (nonlinear_arith)
        requires 0 <= t <= 113_000_000;
}

/// The weighted sum of the seven averaged scores, written out.
proof fn lemma_project_weighted_expand(fs: Seq<FileAnalysisData>)
    ensures
        project_weighted(fs, 7) == average_of(fs, 0) * 30 + average_of(fs, 1) * 20 + average_of(fs, 2)
            * 15 + average_of(fs, 3) * 10 + average_of(fs, 4) * 8 + average_of(fs, 5) * 15
            + average_of(fs, 6) * 15,
{
    assert(project_weighted(fs, 0) == 0);
    assert(project_weighted(fs, 1) == project_weighted(fs, 0) + average_of(fs, 0) * 30);
    assert(project_weighted(fs, 2) == project_weighted(fs, 1) + average_of(fs, 1) * 20);
    assert(project_weighted(fs, 3) == project_weighted(fs, 2) + average_of(fs, 2) * 15);
    assert(project_weighted(fs, 4) == project_weighted(fs, 3) + average_of(fs, 3) * 10);
    assert(project_weighted(fs, 5) == project_weighted(fs, 4) + average_of(fs, 4) * 8);
    assert(project_weighted(fs, 6) == project_weighted(fs, 5) + average_of(fs, 5) * 15);
    assert(project_weighted(fs, 7) == project_weighted(fs, 6) + average_of(fs, 6) * 15);
}

// ---------------------------------------------------------------------------
// Uniform files
// ---------------------------------------------------------------------------

proof fn lemma_uniform_sum(fs: Seq<FileAnalysisData>, k: int, s: nat)
    requires
        0 <= k < METRIC_COUNT,
        forall|i: int| 0 <= i < fs.len() ==> #[trigger] file_value(fs[i], k) == s,
    ensures
        value_sum(fs, k) == fs.len() * s,
    decreases fs.len(),
{
    if fs.len() > 0 {
        assert forall|i: int| 0 <= i < fs.drop_last().len() implies #[trigger] file_value(fs.drop_last()[i], k) == s by {
            assert(fs.drop_last()[i] == fs[i]);
        }
        lemma_uniform_sum(fs.drop_last(), k, s);
        assert(file_value(fs.last(), k) == s);
        assert((fs.len() - 1) * s + s == fs.len() * s) by (nonlinear_arith);
    }
}

/// Every file scores `s` on each of the seven metrics.
pub open spec fn uniform(fs: Seq<FileAnalysisData>, s: nat) -> bool {
    forall|i: int, k: int|
        0 <= i < fs.len() && 0 <= k < METRIC_COUNT ==> fs[i].metrics@.len() == METRIC_COUNT
            && #[trigger] fs[i].metrics@[k].score == s
}

/// Where every file scores `s` on every metric, every averaged metric scores
/// `s` and so does the project.
pub proof fn law_uniform_files(fs: Seq<FileAnalysisData>, s: nat)
    requires
        fs.len() > 0,
        uniform(fs, s),
    ensures
        forall|k: int| 0 <= k < METRIC_COUNT ==> #[trigger] average_of(fs, k) == s,
        project_score(fs) == s,
{
    assert forall|k: int| 0 <= k < METRIC_COUNT implies #[trigger] average_of(fs, k) == s by {
        assert forall|i: int| 0 <= i < fs.len() implies #[trigger] file_value(fs[i], k) == s by {
            assert(fs[i].metrics@[k].score == s);
        }
        lemma_uniform_sum(fs, k, s);
        let n = fs.len() as int;
        assert((n * s) / n == s) by (nonlinear_arith)
            requires n > 0;
    }
    let (a0, a1, a2, a3, a4, a5, a6) = (
        average_of(fs, 0),
        average_of(fs, 1),
        average_of(fs, 2),
        average_of(fs, 3),
        average_of(fs, 4),
        average_of(fs, 5),
        average_of(fs, 6),
    );
    lemma_project_weighted_expand(fs);
    assert(project_weighted(fs, 7) == s * 113);
    assert((s * 113) / 113 == s) by (nonlinear_arith);
}

/// An aggregation result over files that each score `s` on every metric has
/// project score `s`, and every averaged metric scores `s`.
pub proof fn law_uniform_result(r: AnalysisResult, fs: Seq<FileAnalysisData>, s: nat)
    requires
        reports(r, fs),
        fs.len() > 0,
        uniform(fs, s),
    ensures
        r.code_quality_score == s,
        forall|k: int| 0 <= k < METRIC_COUNT ==> (#[trigger] r.metrics@[k]).score == s,
{
    law_uniform_files(fs, s);
    assert forall|k: int| 0 <= k < METRIC_COUNT implies (#[trigger] r.metrics@[k]).score == s by {
        assert(r.metrics@[k]@ == crate::metrics::metric_view(crate::analysis::kind_at(k), average_of(fs, k), seq![]));
    }
}

/// A file whose seven metrics all score `s` has file score `s`.
pub proof fn law_uniform_file_score(ms: Seq<crate::metrics::MetricResult>, s: nat)
    requires
        metrics_wf(ms),
        forall|k: int| 0 <= k < ms.len() ==> #[trigger] ms[k].score == s,
    ensures
        weighted_average(ms) == s,
{
    assert forall|k: int| 0 <= k < 7 implies #[trigger] ((ms[k].score as nat) * (ms[k].weight as nat))
        == s * (ms[k].weight as nat) by {
        assert(ms[k].score == s);
    }
    let (w0, w1, w2, w3, w4, w5, w6) = (
        (ms[0].score as nat) * (ms[0].weight as nat),
        (ms[1].score as nat) * (ms[1].weight as nat),
        (ms[2].score as nat) * (ms[2].weight as nat),
        (ms[3].score as nat) * (ms[3].weight as nat),
        (ms[4].score as nat) * (ms[4].weight as nat),
        (ms[5].score as nat) * (ms[5].weight as nat),
        (ms[6].score as nat) * (ms[6].weight as nat),
    );
    assert(ms[0].weight == 30 && ms[1].weight == 20 && ms[2].weight == 15 && ms[3].weight == 10);
    assert(ms[4].weight == 8 && ms[5].weight == 15 && ms[6].weight == 15);
    assert(w0 == s * 30 && w1 == s * 20 && w2 == s * 15 && w3 == s * 10);
    assert(w4 == s * 8 && w5 == s * 15 && w6 == s * 15);
    assert(weighted_sum(ms, 0) == 0 && weight_sum(ms, 0) == 0);
    assert(weighted_sum(ms, 1) == s * 30 && weight_sum(ms, 1) == 30);
    assert(weighted_sum(ms, 2) == s * 50 && weight_sum(ms, 2) == 50);
    assert(weighted_sum(ms, 3) == s * 65 && weight_sum(ms, 3) == 65);
    assert(weighted_sum(ms, 4) == s * 75 && weight_sum(ms, 4) == 75);
    assert(weighted_sum(ms, 5) == s * 83 && weight_sum(ms, 5) == 83);
    assert(weighted_sum(ms, 6) == s * 98 && weight_sum(ms, 6) == 98);
    assert(weighted_sum(ms, 7) == s * 113 && weight_sum(ms, 7) == 113);
    assert((s * 113) / 113 == s) by (nonlinear_arith);
}

// ---------------------------------------------------------------------------
// Order independence
// ---------------------------------------------------------------------------

proof fn lemma_value_sum_remove(fs: Seq<FileAnalysisData>, j: int, k: int)
    requires
        0 <= j < fs.len(),
    ensures
        value_sum(fs, k) == value_sum(fs.remove(j), k) + file_value(fs[j], k),
    decreases fs.len(),
{
    if j == fs.len() - 1 {
        assert(fs.remove(j) =~= fs.drop_last());
    } else {
        assert(fs.remove(j).drop_last() =~= fs.drop_last().remove(j));
        assert(fs.remove(j).last() == fs.last());
        lemma_value_sum_remove(fs.drop_last(), j, k);
    }
}

proof fn lemma_value_sum_permutation(a: Seq<FileAnalysisData>, b: Seq<FileAnalysisData>, k: int)
    requires
        a.to_multiset() == b.to_multiset(),
    ensures
        value_sum(a, k) == value_sum(b, k),
    decreases a.len(),
{
    vstd::seq_lib::to_multiset_len(a);
    vstd::seq_lib::to_multiset_len(b);
    if a.len() > 0 {
        let x = a.last();
        vstd::seq_lib::to_multiset_contains(a, x);
        vstd::seq_lib::to_multiset_contains(b, x);
        assert(a.contains(x)) by {
            assert(a[a.len() - 1] == x);
        }
        let j = choose|j: int| 0 <= j < b.len() && b[j] == x;
        lemma_value_sum_remove(b, j, k);
        vstd::seq_lib::to_multiset_remove(a, a.len() - 1);
        vstd::seq_lib::to_multiset_remove(b, j);
        assert(a.remove(a.len() - 1) =~= a.drop_last());
        lemma_value_sum_permutation(a.drop_last(), b.remove(j), k);
    }
}

/// Aggregation does not depend on the order in which per-file results arrive:
/// any reordering of the same files gives the same file count, line total,
/// averaged metric scores and project score.
pub proof fn law_order_independent(a: Seq<FileAnalysisData>, b: Seq<FileAnalysisData>)
    requires
        a.to_multiset() == b.to_multiset(),
    ensures
        a.len() == b.len(),
        value_sum(a, METRIC_COUNT as int) == value_sum(b, METRIC_COUNT as int),
        forall|k: int| 0 <= k < METRIC_COUNT ==> #[trigger] average_of(a, k) == average_of(b, k),
        project_score(a) == project_score(b),
{
    vstd::seq_lib::to_multiset_len(a);
    vstd::seq_lib::to_multiset_len(b);
    lemma_value_sum_permutation(a, b, METRIC_COUNT as int);
    assert forall|k: int| 0 <= k < METRIC_COUNT implies #[trigger] average_of(a, k) == average_of(b, k) by {
        lemma_value_sum_permutation(a, b, k);
    }
    let (x0, x1, x2, x3, x4, x5, x6) = (
        average_of(a, 0),
        average_of(a, 1),
        average_of(a, 2),
        average_of(a, 3),
        average_of(a, 4),
        average_of(a, 5),
        average_of(a, 6),
    );
    lemma_project_weighted_expand(a);
    lemma_project_weighted_expand(b);
}

/// Two per-file report lines that show the same path, score and issues.
pub open spec fn same_file_line(x: FileAnalysisResult, y: FileAnalysisResult) -> bool {
    x.file_path@ == y.file_path@ && x.file_score == y.file_score && crate::metrics::issues_view(x.issues@)
        == crate::metrics::issues_view(y.issues@)
}

/// Line `i` of `r1`'s per-file report lines stands, the same, in `r2`'s.
pub open spec fn line_shown(r1: AnalysisResult, r2: AnalysisResult, i: int) -> bool {
    exists|j: int|
        #![trigger r2.files_analyzed@[j]]
        0 <= j < r2.files_analyzed@.len() && same_file_line(r1.files_analyzed@[i], r2.files_analyzed@[j])
}

/// Every per-file report line of `r1` stands, the same, in `r2`.
pub open spec fn every_line_shown(r1: AnalysisResult, r2: AnalysisResult) -> bool {
    forall|i: int| 0 <= i < r1.files_analyzed@.len() ==> #[trigger] line_shown(r1, r2, i)
}

proof fn lemma_line_found(
    r1: AnalysisResult,
    r2: AnalysisResult,
    a: Seq<FileAnalysisData>,
    b: Seq<FileAnalysisData>,
    i: int,
)
    requires
        reports(r1, a),
        reports(r2, b),
        a.to_multiset() == b.to_multiset(),
        0 <= i < r1.files_analyzed@.len(),
    ensures
        line_shown(r1, r2, i),
{
    let x = a[i];
    assert(a.contains(x));
    vstd::seq_lib::to_multiset_contains(a, x);
    vstd::seq_lib::to_multiset_contains(b, x);
    assert(b.contains(x));
    let j = choose|j: int| 0 <= j < b.len() && b[j] == x;
    assert(file_result_of(r1.files_analyzed@[i], a[i]));
    assert(file_result_of(r2.files_analyzed@[j], b[j]));
    assert(same_file_line(r1.files_analyzed@[i], r2.files_analyzed@[j]));
    assert(0 <= j < r2.files_analyzed@.len());
}

/// Two aggregation results over the same files, arrived in any two orders, agree
/// in every field; their per-file lines are equally many, and each line of the
/// first stands, the same, in the second.
pub proof fn law_results_order_independent(
    r1: AnalysisResult,
    r2: AnalysisResult,
    a: Seq<FileAnalysisData>,
    b: Seq<FileAnalysisData>,
)
    requires
        reports(r1, a),
        reports(r2, b),
        a.to_multiset() == b.to_multiset(),
    ensures
        r1.code_quality_score == r2.code_quality_score,
        r1.total_files == r2.total_files,
        r1.total_lines == r2.total_lines,
        r1.is_empty == r2.is_empty,
        r1.metrics@.len() == r2.metrics@.len(),
        forall|k: int| 0 <= k < r1.metrics@.len() ==> (#[trigger] r1.metrics@[k])@ == r2.metrics@[k]@,
        r1.files_analyzed@.len() == r2.files_analyzed@.len(),
        every_line_shown(r1, r2),
{
    law_order_independent(a, b);
    assert forall|i: int| 0 <= i < r1.files_analyzed@.len() implies #[trigger] line_shown(r1, r2, i) by {
        lemma_line_found(r1, r2, a, b, i);
    }
    if a.len() > 0 {
        assert forall|k: int| 0 <= k < r1.metrics@.len() implies (#[trigger] r1.metrics@[k])@ == r2.metrics@[k]@ by {
            assert(r1.metrics@[k]@ == crate::metrics::metric_view(crate::analysis::kind_at(k), average_of(a, k), seq![]));
            assert(r2.metrics@[k]@ == crate::metrics::metric_view(crate::analysis::kind_at(k), average_of(b, k), seq![]));
        }
    }
}

// ---------------------------------------------------------------------------
// Comment ratio
// ---------------------------------------------------------------------------

/// The comment score never rises as the share of comment lines grows; no comments
/// score 0.9, and a share of a fifth or more scores 0.
pub proof fn law_comment_score_monotone(c1: nat, t1: nat, c2: nat, t2: nat)
    requires
        t1 > 0,
        t2 > 0,
        c1 * t2 <= c2 * t1,
    ensures
        comment_score(c2, t2) <= comment_score(c1, t1),
        comment_score(0, t1) == 900_000,
        5 * c2 >= t2 ==> comment_score(c2, t2) == 0,
{
    let (a1, b1, a2, b2) = (c1 as int, t1 as int, c2 as int, t2 as int);
    let x1 = 900_000 * b1 - 500_000_000 * a1;
    let x2 = 900_000 * b2 - 500_000_000 * a2;
    assert(x2 * b1 <= x1 * b2) by (nonlinear_arith)
        requires a1 * b2 <= a2 * b1, x1 == 900_000 * b1 - 500_000_000 * a1, x2 == 900_000 * b2 - 500_000_000 * a2;
    if x2 > 0 {
        let q2 = x2 / b2;
        assert(q2 * b2 <= x2) by (nonlinear_arith)
            requires b2 > 0, q2 == x2 / b2;
        assert(q2 * b2 * b1 <= x1 * b2) by (nonlinear_arith)
            requires q2 * b2 <= x2, x2 * b1 <= x1 * b2, b1 > 0, q2 >= 0;
        assert(q2 * b1 <= x1) by (nonlinear_arith)
            requires q2 * b2 * b1 <= x1 * b2, b2 > 0;
        assert(x1 > 0) by (nonlinear_arith)
            requires x2 > 0, x2 * b1 <= x1 * b2, b1 > 0, b2 > 0;
        assert(q2 <= x1 / b1) by (nonlinear_arith)
            requires q2 * b1 <= x1, b1 > 0;
    }
    if 5 * a2 >= b2 {
        assert(500_000_000 * a2 >= 900_000 * b2) by (nonlinear_arith)
            requires 5 * a2 >= b2, b2 > 0;
    }
    assert((900_000 * b1) / b1 == 900_000) by (nonlinear_arith)
        requires b1 > 0;
}

// ---------------------------------------------------------------------------
// Models without units
// ---------------------------------------------------------------------------

/// A unit model with no units scores 0 for function length and for duplication.
pub proof fn law_no_units(m: BaseParseResult)
    requires
        m.functions@.len() == 0,
    ensures
        metric_of(1, m).score == 0,
        metric_of(5, m).score == 0,
        length_score(units_view(m.functions@)) == 0,
        duplication_score(units_view(m.functions@)) == 0,
{
}

// ---------------------------------------------------------------------------
// Shared signatures
// ---------------------------------------------------------------------------

/// Two units with one signature (buckets, exact line count and name style) whose
/// similarity exceeds 0.7 form a highly similar group: the first issue reported
/// for the pair says so, names both units, and gives that similarity.
pub proof fn law_shared_signature_highly_similar(a: UnitView, b: UnitView)
    requires
        pattern_of(a) == pattern_of(b),
        similarity(pattern_of(a)) > HIGHLY_SIMILAR,
    ensures
        duplication_issues(seq![a, b]).len() >= 1,
        duplication_issues(seq![a, b])[0].kind == IssueKind::DuplicateHighlySimilar,
        duplication_issues(seq![a, b])[0].subject == group_members(seq![a, b], pattern_of(a)),
        group_members(seq![a, b], pattern_of(a)) == if lex_le(b.name, a.name) {
            b.name + ", "@ + a.name
        } else {
            a.name + ", "@ + b.name
        },
        duplication_issues(seq![a, b])[0].observed == similarity(pattern_of(a)),
{
    let us = seq![a, b];
    let p = pattern_of(a);
    assert(us.drop_last() =~= seq![a]);
    assert(seq![a].drop_last() =~= Seq::<UnitView>::empty());
    assert(seq![a].last() == a);
    assert(us.last() == b);
    assert(count_pattern(Seq::<UnitView>::empty(), p) == 0);
    assert(count_pattern(seq![a], p) == 1);
    assert(count_pattern(us, p) == 2);
    assert(us.subrange(0, 0) =~= Seq::<UnitView>::empty());
    assert(us[0] == a);
    let first = similarity_issue_at(us, 0);
    assert(similarity_issues(us, 1) == similarity_issues(us, 0) + first);
    assert(similarity_issues(us, 1) =~= first);
    assert(first.len() == 1);
    assert(similarity_issues(us, 2) == similarity_issues(us, 1) + similarity_issue_at(us, 1));
    assert(similarity_issues(us, 2)[0] == first[0]);
    let ns = names_with(us, p);
    assert(names_with(Seq::<UnitView>::empty(), p) =~= Seq::<Seq<char>>::empty());
    assert(names_with(seq![a], p) =~= seq![a.name]);
    assert(ns =~= seq![a.name, b.name]);
    assert(ns.drop_last() =~= seq![a.name]);
    assert(seq![a.name].drop_last() =~= Seq::<Seq<char>>::empty());
    assert(sort_names(Seq::<Seq<char>>::empty()) =~= Seq::<Seq<char>>::empty());
    assert(seq![a.name].last() == a.name);
    assert(insert_sorted(a.name, Seq::<Seq<char>>::empty()) =~= seq![a.name]);
    assert(sort_names(seq![a.name]) =~= seq![a.name]);
    let sorted = sort_names(ns);
    assert(sorted == insert_sorted(b.name, seq![a.name]));
    if lex_le(b.name, a.name) {
        assert(sorted =~= seq![b.name, a.name]);
    } else {
        assert(seq![a.name].drop_first() =~= Seq::<Seq<char>>::empty());
        assert(insert_sorted(b.name, Seq::<Seq<char>>::empty()) =~= seq![b.name]);
        assert(seq![a.name][0] == a.name);
        assert(insert_sorted(b.name, seq![a.name]) == seq![a.name] + insert_sorted(b.name, seq![a.name].drop_first()));
        assert(sorted =~= seq![a.name, b.name]);
    }
    assert(sorted.drop_last() =~= seq![sorted[0]]);
    assert(join_names(seq![sorted[0]]) == sorted[0]);
    assert(similarity(p) <= SCALE);
}

} // verus!
