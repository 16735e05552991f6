use code_quality::config::AppError;
use code_quality::analysis::{
    split_outcomes, aggregate_results, analyze_file, analyze_metrics, analyze_model, calculate_score,
    create_empty_result, FileAnalysisData,
};
use code_quality::duplication::{
    calculate_similarity_score, extract_function_pattern, get_base_name, mul_div,
    CodeDuplicationMetric,
};
use code_quality::language::LanguageType;
use code_quality::metrics::{
    is_bad_name, CommentRatioMetric, CyclomaticComplexityMetric, ErrorHandlingMetric,
    FunctionLengthMetric, IssueKind, MetricKind, MetricResult, NamingConventionMetric,
    StructureAnalysisMetric, SCALE,
};
use code_quality::model::{BaseParseResult, Function};

fn unit(name: &str, start: usize, end: usize, complexity: usize, parameters: usize) -> Function {
    Function::new(name.to_string(), start, end, complexity, parameters)
}

fn model(functions: Vec<Function>, comments: usize, total: usize, language: LanguageType) -> BaseParseResult {
    BaseParseResult { functions, comment_lines: comments, total_lines: total, language }
}

#[test]
fn single_letter_name_is_bad_and_descriptive_name_is_not() {
    assert!(is_bad_name("x"));
    assert!(!is_bad_name("calculateTotalPrice"));
    assert!(is_bad_name("tmp"));
    assert!(is_bad_name("xyzzy"));
    assert!(!is_bad_name("xyzzya"));
    let m = model(vec![unit("x", 1, 3, 1, 0), unit("calculateTotalPrice", 4, 9, 1, 1)], 0, 9, LanguageType::Java);
    let r = NamingConventionMetric::new().analyze(&m);
    assert_eq!(r.issues.len(), 1);
    assert_eq!(r.issues[0].kind, IssueKind::BadName);
    assert_eq!(r.issues[0].subject, "x");
    // 0.4 + 10 × 1/2, capped at 1.
    assert_eq!(r.score, SCALE);
}

#[test]
fn empty_model_scores_zero_length_and_duplication() {
    let m = model(vec![], 0, 0, LanguageType::Go);
    assert_eq!(FunctionLengthMetric::new().analyze(&m).score, 0);
    assert_eq!(CodeDuplicationMetric::new().analyze(&m).score, 0);
    assert_eq!(CyclomaticComplexityMetric::new().analyze(&m).score, 400_000);
    assert_eq!(NamingConventionMetric::new().analyze(&m).score, 400_000);
    assert_eq!(StructureAnalysisMetric::new().analyze(&m).score, 400_000);
    assert_eq!(ErrorHandlingMetric::new().analyze(&m).score, 0);
}

#[test]
fn complexity_score_is_linear_in_the_average() {
    let m = model(vec![unit("alpha", 1, 5, 1, 0), unit("beta", 6, 9, 3, 0)], 0, 9, LanguageType::C);
    let r = CyclomaticComplexityMetric::new().analyze(&m);
    assert_eq!(r.kind, MetricKind::CyclomaticComplexity);
    assert_eq!(r.weight, 30);
    // average 2: 0.4 + 0.2
    assert_eq!(r.score, 600_000);
    let m = model(vec![unit("alpha", 1, 5, 16, 0), unit("beta", 6, 9, 11, 0)], 0, 9, LanguageType::C);
    let r = CyclomaticComplexityMetric::new().analyze(&m);
    assert_eq!(r.score, SCALE);
    assert_eq!(r.issues[0].kind, IssueKind::ComplexityVeryHigh);
    assert_eq!(r.issues[1].kind, IssueKind::ComplexityHigh);
    assert_eq!(r.issues[1].observed, 11);
}

#[test]
fn length_score_weights_long_units() {
    let m = model(
        vec![unit("aaa", 1, 50, 13, 7), unit("bbb", 51, 130, 1, 9), unit("ccc", 131, 140, 1, 0), unit("ddd", 141, 300, 19, 0)],
        0,
        300,
        LanguageType::Java,
    );
    let r = FunctionLengthMetric::new().analyze(&m);
    // (0.3 + 0.5 + 0.8) / 4
    assert_eq!(r.score, 400_000);
    let kinds: Vec<IssueKind> = r.issues.iter().map(|i| i.kind).collect();
    assert_eq!(
        kinds,
        vec![
            IssueKind::LengthLong,
            IssueKind::LengthComplexityHigh,
            IssueKind::ParametersMany,
            IssueKind::LengthVeryLong,
            IssueKind::ParametersExtreme,
            IssueKind::LengthExtreme,
            IssueKind::LengthComplexitySevere,
        ]
    );
}

#[test]
fn comment_ratio_score_and_issues() {
    let m = model(vec![], 0, 100, LanguageType::C);
    let r = CommentRatioMetric::new().analyze(&m);
    assert_eq!(r.score, 900_000);
    assert_eq!(r.issues[0].kind, IssueKind::CommentsExtremelyLow);
    let m = model(vec![], 1, 1000, LanguageType::C);
    let r = CommentRatioMetric::new().analyze(&m);
    // 0.9 − 5 × 0.1
    assert_eq!(r.score, 400_000);
    assert_eq!(r.issues[0].observed, 10);
    let m = model(vec![], 8, 100, LanguageType::C);
    let r = CommentRatioMetric::new().analyze(&m);
    assert_eq!(r.score, 0);
    assert_eq!(r.issues[0].kind, IssueKind::CommentsLow);
    assert_eq!(r.issues[0].observed, 800);
    let m = model(vec![], 20, 100, LanguageType::C);
    assert_eq!(CommentRatioMetric::new().analyze(&m).issues.len(), 0);
}

#[test]
fn error_handling_by_language_family() {
    let m = model(vec![unit("readConfig", 1, 5, 1, 0), unit("compute", 6, 20, 9, 0)], 0, 20, LanguageType::Python);
    let r = ErrorHandlingMetric::new().analyze(&m);
    // qualities 0.15 and 0.65, one of two unhandled:
    // 0.6 × (1 − 0.4) + 0.4 × 0.5 = 0.56
    assert_eq!(r.score, 560_000);
    assert_eq!(r.issues.len(), 1);
    assert_eq!(r.issues[0].kind, IssueKind::ErrorHandlingMissing);
    assert_eq!(r.issues[0].subject, "readConfig");
    let m = model(vec![unit("run", 1, 5, 1, 0)], 0, 5, LanguageType::HTML);
    assert_eq!(ErrorHandlingMetric::new().analyze(&m).score, 300_000);
}

#[test]
fn structure_uses_deepest_estimated_nesting() {
    let m = model(vec![unit("shallow", 1, 5, 3, 0), unit("deep", 6, 30, 16, 0)], 0, 30, LanguageType::Go);
    let r = StructureAnalysisMetric::new().analyze(&m);
    // depth ceil(16/3) = 6: 0.4 + 0.15 × 5, capped
    assert_eq!(r.score, SCALE);
    assert_eq!(r.issues.len(), 1);
    assert_eq!(r.issues[0].kind, IssueKind::NestingVeryDeep);
    assert_eq!(r.issues[0].observed, 6);
    let m = model(vec![unit("mid", 1, 5, 10, 0)], 0, 5, LanguageType::Go);
    let r = StructureAnalysisMetric::new().analyze(&m);
    assert_eq!(r.score, 850_000);
    assert_eq!(r.issues[0].kind, IssueKind::NestingDeep);
}

#[test]
fn identical_signatures_are_highly_similar() {
    let a = unit("loadAlpha", 1, 25, 14, 2);
    let b = unit("loadBeta", 26, 50, 14, 2);
    assert_eq!(extract_function_pattern(&a), extract_function_pattern(&b));
    assert_eq!(calculate_similarity_score(&extract_function_pattern(&a)), SCALE);
    let m = model(vec![a, b], 0, 50, LanguageType::Java);
    let r = CodeDuplicationMetric::new().analyze(&m);
    assert_eq!(r.issues.len(), 1);
    assert_eq!(r.issues[0].kind, IssueKind::DuplicateHighlySimilar);
    assert_eq!(r.issues[0].subject, "loadAlpha, loadBeta");
    // lines 25/50 × 0.4 + 0.6 × min(1, 2 × 1.0 / 2)
    assert_eq!(r.score, SCALE.min(200_000 + 600_000));
}

#[test]
fn tiny_trivial_signatures_are_not_similar() {
    let m = model(vec![unit("alpha", 1, 3, 1, 0), unit("gamma", 4, 6, 1, 0)], 0, 6, LanguageType::Go);
    let r = CodeDuplicationMetric::new().analyze(&m);
    assert_eq!(calculate_similarity_score(&extract_function_pattern(&m.functions[0])), 300_000);
    assert_eq!(r.issues.len(), 0);
    assert_eq!(r.score, 0);
}

#[test]
fn variant_names_and_shared_parameter_signatures() {
    assert_eq!(get_base_name(&['h', 'a', 'n', 'd', 'l', 'e', '1', '2']), vec!['h', 'a', 'n', 'd', 'l', 'e']);
    assert_eq!(get_base_name(&['f', 'o', 'o', '_', 'o', 'l', 'd']), vec!['f', 'o', 'o']);
    assert_eq!(get_base_name(&['a', 'b', '1']), Vec::<char>::new());
    assert_eq!(get_base_name(&['l', 'o', 'a', 'd', '_', 'v', '2']), vec!['l', 'o', 'a', 'd']);
    let m = model(
        vec![
            unit("handleClick1", 1, 2, 1, 0),
            unit("handleClick2", 3, 4, 1, 0),
            unit("handleClick3", 5, 6, 1, 0),
            unit("render", 7, 8, 1, 0),
        ],
        0,
        8,
        LanguageType::JavaScript,
    );
    let r = CodeDuplicationMetric::new().analyze(&m);
    let kinds: Vec<IssueKind> = r.issues.iter().map(|i| i.kind).collect();
    assert_eq!(kinds, vec![IssueKind::DuplicateNamingPattern, IssueKind::DuplicateParameterSignature]);
    assert_eq!(r.issues[0].subject, "handleClick");
    assert_eq!(r.issues[0].observed, 3);
    assert_eq!(r.issues[1].observed, 4);
    // penalty: 0.3 × 3 + 0.2 × 4 = 1.7, over 4 units: 0.425; × 0.6
    assert_eq!(r.score, 255_000);
}

#[test]
fn mul_div_is_exact() {
    assert_eq!(mul_div(1, 400_000, 3), 133_333);
    assert_eq!(mul_div(u128::MAX, 400_000, u128::MAX), 400_000);
    assert_eq!(mul_div(u128::MAX / 2, 2, u128::MAX), 0);
}

fn file(path: &str, score: u64, lines: usize) -> FileAnalysisData {
    let m = model(vec![], 0, lines, LanguageType::Go);
    let mut d = analyze_model(path.to_string(), &m);
    for r in d.metrics.iter_mut() {
        r.score = score;
    }
    d
}

#[test]
fn uniform_files_give_their_score() {
    let files = vec![file("a.go", 250_000, 10), file("b.go", 250_000, 20), file("c.go", 250_000, 5)];
    let r = aggregate_results(&files);
    assert_eq!(r.code_quality_score, 250_000);
    assert_eq!(r.total_files, 3);
    assert_eq!(r.total_lines, 35);
    assert!(!r.is_empty);
    for m in &r.metrics {
        assert_eq!(m.score, 250_000);
    }
}

#[test]
fn aggregation_ignores_completion_order() {
    let mk = || vec![file("a.go", 100_000, 10), file("b.go", 700_000, 20), file("c.go", 333_333, 7)];
    let forward = aggregate_results(&mk());
    let mut rev = mk();
    rev.reverse();
    let backward = aggregate_results(&rev);
    assert_eq!(forward.code_quality_score, backward.code_quality_score);
    assert_eq!(forward.total_lines, backward.total_lines);
    for (x, y) in forward.metrics.iter().zip(backward.metrics.iter()) {
        assert_eq!(x.score, y.score);
        assert_eq!(x.kind, y.kind);
    }
    assert_eq!(forward.files_analyzed[0].file_path, "a.go");
    assert_eq!(backward.files_analyzed[0].file_path, "c.go");
}

#[test]
fn empty_project_result() {
    let r = create_empty_result();
    assert!(r.is_empty);
    assert_eq!(r.code_quality_score, 0);
    assert_eq!(aggregate_results(&vec![]).is_empty, true);
}

#[test]
fn file_scores_stay_in_range() {
    let src = "def tmp(a, b, c, d, e, f, g, h, i):\n    if a and b or c:\n        pass\n";
    let d = analyze_file("t.py", src);
    assert_eq!(d.metrics.len(), 7);
    for m in &d.metrics {
        assert!(m.score <= SCALE);
    }
    let s = calculate_score(&d.metrics);
    assert!(s <= SCALE);
    let ms = analyze_metrics(&model(vec![], 0, 0, LanguageType::Go));
    // complexity 0.4 × 30, comments 0.9 × 15, naming 0.4 × 8, structure 0.4 × 15
    assert_eq!(calculate_score(&ms), (400_000 * 30 + 900_000 * 15 + 400_000 * 8 + 400_000 * 15) / 113);
    assert_eq!(MetricResult::new(MetricKind::CommentRatio, 5 * SCALE, 15, String::new(), vec![]).score, SCALE);
}

#[test]
fn outcomes_split_into_data_and_failures() {
    let outcomes = vec![
        Ok(file("a.go", 1, 1)),
        Err(AppError::Io("b.go: denied".to_string())),
        Ok(file("c.go", 2, 2)),
    ];
    let (ok, failed) = split_outcomes(outcomes);
    assert_eq!(ok.len(), 2);
    assert_eq!(ok[1].path, "c.go");
    assert_eq!(failed.len(), 1);
    assert_eq!(failed[0].message(), "I/O error: b.go: denied");
}

#[test]
fn weighted_score_is_score_times_weight() {
    let m = MetricResult::new(MetricKind::FunctionLength, 250_000, 20, String::new(), vec![]);
    assert_eq!(m.weighted_score(), 5_000_000);
}

#[test]
fn group_issue_lists_members_sorted() {
    let m = model(
        vec![unit("processBeta", 201, 301, 21, 0), unit("processAlpha", 1, 101, 21, 0)],
        0,
        301,
        LanguageType::Java,
    );
    let r = CodeDuplicationMetric::new().analyze(&m);
    assert_eq!(r.issues.len(), 1);
    assert_eq!(r.issues[0].kind, IssueKind::DuplicateHighlySimilar);
    assert_eq!(r.issues[0].subject, "processAlpha, processBeta");
    assert_eq!(r.issues[0].observed, SCALE);
    // 0.4 × 101/202 + 0.6 × min(1, 2 × 1.0 / 2)
    assert_eq!(r.score, 800_000);
}

#[test]
fn a_name_that_is_its_own_base_joins_the_group() {
    let m = model(
        vec![unit("handleClick", 1, 2, 1, 0), unit("handleClick1", 3, 4, 2, 1), unit("handleClick2", 5, 6, 3, 2)],
        0,
        6,
        LanguageType::JavaScript,
    );
    let r = CodeDuplicationMetric::new().analyze(&m);
    assert_eq!(r.issues.len(), 1);
    assert_eq!(r.issues[0].kind, IssueKind::DuplicateNamingPattern);
    assert_eq!(r.issues[0].subject, "handleClick");
    assert_eq!(r.issues[0].observed, 3);
}
