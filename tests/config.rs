use code_quality::analysis::{analyze_with, MetricFactory};
use code_quality::config::{
    add_index_excludes, get_default_excludes, get_exclude_patterns, parse_language, AnalysisConfig,
    AppError, Language, OutputConfig, ReportOptions,
};
use code_quality::duplication::extract_function_pattern;
use code_quality::language::{LanguageDetector, LanguageType};
use code_quality::metrics::MetricKind;
use code_quality::model::{BaseParseResult, Function};

#[test]
fn config_defaults() {
    let c = AnalysisConfig::default();
    assert!(c.parallel);
    assert_eq!(c.max_file_size, 10 * 1024 * 1024);
    assert_eq!(c.min_file_size, 1);
    assert!(c.include_patterns.is_empty());
    let o = OutputConfig::default();
    assert_eq!(o.top_files, 5);
    assert_eq!(o.max_issues, 5);
    assert!(!o.markdown_output);
    let r = ReportOptions::from_output(&o);
    assert_eq!(r.top_files, 5);
    assert!(!r.verbose);
}

#[test]
fn languages_by_name() {
    assert_eq!(parse_language("EN-us"), Language::EnUS);
    assert_eq!(parse_language("english"), Language::EnUS);
    assert_eq!(parse_language("zh-CN"), Language::ZhCN);
    assert_eq!(parse_language("fr"), Language::ZhCN);
}

#[test]
fn exclude_patterns_are_assembled_in_order() {
    let d = get_default_excludes();
    assert_eq!(d.len(), 66);
    assert_eq!(d[0], "**/node_modules/**");
    assert_eq!(d[65], "**/tests/**/*.php");
    let user = vec!["**/gen/**".to_string()];
    let p = get_exclude_patterns(&user, true);
    assert_eq!(p.len(), 66 + 1 + 4);
    assert_eq!(p[66], "**/gen/**");
    assert_eq!(p[70], "**/index.tsx");
    assert_eq!(get_exclude_patterns(&user, false).len(), 67);
    let mut q = Vec::new();
    add_index_excludes(&mut q);
    assert_eq!(q, vec!["**/index.js", "**/index.ts", "**/index.jsx", "**/index.tsx"]);
}

#[test]
fn error_messages_and_fatality() {
    let e = AppError::FileNotFound("src".to_string());
    assert!(e.is_fatal());
    assert_eq!(e.message(), "File not found: src");
    assert!(AppError::ConfigError("bad glob".to_string()).is_fatal());
    assert!(!AppError::Io("x".to_string()).is_fatal());
    assert_eq!(AppError::Other("boom".to_string()).message(), "Error: boom");
}

#[test]
fn factory_lists_metrics_in_order() {
    let f = MetricFactory::new();
    let all = f.create_all_metrics();
    assert_eq!(all.len(), 7);
    assert_eq!(all[0], MetricKind::CyclomaticComplexity);
    assert_eq!(all[5], MetricKind::CodeDuplication);
    assert_eq!(all[6], MetricKind::StructureAnalysis);
    assert_eq!(
        f.create_core_metrics(),
        vec![MetricKind::CyclomaticComplexity, MetricKind::FunctionLength, MetricKind::CommentRatio]
    );
    let m = BaseParseResult { functions: vec![], comment_lines: 0, total_lines: 0, language: LanguageType::Go };
    let r = analyze_with(MetricKind::CommentRatio, &m);
    assert_eq!(r.kind, MetricKind::CommentRatio);
    assert_eq!(r.score, 900_000);
}

#[test]
fn supported_extensions_all_map_to_a_language() {
    let exts = LanguageDetector::supported_extensions();
    assert_eq!(exts.len(), 34);
    for e in exts {
        assert_ne!(LanguageType::from_extension(e), LanguageType::Unsupported);
    }
}

#[test]
fn name_style_decides_the_signature() {
    let camel = Function::new("getValue".to_string(), 1, 5, 2, 1);
    let snake = Function::new("get_value".to_string(), 1, 5, 2, 1);
    let flat = Function::new("getvalue".to_string(), 1, 5, 2, 1);
    let (a, b, c) = (extract_function_pattern(&camel), extract_function_pattern(&snake), extract_function_pattern(&flat));
    assert_eq!(a.style, 0);
    assert_eq!(b.style, 1);
    assert_eq!(c.style, 2);
    assert_eq!(a.prefix, 1);
    assert_ne!(a, b);
    assert_eq!(camel.line_count(), 5);
}
