use vstd::prelude::*;

use crate::text::{chars_of, string_of};

verus! {

/// Largest file analysed by default: 10 MiB.
pub const DEFAULT_MAX_FILE_SIZE: usize = 10485760;

/// What a run analyses: glob patterns for the file enumerator, and file size
/// bounds.
#[derive(Debug, Clone)]
pub struct AnalysisConfig {
    pub include_patterns: Vec<String>,
    pub exclude_patterns: Vec<String>,
    pub parallel: bool,
    pub max_file_size: usize,
    pub min_file_size: usize,
}

impl Default for AnalysisConfig {
    /// No patterns, parallel, files of 1 byte up to 10 MiB.
    fn default() -> (r: AnalysisConfig)
        ensures
            r.include_patterns@.len() == 0,
            r.exclude_patterns@.len() == 0,
            r.parallel,
            r.max_file_size == DEFAULT_MAX_FILE_SIZE,
            r.min_file_size == 1,
    {
        AnalysisConfig {
            include_patterns: Vec::new(),
            exclude_patterns: Vec::new(),
            parallel: true,
            max_file_size: DEFAULT_MAX_FILE_SIZE,
            min_file_size: 1,
        }
    }
}

/// How much a report shows.
#[derive(Debug, Clone)]
pub struct OutputConfig {
    pub verbose: bool,
    pub top_files: usize,
    pub max_issues: usize,
    pub summary_only: bool,
    pub markdown_output: bool,
}

impl Default for OutputConfig {
    /// Not verbose, the 5 worst files with up to 5 issues each, full console output.
    fn default() -> (r: OutputConfig)
        ensures
            !r.verbose,
            r.top_files == 5,
            r.max_issues == 5,
            !r.summary_only,
            !r.markdown_output,
    {
        OutputConfig { verbose: false, top_files: 5, max_issues: 5, summary_only: false, markdown_output: false }
    }
}

/// The options a report renderer takes.
#[derive(Debug, Clone)]
pub struct ReportOptions {
    pub verbose: bool,
    pub top_files: usize,
    pub max_issues: usize,
    pub summary_only: bool,
    pub markdown_output: bool,
}

impl ReportOptions {
    /// The report options that an output configuration asks for.
    pub fn from_output(c: &OutputConfig) -> (r: ReportOptions)
        ensures
            r.verbose == c.verbose,
            r.top_files == c.top_files,
            r.max_issues == c.max_issues,
            r.summary_only == c.summary_only,
            r.markdown_output == c.markdown_output,
    {
        ReportOptions {
            verbose: c.verbose,
            top_files: c.top_files,
            max_issues: c.max_issues,
            summary_only: c.summary_only,
            markdown_output: c.markdown_output,
        }
    }
}

/// Errors of a run. Only a missing root path and an invalid filter pattern stop a
/// run; the others concern one file, which is then left out.
#[derive(Debug, Clone)]
pub enum AppError {
    Io(String),
    FileNotFound(String),
    InvalidPath(String),
    ParseError(String),
    ConfigError(String),
    AnalysisError(String),
    Other(String),
}

pub open spec fn error_label(e: AppError) -> Seq<char> {
    match e {
        AppError::Io(_) => "I/O error: "@,
        AppError::FileNotFound(_) => "File not found: "@,
        AppError::InvalidPath(_) => "Invalid path: "@,
        AppError::ParseError(_) => "Parse error: "@,
        AppError::ConfigError(_) => "Configuration error: "@,
        AppError::AnalysisError(_) => "Analysis error: "@,
        AppError::Other(_) => "Error: "@,
    }
}

pub open spec fn error_detail(e: AppError) -> Seq<char> {
    match e {
        AppError::Io(s) => s@,
        AppError::FileNotFound(s) => s@,
        AppError::InvalidPath(s) => s@,
        AppError::ParseError(s) => s@,
        AppError::ConfigError(s) => s@,
        AppError::AnalysisError(s) => s@,
        AppError::Other(s) => s@,
    }
}

impl AppError {
    /// Whether the error stops the whole run rather than one file.
    pub fn is_fatal(&self) -> (r: bool)
        ensures
            r == (self is FileNotFound || self is ConfigError),
    {
        matches!(self, AppError::FileNotFound(_) | AppError::ConfigError(_))
    }

    /// The message for the error: its label, then its detail.
    pub fn message(&self) -> (r: String)
        ensures
            r@ == error_label(*self) + error_detail(*self),
    {
        let (label, detail) = match self {
            AppError::Io(s) => ("I/O error: ", s),
            AppError::FileNotFound(s) => ("File not found: ", s),
            AppError::InvalidPath(s) => ("Invalid path: ", s),
            AppError::ParseError(s) => ("Parse error: ", s),
            AppError::ConfigError(s) => ("Configuration error: ", s),
            AppError::AnalysisError(s) => ("Analysis error: ", s),
            AppError::Other(s) => ("Error: ", s),
        };
        let mut out = chars_of(label);
        let d = chars_of(detail.as_str());
        let ghost head = out@;
        let mut k: usize = 0;
        while k < d.len()
            invariant
                k <= d.len(),
                out@ == head + d@.subrange(0, k as int),
            decreases d.len() - k,
        {
            out.push(d[k]);
            assert(d@.subrange(0, k + 1) =~= d@.subrange(0, k as int).push(d@[k as int]));
            k = k + 1;
        }
        assert(d@.subrange(0, d.len() as int) =~= d@);
        string_of(out.as_slice())
    }
}

/// The interface language of messages.
#[derive(Debug, Clone, Copy, PartialEq, Eq, Structural)]
pub enum Language {
    ZhCN,
    EnUS,
}

/// English for `en`, `en-us` and `english`, case ignored; Chinese otherwise.
pub open spec fn language_named(s: Seq<char>) -> Language {
    let l = crate::text::lower_of(s);
    if l == "en"@ || l == "en-us"@ || l == "english"@ {
        Language::EnUS
    } else {
        Language::ZhCN
    }
}

pub fn parse_language(lang: &str) -> (r: Language)
    ensures
        r == language_named(lang@),
{
    let l = crate::text::lowercase_chars(lang);
    let l = l.as_slice();
    if crate::text::chars_are(l, "en") || crate::text::chars_are(l, "en-us") || crate::text::chars_are(l, "english") {
        Language::EnUS
    } else {
        Language::ZhCN
    }
}

/// The glob patterns excluded from every run: dependency, build, cache, editor and
/// test directories and files.
pub open spec fn default_excludes() -> Seq<Seq<char>> {
    seq![
        "**/node_modules/**"@,
        "**/dist/**"@,
        "**/build/**"@,
        "**/.next/**"@,
        "**/public/assets/**"@,
        "**/out/**"@,
        "**/.cache/**"@,
        "**/.nuxt/**"@,
        "**/.output/**"@,
        "**/coverage/**"@,
        "**/.vscode/**"@,
        "**/.idea/**"@,
        "**/.git/**"@,
        "**/bower_components/**"@,
        "**/*.min.js"@,
        "**/*.bundle.js"@,
        "**/*.chunk.js"@,
        "**/static/js/*.js"@,
        "**/static/css/*.css"@,
        "**/vendor/**"@,
        "**/bin/**"@,
        "**/obj/**"@,
        "**/target/**"@,
        "**/__pycache__/**"@,
        "**/*.pyc"@,
        "**/venv/**"@,
        "**/.env/**"@,
        "**/migrations/**"@,
        "**/generated/**"@,
        "**/logs/**"@,
        "**/tmp/**"@,
        "**/temp/**"@,
        "**/test-results/**"@,
        "**/testdata/**"@,
        "**/target/**"@,
        "**/Cargo.lock"@,
        "**/src-tauri/target/**"@,
        "**/vendor/**"@,
        "**/composer.lock"@,
        "**/.phpunit.cache/**"@,
        "**/storage/logs/**"@,
        "**/storage/cache/**"@,
        "**/bootstrap/cache/**"@,
        "**/*.min.css"@,
        "**/*.min.js"@,
        "**/*.bundle.css"@,
        "**/*.chunk.css"@,
        "**/*_test.go"@,
        "**/test_*.py"@,
        "**/*_test.py"@,
        "**/tests/**/*.py"@,
        "**/*.spec.js"@,
        "**/*.test.js"@,
        "**/__tests__/**"@,
        "**/*.spec.ts"@,
        "**/*.test.ts"@,
        "**/src/test/**/*.java"@,
        "**/*Test.java"@,
        "**/*_test.c"@,
        "**/*_test.cpp"@,
        "**/tests/**"@,
        "**/*_test.rs"@,
        "**/test_*.rs"@,
        "**/*Test.php"@,
        "**/*_test.php"@,
        "**/tests/**/*.php"@,
    ]
}

/// Patterns that leave out `index` modules of JavaScript and TypeScript.
pub open spec fn index_excludes() -> Seq<Seq<char>> {
    seq!["**/index.js"@, "**/index.ts"@, "**/index.jsx"@, "**/index.tsx"@]
}

pub open spec fn strings_view(v: Seq<String>) -> Seq<Seq<char>> {
    v.map_values(|s: String| s@)
}

fn push_all(out: &mut Vec<String>, items: &Vec<&'static str>)
    ensures
        strings_view(final(out)@) == strings_view(old(out)@) + items@.map_values(|s: &str| s@),
{
    let ghost first = strings_view(out@);
    let ghost iv = items@.map_values(|s: &str| s@);
    let mut k: usize = 0;
    while k < items.len()
        invariant
            k <= items.len(),
            iv == items@.map_values(|s: &str| s@),
            strings_view(out@) == first + iv.subrange(0, k as int),
        decreases items.len() - k,
    {
        let ghost before = out@;
        out.push(items[k].to_string());
        assert(strings_view(out@) =~= strings_view(before).push(items@[k as int]@));
        assert(iv.subrange(0, k + 1) =~= iv.subrange(0, k as int).push(iv[k as int]));
        k = k + 1;
    }
    assert(iv.subrange(0, items.len() as int) =~= iv);
}

/// The default exclude patterns.
pub fn get_default_excludes() -> (r: Vec<String>)
    ensures
        strings_view(r@) == default_excludes(),
{
    let items = vec![
        "**/node_modules/**",
        "**/dist/**",
        "**/build/**",
        "**/.next/**",
        "**/public/assets/**",
        "**/out/**",
        "**/.cache/**",
        "**/.nuxt/**",
        "**/.output/**",
        "**/coverage/**",
        "**/.vscode/**",
        "**/.idea/**",
        "**/.git/**",
        "**/bower_components/**",
        "**/*.min.js",
        "**/*.bundle.js",
        "**/*.chunk.js",
        "**/static/js/*.js",
        "**/static/css/*.css",
        "**/vendor/**",
        "**/bin/**",
        "**/obj/**",
        "**/target/**",
        "**/__pycache__/**",
        "**/*.pyc",
        "**/venv/**",
        "**/.env/**",
        "**/migrations/**",
        "**/generated/**",
        "**/logs/**",
        "**/tmp/**",
        "**/temp/**",
        "**/test-results/**",
        "**/testdata/**",
        "**/target/**",
        "**/Cargo.lock",
        "**/src-tauri/target/**",
        "**/vendor/**",
        "**/composer.lock",
        "**/.phpunit.cache/**",
        "**/storage/logs/**",
        "**/storage/cache/**",
        "**/bootstrap/cache/**",
        "**/*.min.css",
        "**/*.min.js",
        "**/*.bundle.css",
        "**/*.chunk.css",
        "**/*_test.go",
        "**/test_*.py",
        "**/*_test.py",
        "**/tests/**/*.py",
        "**/*.spec.js",
        "**/*.test.js",
        "**/__tests__/**",
        "**/*.spec.ts",
        "**/*.test.ts",
        "**/src/test/**/*.java",
        "**/*Test.java",
        "**/*_test.c",
        "**/*_test.cpp",
        "**/tests/**",
        "**/*_test.rs",
        "**/test_*.rs",
        "**/*Test.php",
        "**/*_test.php",
        "**/tests/**/*.php",
    ];
    assert(items@.map_values(|s: &str| s@) =~= default_excludes());
    let mut r: Vec<String> = Vec::new();
    assert(strings_view(r@) =~= Seq::<Seq<char>>::empty());
    push_all(&mut r, &items);
    assert(Seq::<Seq<char>>::empty() + default_excludes() =~= default_excludes());
    r
}

/// Adds the patterns that leave out `index` modules.
pub fn add_index_excludes(patterns: &mut Vec<String>)
    ensures
        strings_view(final(patterns)@) == strings_view(old(patterns)@) + index_excludes(),
{
    let items = vec!["**/index.js", "**/index.ts", "**/index.jsx", "**/index.tsx"];
    assert(items@.map_values(|s: &str| s@) =~= index_excludes());
    push_all(patterns, &items);
}

/// The exclude patterns of a run: the defaults, then the user's, then the `index`
/// patterns where those modules are skipped.
pub fn get_exclude_patterns(user: &Vec<String>, skip_index: bool) -> (r: Vec<String>)
    ensures
        strings_view(r@) == default_excludes() + strings_view(user@) + if skip_index {
            index_excludes()
        } else {
            Seq::empty()
        },
{
    let mut r = get_default_excludes();
    let ghost first = strings_view(r@);
    let mut k: usize = 0;
    while k < user.len()
        invariant
            k <= user.len(),
            strings_view(r@) == first + strings_view(user@).subrange(0, k as int),
        decreases user.len() - k,
    {
        let ghost before = r@;
        r.push(user[k].clone());
        assert(strings_view(r@) =~= strings_view(before).push(user@[k as int]@));
        assert(strings_view(user@).subrange(0, k + 1) =~= strings_view(user@).subrange(0, k as int).push(user@[k as int]@));
        k = k + 1;
    }
    assert(strings_view(user@).subrange(0, user.len() as int) =~= strings_view(user@));
    if skip_index {
        add_index_excludes(&mut r);
    } else {
        assert(strings_view(r@) =~= strings_view(r@) + Seq::<Seq<char>>::empty());
    }
    r
}

} // verus!
