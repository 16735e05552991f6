use vstd::prelude::*;

use crate::language::{language_of_path, LanguageDetector, LanguageType};
use crate::model::{unit_wf, units_view, BaseParseResult, Function, UnitView};
use crate::scan::{c_comment_count, count_c_comments, count_py_comments, pats_view, py_comment_count};
use crate::text::{
    captures_of, captures_view, chars_are, chars_of, contains, contains_exec, split_lines,
    split_lines_exec, total_chars, trim, trim_exec, view_lines,
};
use crate::units::{
    detect_with_rule, opt_seq, opt_unit_view, rule_unit, rule_unit_exec, rule_units, EndRule,
    RuleView, SignatureRule,
};

verus! {

// ---------------------------------------------------------------------------
// Shared extraction
// ---------------------------------------------------------------------------

/// The lines of `content`, with the bound that brace scanning needs.
pub fn lines_of(content: &str) -> (r: Vec<Vec<char>>)
    ensures
        view_lines(r@) == split_lines(content@),
        total_chars(view_lines(r@)) <= usize::MAX,
{
    let cs = chars_of(content);
    let n = cs.len();
    assert(n == content@.len());
    split_lines_exec(cs.as_slice())
}

/// Comment lines of a file, by the Python rules or by the C-like ones.
pub open spec fn comment_count(lines: Seq<Seq<char>>, python: bool) -> nat {
    if python {
        py_comment_count(lines, None)
    } else {
        c_comment_count(lines, false)
    }
}

/// The unit model of `content` under one signature rule.
pub open spec fn rule_model(
    r: BaseParseResult,
    content: Seq<char>,
    rule: RuleView,
    python: bool,
    language: LanguageType,
) -> bool {
    let lines = split_lines(content);
    &&& units_view(r.functions@) == rule_units(lines, rule)
    &&& r.comment_lines == comment_count(lines, python)
    &&& r.total_lines == lines.len()
    &&& r.language == language
    &&& r.wf()
}

fn extract_with_rule(
    content: &str,
    rule: &SignatureRule,
    python: bool,
    language: LanguageType,
) -> (r: BaseParseResult)
    ensures
        rule_model(r, content@, rule@, python, language),
{
    let lines = lines_of(content);
    let functions = detect_with_rule(lines.as_slice(), rule);
    let comment_lines = if python {
        count_py_comments(lines.as_slice())
    } else {
        count_c_comments(lines.as_slice())
    };
    BaseParseResult { functions, comment_lines, total_lines: lines.len(), language }
}

// ---------------------------------------------------------------------------
// Keyword sets
// ---------------------------------------------------------------------------

pub open spec fn c_keywords() -> Seq<Seq<char>> {
    seq![" if "@, " else "@, " for "@, " while "@, " do "@, " switch "@, " case "@, " && "@, " || "@, " ? "@]
}

fn c_keyword_list() -> (r: Vec<&'static str>)
    ensures
        pats_view(r@) == c_keywords(),
{
    let r = vec![" if ", " else ", " for ", " while ", " do ", " switch ", " case ", " && ", " || ", " ? "];
    assert(pats_view(r@) =~= c_keywords());
    r
}

pub open spec fn go_keywords() -> Seq<Seq<char>> {
    seq![" if "@, " else "@, " for "@, " switch "@, " case "@, " && "@, " || "@]
}

fn go_keyword_list() -> (r: Vec<&'static str>)
    ensures
        pats_view(r@) == go_keywords(),
{
    let r = vec![" if ", " else ", " for ", " switch ", " case ", " && ", " || "];
    assert(pats_view(r@) =~= go_keywords());
    r
}

pub open spec fn java_keywords() -> Seq<Seq<char>> {
    seq![" if "@, " else "@, " for "@, " while "@, " switch "@, " case "@, " catch "@, " && "@, " || "@]
}

fn java_keyword_list() -> (r: Vec<&'static str>)
    ensures
        pats_view(r@) == java_keywords(),
{
    let r = vec![" if ", " else ", " for ", " while ", " switch ", " case ", " catch ", " && ", " || "];
    assert(pats_view(r@) =~= java_keywords());
    r
}

pub open spec fn csharp_keywords() -> Seq<Seq<char>> {
    seq![
        " if "@,
        " else "@,
        " for "@,
        " foreach "@,
        " while "@,
        " do "@,
        " switch "@,
        " case "@,
        " catch "@,
        " && "@,
        " || "@,
        " ?? "@,
        " ? "@,
    ]
}

fn csharp_keyword_list() -> (r: Vec<&'static str>)
    ensures
        pats_view(r@) == csharp_keywords(),
{
    let r = vec![
        " if ",
        " else ",
        " for ",
        " foreach ",
        " while ",
        " do ",
        " switch ",
        " case ",
        " catch ",
        " && ",
        " || ",
        " ?? ",
        " ? ",
    ];
    assert(pats_view(r@) =~= csharp_keywords());
    r
}

pub open spec fn python_keywords() -> Seq<Seq<char>> {
    seq![" if "@, " elif "@, " else:"@, " for "@, " while "@, " except "@, " finally:"@, " and "@, " or "@]
}

fn python_keyword_list() -> (r: Vec<&'static str>)
    ensures
        pats_view(r@) == python_keywords(),
{
    let r = vec![" if ", " elif ", " else:", " for ", " while ", " except ", " finally:", " and ", " or "];
    assert(pats_view(r@) =~= python_keywords());
    r
}

pub open spec fn js_keywords() -> Seq<Seq<char>> {
    seq![" if "@, " else "@, " for "@, " while "@, " switch "@, " case "@, " catch "@, "&&"@, "||"@, "?"@]
}

fn js_keyword_list() -> (r: Vec<&'static str>)
    ensures
        pats_view(r@) == js_keywords(),
{
    let r = vec![" if ", " else ", " for ", " while ", " switch ", " case ", " catch ", "&&", "||", "?"];
    assert(pats_view(r@) =~= js_keywords());
    r
}

pub open spec fn generic_keywords() -> Seq<Seq<char>> {
    seq![
        "if"@,
        "else"@,
        "for"@,
        "while"@,
        "switch"@,
        "case"@,
        "catch"@,
        "match"@,
        "loop"@,
        "elif"@,
        "except"@,
        "finally"@,
        "&&"@,
        "||"@,
        "?"@,
    ]
}

fn generic_keyword_list() -> (r: Vec<&'static str>)
    ensures
        pats_view(r@) == generic_keywords(),
{
    let r = vec![
        "if",
        "else",
        "for",
        "while",
        "switch",
        "case",
        "catch",
        "match",
        "loop",
        "elif",
        "except",
        "finally",
        "&&",
        "||",
        "?",
    ];
    assert(pats_view(r@) =~= generic_keywords());
    r
}

// ---------------------------------------------------------------------------
// Signature patterns
// ---------------------------------------------------------------------------

pub const C_SIGNATURE: &'static str = r"([\w\*]+\s+)+([a-zA-Z_][a-zA-Z0-9_]*)\s*\(([^;]*)\)\s*\{";

pub const GO_SIGNATURE: &'static str = r"func\s+(?:\([^)]*\)\s+)?([a-zA-Z_][a-zA-Z0-9_]*)\s*\(([^)]*)\)";

/// Java method signatures. `<` and `>` stand unescaped in the class: the regex
/// syntax reads `\<` and `\>` as word boundaries.
pub const JAVA_SIGNATURE: &'static str = r"(?:public|private|protected|static|\s)+[\w<>\[\]]+\s+([\w]+)\s*\(([^\)]*)\)\s*(?:\{|throws)";

pub const CSHARP_SIGNATURE: &'static str = r"^\s*(?:(?:public|private|protected|internal|static|virtual|override|abstract|sealed|async)\s+)*([a-zA-Z_][a-zA-Z0-9_<>\[\]]*(?:\?)?)\s+([a-zA-Z_][a-zA-Z0-9_]*)\s*\(([^)]*)\)\s*(?:\{|=>)";

pub const PYTHON_SIGNATURE: &'static str = r"^\s*def\s+([a-zA-Z_][a-zA-Z0-9_]*)\s*\(([^)]*)\)";

pub const JS_FUNCTION: &'static str = r"function\s+([a-zA-Z_$][a-zA-Z0-9_$]*)\s*\(";

pub const JS_ARROW: &'static str = r"(?:const|let|var)\s+([a-zA-Z_$][a-zA-Z0-9_$]*)\s*=\s*\([^)]*\)\s*=>";

pub const JS_ASSIGNED: &'static str = r"([a-zA-Z_$][a-zA-Z0-9_$]*)\s*=\s*function\s*\(";

pub const JS_METHOD: &'static str = r"^\s*([a-zA-Z_$][a-zA-Z0-9_$]*)\s*\([^)]*\)\s*\{";

pub const GENERIC_JS_SIGNATURE: &'static str = r"(?:function\s+([a-zA-Z_$][a-zA-Z0-9_$]*)|([a-zA-Z_$][a-zA-Z0-9_$]*)\s*=\s*function|([a-zA-Z_$][a-zA-Z0-9_$]*)\s*:\s*function|(?:const|let|var)\s+([a-zA-Z_$][a-zA-Z0-9_$]*)\s*=\s*\([^)]*\)\s*=>)";

pub const GENERIC_SIGNATURE: &'static str = r"(?:function|def|void|int|bool|string|double|float)\s+([a-zA-Z_][a-zA-Z0-9_]*)\s*\(";

// ---------------------------------------------------------------------------
// Rules
// ---------------------------------------------------------------------------

pub open spec fn c_rule() -> RuleView {
    RuleView {
        pattern: C_SIGNATURE@,
        name_group: 2,
        params_group: 3,
        void_is_empty: true,
        end: EndRule::Brace,
        keywords: c_keywords(),
        brace_line_only: true,
    }
}

pub open spec fn go_rule() -> RuleView {
    RuleView {
        pattern: GO_SIGNATURE@,
        name_group: 1,
        params_group: 2,
        void_is_empty: false,
        end: EndRule::Brace,
        keywords: go_keywords(),
        brace_line_only: false,
    }
}

pub open spec fn java_rule() -> RuleView {
    RuleView {
        pattern: JAVA_SIGNATURE@,
        name_group: 1,
        params_group: 2,
        void_is_empty: false,
        end: EndRule::Brace,
        keywords: java_keywords(),
        brace_line_only: false,
    }
}

pub open spec fn csharp_rule() -> RuleView {
    RuleView {
        pattern: CSHARP_SIGNATURE@,
        name_group: 2,
        params_group: 3,
        void_is_empty: false,
        end: EndRule::ArrowOrBrace,
        keywords: csharp_keywords(),
        brace_line_only: false,
    }
}

pub open spec fn python_rule() -> RuleView {
    RuleView {
        pattern: PYTHON_SIGNATURE@,
        name_group: 1,
        params_group: 2,
        void_is_empty: false,
        end: EndRule::Indent,
        keywords: python_keywords(),
        brace_line_only: false,
    }
}

pub open spec fn js_rule(pattern: Seq<char>) -> RuleView {
    RuleView {
        pattern,
        name_group: 1,
        params_group: 0,
        void_is_empty: false,
        end: EndRule::Brace,
        keywords: js_keywords(),
        brace_line_only: false,
    }
}

/// The signature pattern that the fallback extractor uses for a language.
pub open spec fn generic_pattern(l: LanguageType) -> Seq<char> {
    match l {
        LanguageType::JavaScript | LanguageType::TypeScript => GENERIC_JS_SIGNATURE@,
        LanguageType::Python => PYTHON_SIGNATURE@,
        LanguageType::Java => JAVA_SIGNATURE@,
        LanguageType::Go => GO_SIGNATURE@,
        _ => GENERIC_SIGNATURE@,
    }
}

pub open spec fn generic_rule(l: LanguageType) -> RuleView {
    RuleView {
        pattern: generic_pattern(l),
        name_group: 0,
        params_group: 0,
        void_is_empty: false,
        end: if l == LanguageType::Python {
            EndRule::Indent
        } else {
            EndRule::Brace
        },
        keywords: generic_keywords(),
        brace_line_only: false,
    }
}

fn make_rule(
    pattern: &'static str,
    name_group: usize,
    params_group: usize,
    void_is_empty: bool,
    end: EndRule,
    keywords: Vec<&'static str>,
    brace_line_only: bool,
) -> (r: SignatureRule)
    ensures
        r@ == (RuleView {
            pattern: pattern@,
            name_group: name_group as nat,
            params_group: params_group as nat,
            void_is_empty,
            end,
            keywords: pats_view(keywords@),
            brace_line_only,
        }),
{
    SignatureRule { pattern, name_group, params_group, void_is_empty, end, keywords, brace_line_only }
}

// ---------------------------------------------------------------------------
// Extractors
// ---------------------------------------------------------------------------

/// Extractor for C and C++.
pub struct CParser;

impl CParser {
    pub fn new() -> (r: CParser) {
        CParser
    }

    /// The unit model of a C or C++ file: signatures on lines that end with `{`,
    /// bodies closed by brace counting from the signature line.
    pub fn parse(&self, file_path: &str, content: &str) -> (r: BaseParseResult)
        ensures
            rule_model(r, content@, c_rule(), false, language_of_path(file_path@)),
    {
        let language = LanguageDetector::new().detect_language(file_path);
        let rule = make_rule(C_SIGNATURE, 2, 3, true, EndRule::Brace, c_keyword_list(), true);
        extract_with_rule(content, &rule, false, language)
    }

    pub fn supported_languages(&self) -> (r: Vec<LanguageType>)
        ensures
            r@ == seq![LanguageType::C, LanguageType::CPlusPlus],
    {
        let r = vec![LanguageType::C, LanguageType::CPlusPlus];
        assert(r@ =~= seq![LanguageType::C, LanguageType::CPlusPlus]);
        r
    }
}

/// Extractor for Go.
pub struct GoParser;

impl GoParser {
    pub fn new() -> (r: GoParser) {
        GoParser
    }

    /// The unit model of a Go file.
    pub fn parse(&self, file_path: &str, content: &str) -> (r: BaseParseResult)
        ensures
            rule_model(r, content@, go_rule(), false, LanguageType::Go),
    {
        let rule = make_rule(GO_SIGNATURE, 1, 2, false, EndRule::Brace, go_keyword_list(), false);
        extract_with_rule(content, &rule, false, LanguageType::Go)
    }

    pub fn supported_languages(&self) -> (r: Vec<LanguageType>)
        ensures
            r@ == seq![LanguageType::Go],
    {
        let r = vec![LanguageType::Go];
        assert(r@ =~= seq![LanguageType::Go]);
        r
    }
}

/// Extractor for Java.
pub struct JavaParser;

impl JavaParser {
    pub fn new() -> (r: JavaParser) {
        JavaParser
    }

    /// The unit model of a Java file.
    pub fn parse(&self, file_path: &str, content: &str) -> (r: BaseParseResult)
        ensures
            rule_model(r, content@, java_rule(), false, LanguageType::Java),
    {
        let rule = make_rule(JAVA_SIGNATURE, 1, 2, false, EndRule::Brace, java_keyword_list(), false);
        extract_with_rule(content, &rule, false, LanguageType::Java)
    }

    pub fn supported_languages(&self) -> (r: Vec<LanguageType>)
        ensures
            r@ == seq![LanguageType::Java],
    {
        let r = vec![LanguageType::Java];
        assert(r@ =~= seq![LanguageType::Java]);
        r
    }
}

/// Extractor for C#.
pub struct CSharpParser;

impl CSharpParser {
    pub fn new() -> (r: CSharpParser) {
        CSharpParser
    }

    /// The unit model of a C# file: expression-bodied members end at their first
    /// `;`.
    pub fn parse(&self, file_path: &str, content: &str) -> (r: BaseParseResult)
        ensures
            rule_model(r, content@, csharp_rule(), false, LanguageType::CSharp),
    {
        let rule = make_rule(
            CSHARP_SIGNATURE,
            2,
            3,
            false,
            EndRule::ArrowOrBrace,
            csharp_keyword_list(),
            false,
        );
        extract_with_rule(content, &rule, false, LanguageType::CSharp)
    }

    pub fn supported_languages(&self) -> (r: Vec<LanguageType>)
        ensures
            r@ == seq![LanguageType::CSharp],
    {
        let r = vec![LanguageType::CSharp];
        assert(r@ =~= seq![LanguageType::CSharp]);
        r
    }
}

/// Extractor for Python.
pub struct PythonParser;

impl PythonParser {
    pub fn new() -> (r: PythonParser) {
        PythonParser
    }

    /// The unit model of a Python file: units end by indentation, and `#` lines
    /// and doc strings are comments.
    pub fn parse(&self, file_path: &str, content: &str) -> (r: BaseParseResult)
        ensures
            rule_model(r, content@, python_rule(), true, LanguageType::Python),
    {
        let rule = make_rule(PYTHON_SIGNATURE, 1, 2, false, EndRule::Indent, python_keyword_list(), false);
        extract_with_rule(content, &rule, true, LanguageType::Python)
    }

    pub fn supported_languages(&self) -> (r: Vec<LanguageType>)
        ensures
            r@ == seq![LanguageType::Python],
    {
        let r = vec![LanguageType::Python];
        assert(r@ =~= seq![LanguageType::Python]);
        r
    }
}

/// Fallback extractor for any other language: a permissive signature pattern
/// chosen by language family, indentation ends for Python and brace ends otherwise.
pub struct GenericParser;

impl GenericParser {
    pub fn new() -> (r: GenericParser) {
        GenericParser
    }

    fn pattern_for(language: LanguageType) -> (r: &'static str)
        ensures
            r@ == generic_pattern(language),
    {
        match language {
            LanguageType::JavaScript | LanguageType::TypeScript => GENERIC_JS_SIGNATURE,
            LanguageType::Python => PYTHON_SIGNATURE,
            LanguageType::Java => JAVA_SIGNATURE,
            LanguageType::Go => GO_SIGNATURE,
            _ => GENERIC_SIGNATURE,
        }
    }

    /// The unit model of a file in the language its path gives.
    pub fn parse(&self, file_path: &str, content: &str) -> (r: BaseParseResult)
        ensures
            rule_model(
                r,
                content@,
                generic_rule(language_of_path(file_path@)),
                language_of_path(file_path@) == LanguageType::Python,
                language_of_path(file_path@),
            ),
    {
        let language = LanguageDetector::new().detect_language(file_path);
        let python = matches!(language, LanguageType::Python);
        let end = if python {
            EndRule::Indent
        } else {
            EndRule::Brace
        };
        let rule = make_rule(Self::pattern_for(language), 0, 0, false, end, generic_keyword_list(), false);
        extract_with_rule(content, &rule, python, language)
    }

    pub fn supported_languages(&self) -> (r: Vec<LanguageType>)
        ensures
            r@ == seq![LanguageType::Unsupported],
    {
        let r = vec![LanguageType::Unsupported];
        assert(r@ =~= seq![LanguageType::Unsupported]);
        r
    }
}

// ---------------------------------------------------------------------------
// JavaScript and TypeScript
// ---------------------------------------------------------------------------

/// A line that opens a class body.
pub open spec fn class_open(l: Seq<char>) -> bool {
    contains(l, "class "@) && contains(l, "{"@)
}

/// A line that holds only a closing brace.
pub open spec fn class_close(l: Seq<char>) -> bool {
    trim(l) == "}"@
}

/// Whether a class body is open after the first `n` lines.
pub open spec fn in_class_after(lines: Seq<Seq<char>>, n: int) -> bool
    decreases n,
{
    if n <= 0 {
        false
    } else if class_open(lines[n - 1]) {
        true
    } else if in_class_after(lines, n - 1) && class_close(lines[n - 1]) {
        false
    } else {
        in_class_after(lines, n - 1)
    }
}

/// The method found on line `i` inside a class body, other than a constructor.
pub open spec fn js_method(lines: Seq<Seq<char>>, i: int) -> Option<UnitView> {
    if class_open(lines[i]) || !in_class_after(lines, i) || class_close(lines[i]) {
        None
    } else {
        match rule_unit(lines, i, js_rule(JS_METHOD@)) {
            Some(u) => if u.name == "constructor"@ {
                None
            } else {
                Some(u)
            },
            None => None,
        }
    }
}

/// The units that start on line `i`: a `function` declaration, an arrow function
/// bound by `const`/`let`/`var`, a function expression assigned to a name, and a
/// class method, in that order.
pub open spec fn js_line_units(lines: Seq<Seq<char>>, i: int) -> Seq<UnitView> {
    opt_seq(rule_unit(lines, i, js_rule(JS_FUNCTION@))) + opt_seq(
        rule_unit(lines, i, js_rule(JS_ARROW@)),
    ) + opt_seq(rule_unit(lines, i, js_rule(JS_ASSIGNED@))) + opt_seq(js_method(lines, i))
}

pub open spec fn js_units_upto(lines: Seq<Seq<char>>, n: int) -> Seq<UnitView>
    decreases n,
{
    if n <= 0 {
        seq![]
    } else {
        js_units_upto(lines, n - 1) + js_line_units(lines, n - 1)
    }
}

/// The units of a JavaScript file, ordered by start line.
pub open spec fn js_units(lines: Seq<Seq<char>>) -> Seq<UnitView> {
    js_units_upto(lines, lines.len() as int)
}

pub open spec fn js_model(r: BaseParseResult, content: Seq<char>, language: LanguageType) -> bool {
    let lines = split_lines(content);
    &&& units_view(r.functions@) == js_units(lines)
    &&& r.comment_lines == c_comment_count(lines, false)
    &&& r.total_lines == lines.len()
    &&& r.language == language
    &&& r.wf()
}

fn push_found(out: &mut Vec<Function>, f: Option<Function>, n: usize)
    requires
        forall|k: int| 0 <= k < old(out)@.len() ==> unit_wf(#[trigger] old(out)@[k]@, n as nat),
        f matches Some(u) ==> unit_wf(u@, n as nat),
    ensures
        units_view(final(out)@) == units_view(old(out)@) + match f {
            Some(u) => seq![u@],
            None => Seq::<UnitView>::empty(),
        },
        forall|k: int| 0 <= k < final(out)@.len() ==> unit_wf(#[trigger] final(out)@[k]@, n as nat),
{
    match f {
        Some(u) => {
            let ghost before = out@;
            out.push(u);
            assert(units_view(out@) =~= units_view(before) + seq![u@]);
        },
        None => {
            assert(units_view(out@) =~= units_view(out@) + Seq::<UnitView>::empty());
        },
    }
}

fn js_extract(content: &str, language: LanguageType) -> (r: BaseParseResult)
    ensures
        js_model(r, content@, language),
{
    let lines = lines_of(content);
    let ls = lines.as_slice();
    let ghost lv = view_lines(lines@);
    let function_rule = make_rule(JS_FUNCTION, 1, 0, false, EndRule::Brace, js_keyword_list(), false);
    let arrow_rule = make_rule(JS_ARROW, 1, 0, false, EndRule::Brace, js_keyword_list(), false);
    let assigned_rule = make_rule(JS_ASSIGNED, 1, 0, false, EndRule::Brace, js_keyword_list(), false);
    let method_rule = make_rule(JS_METHOD, 1, 0, false, EndRule::Brace, js_keyword_list(), false);
    let class_kw = chars_of("class ");
    let brace = chars_of("{");
    let close = chars_of("}");
    let function_caps = crate::text::regex_captures_each(JS_FUNCTION, ls);
    let arrow_caps = crate::text::regex_captures_each(JS_ARROW, ls);
    let assigned_caps = crate::text::regex_captures_each(JS_ASSIGNED, ls);
    let method_caps = crate::text::regex_captures_each(JS_METHOD, ls);
    let mut out: Vec<Function> = Vec::new();
    let mut in_class = false;
    let mut i: usize = 0;
    while i < ls.len()
        invariant
            i <= ls.len(),
            lv == view_lines(ls@),
            total_chars(lv) <= usize::MAX,
            function_rule@ == js_rule(JS_FUNCTION@),
            arrow_rule@ == js_rule(JS_ARROW@),
            assigned_rule@ == js_rule(JS_ASSIGNED@),
            method_rule@ == js_rule(JS_METHOD@),
            class_kw@ == "class "@,
            brace@ == "{"@,
            close@ == "}"@,
            in_class == in_class_after(lv, i as int),
            function_caps@.len() == ls@.len() && arrow_caps@.len() == ls@.len(),
            assigned_caps@.len() == ls@.len() && method_caps@.len() == ls@.len(),
            forall|q: int| 0 <= q < ls@.len() ==> captures_view(#[trigger] function_caps@[q]) == captures_of(JS_FUNCTION@, ls@[q]@),
            forall|q: int| 0 <= q < ls@.len() ==> captures_view(#[trigger] arrow_caps@[q]) == captures_of(JS_ARROW@, ls@[q]@),
            forall|q: int| 0 <= q < ls@.len() ==> captures_view(#[trigger] assigned_caps@[q]) == captures_of(JS_ASSIGNED@, ls@[q]@),
            forall|q: int| 0 <= q < ls@.len() ==> captures_view(#[trigger] method_caps@[q]) == captures_of(JS_METHOD@, ls@[q]@),
            units_view(out@) == js_units_upto(lv, i as int),
            forall|k: int| 0 <= k < out@.len() ==> unit_wf(#[trigger] out@[k]@, ls@.len()),
        decreases ls.len() - i,
    {
        let ghost before = units_view(out@);
        let line = ls[i].as_slice();
        assert(lv[i as int] == line@);
        let f1 = rule_unit_exec(ls, i, &function_rule, &function_caps[i]);
        push_found(&mut out, f1, ls.len());
        let f2 = rule_unit_exec(ls, i, &arrow_rule, &arrow_caps[i]);
        push_found(&mut out, f2, ls.len());
        let f3 = rule_unit_exec(ls, i, &assigned_rule, &assigned_caps[i]);
        push_found(&mut out, f3, ls.len());
        let opens = contains_exec(line, class_kw.as_slice()) && contains_exec(line, brace.as_slice());
        let t = trim_exec(line);
        let closes = crate::text::chars_eq(t.as_slice(), close.as_slice());
        let f4: Option<Function> = if opens || !in_class || closes {
            None
        } else {
            match rule_unit_exec(ls, i, &method_rule, &method_caps[i]) {
                Some(u) => {
                    let nm = chars_of(u.name.as_str());
                    if chars_are(nm.as_slice(), "constructor") {
                        None
                    } else {
                        Some(u)
                    }
                },
                None => None,
            }
        };
        assert(opt_unit_view(f4) == js_method(lv, i as int));
        push_found(&mut out, f4, ls.len());
        assert(units_view(out@) =~= before + js_line_units(lv, i as int));
        if opens {
            in_class = true;
        } else if in_class && closes {
            in_class = false;
        }
        i = i + 1;
    }
    let comment_lines = count_c_comments(ls);
    BaseParseResult { functions: out, comment_lines, total_lines: ls.len(), language }
}

/// Extractor for JavaScript.
pub struct JavaScriptParser;

impl JavaScriptParser {
    pub fn new() -> (r: JavaScriptParser) {
        JavaScriptParser
    }

    /// The unit model of a JavaScript file: see `js_units`.
    pub fn parse(&self, file_path: &str, content: &str) -> (r: BaseParseResult)
        ensures
            js_model(r, content@, LanguageType::JavaScript),
    {
        js_extract(content, LanguageType::JavaScript)
    }

    pub fn supported_languages(&self) -> (r: Vec<LanguageType>)
        ensures
            r@ == seq![LanguageType::JavaScript],
    {
        let r = vec![LanguageType::JavaScript];
        assert(r@ =~= seq![LanguageType::JavaScript]);
        r
    }
}

/// Extractor for TypeScript: the JavaScript rules, under the TypeScript tag.
pub struct TypeScriptParser;

impl TypeScriptParser {
    pub fn new() -> (r: TypeScriptParser) {
        TypeScriptParser
    }

    /// The unit model of a TypeScript file: see `js_units`.
    pub fn parse(&self, file_path: &str, content: &str) -> (r: BaseParseResult)
        ensures
            js_model(r, content@, LanguageType::TypeScript),
    {
        js_extract(content, LanguageType::TypeScript)
    }

    pub fn supported_languages(&self) -> (r: Vec<LanguageType>)
        ensures
            r@ == seq![LanguageType::TypeScript],
    {
        let r = vec![LanguageType::TypeScript];
        assert(r@ =~= seq![LanguageType::TypeScript]);
        r
    }
}

// ---------------------------------------------------------------------------
// Dispatch
// ---------------------------------------------------------------------------

/// An extractor: turns a file's text into a well-formed unit model, never failing.
pub trait Parser {
    fn parse(&self, file_path: &str, content: &str) -> (r: BaseParseResult)
        ensures
            r.wf(),
    ;

    fn supported_languages(&self) -> Vec<LanguageType>;
}

/// One extractor per language family, chosen at a single dispatch point.
pub enum SourceParser {
    C(CParser),
    Go(GoParser),
    JavaScript(JavaScriptParser),
    TypeScript(TypeScriptParser),
    Python(PythonParser),
    Java(JavaParser),
    CSharp(CSharpParser),
    Php(crate::php::PHPParser),
    Html(crate::markup::HTMLParser),
    Css(crate::markup::CSSParser),
    Generic(GenericParser),
}

/// Which extractor a language gets: the fallback for any without one of its own
/// (Rust among them).
pub open spec fn parser_kind(l: LanguageType) -> int {
    match l {
        LanguageType::Go => 1,
        LanguageType::JavaScript => 2,
        LanguageType::TypeScript => 3,
        LanguageType::Python => 4,
        LanguageType::Java => 5,
        LanguageType::C | LanguageType::CPlusPlus => 0,
        LanguageType::CSharp => 6,
        LanguageType::PHP => 8,
        LanguageType::HTML => 9,
        LanguageType::CSS => 10,
        _ => 7,
    }
}

pub open spec fn kind_of(p: SourceParser) -> int {
    match p {
        SourceParser::C(_) => 0,
        SourceParser::Go(_) => 1,
        SourceParser::JavaScript(_) => 2,
        SourceParser::TypeScript(_) => 3,
        SourceParser::Python(_) => 4,
        SourceParser::Java(_) => 5,
        SourceParser::CSharp(_) => 6,
        SourceParser::Php(_) => 8,
        SourceParser::Html(_) => 9,
        SourceParser::Css(_) => 10,
        SourceParser::Generic(_) => 7,
    }
}

/// The languages that extractor `k` lists as its own.
pub open spec fn languages_of_kind(k: int) -> Seq<LanguageType> {
    if k == 0 {
        seq![LanguageType::C, LanguageType::CPlusPlus]
    } else if k == 1 {
        seq![LanguageType::Go]
    } else if k == 2 {
        seq![LanguageType::JavaScript]
    } else if k == 3 {
        seq![LanguageType::TypeScript]
    } else if k == 4 {
        seq![LanguageType::Python]
    } else if k == 5 {
        seq![LanguageType::Java]
    } else if k == 6 {
        seq![LanguageType::CSharp]
    } else if k == 8 {
        seq![LanguageType::PHP]
    } else if k == 9 {
        seq![LanguageType::HTML]
    } else if k == 10 {
        seq![LanguageType::CSS]
    } else {
        seq![LanguageType::Unsupported]
    }
}

/// Every language but Rust, which has no extractor of its own and falls back to
/// the generic one, gets an extractor that lists it.
pub proof fn law_parser_supports_its_language(l: LanguageType)
    requires
        l != LanguageType::Rust,
    ensures
        languages_of_kind(parser_kind(l)).contains(l),
{
    assert(languages_of_kind(parser_kind(l))[0] == l || languages_of_kind(parser_kind(l))[1] == l);
}

/// The unit model that extractor `k` gives for `content` at `path`.
pub open spec fn parsed_as(k: int, r: BaseParseResult, path: Seq<char>, content: Seq<char>) -> bool {
    if k == 0 {
        rule_model(r, content, c_rule(), false, language_of_path(path))
    } else if k == 1 {
        rule_model(r, content, go_rule(), false, LanguageType::Go)
    } else if k == 2 {
        js_model(r, content, LanguageType::JavaScript)
    } else if k == 3 {
        js_model(r, content, LanguageType::TypeScript)
    } else if k == 4 {
        rule_model(r, content, python_rule(), true, LanguageType::Python)
    } else if k == 5 {
        rule_model(r, content, java_rule(), false, LanguageType::Java)
    } else if k == 6 {
        rule_model(r, content, csharp_rule(), false, LanguageType::CSharp)
    } else if k == 8 {
        crate::php::php_model(r, content)
    } else if k == 9 {
        crate::markup::html_model(r, content)
    } else if k == 10 {
        crate::markup::css_model(r, content)
    } else {
        rule_model(
            r,
            content,
            generic_rule(language_of_path(path)),
            language_of_path(path) == LanguageType::Python,
            language_of_path(path),
        )
    }
}

/// The extractor for a language.
pub fn create_parser_for_language(language: LanguageType) -> (r: SourceParser)
    ensures
        kind_of(r) == parser_kind(language),
{
    match language {
        LanguageType::Go => SourceParser::Go(GoParser::new()),
        LanguageType::JavaScript => SourceParser::JavaScript(JavaScriptParser::new()),
        LanguageType::TypeScript => SourceParser::TypeScript(TypeScriptParser::new()),
        LanguageType::Python => SourceParser::Python(PythonParser::new()),
        LanguageType::Java => SourceParser::Java(JavaParser::new()),
        LanguageType::C | LanguageType::CPlusPlus => SourceParser::C(CParser::new()),
        LanguageType::CSharp => SourceParser::CSharp(CSharpParser::new()),
        LanguageType::PHP => SourceParser::Php(crate::php::PHPParser::new()),
        LanguageType::HTML => SourceParser::Html(crate::markup::HTMLParser::new()),
        LanguageType::CSS => SourceParser::Css(crate::markup::CSSParser::new()),
        _ => SourceParser::Generic(GenericParser::new()),
    }
}

/// The extractor for the language of a file path.
pub fn create_parser_for_file(file_path: &str) -> (r: SourceParser)
    ensures
        kind_of(r) == parser_kind(language_of_path(file_path@)),
{
    let language = LanguageDetector::new().detect_language(file_path);
    create_parser_for_language(language)
}

impl Parser for CParser {
    fn parse(&self, file_path: &str, content: &str) -> (r: BaseParseResult) {
        CParser::parse(self, file_path, content)
    }

    fn supported_languages(&self) -> Vec<LanguageType> {
        CParser::supported_languages(self)
    }
}

impl Parser for GoParser {
    fn parse(&self, file_path: &str, content: &str) -> (r: BaseParseResult) {
        GoParser::parse(self, file_path, content)
    }

    fn supported_languages(&self) -> Vec<LanguageType> {
        GoParser::supported_languages(self)
    }
}

impl Parser for JavaParser {
    fn parse(&self, file_path: &str, content: &str) -> (r: BaseParseResult) {
        JavaParser::parse(self, file_path, content)
    }

    fn supported_languages(&self) -> Vec<LanguageType> {
        JavaParser::supported_languages(self)
    }
}

impl Parser for CSharpParser {
    fn parse(&self, file_path: &str, content: &str) -> (r: BaseParseResult) {
        CSharpParser::parse(self, file_path, content)
    }

    fn supported_languages(&self) -> Vec<LanguageType> {
        CSharpParser::supported_languages(self)
    }
}

impl Parser for PythonParser {
    fn parse(&self, file_path: &str, content: &str) -> (r: BaseParseResult) {
        PythonParser::parse(self, file_path, content)
    }

    fn supported_languages(&self) -> Vec<LanguageType> {
        PythonParser::supported_languages(self)
    }
}

impl Parser for GenericParser {
    fn parse(&self, file_path: &str, content: &str) -> (r: BaseParseResult) {
        GenericParser::parse(self, file_path, content)
    }

    fn supported_languages(&self) -> Vec<LanguageType> {
        GenericParser::supported_languages(self)
    }
}

impl Parser for JavaScriptParser {
    fn parse(&self, file_path: &str, content: &str) -> (r: BaseParseResult) {
        JavaScriptParser::parse(self, file_path, content)
    }

    fn supported_languages(&self) -> Vec<LanguageType> {
        JavaScriptParser::supported_languages(self)
    }
}

impl Parser for TypeScriptParser {
    fn parse(&self, file_path: &str, content: &str) -> (r: BaseParseResult) {
        TypeScriptParser::parse(self, file_path, content)
    }

    fn supported_languages(&self) -> Vec<LanguageType> {
        TypeScriptParser::supported_languages(self)
    }
}

impl Parser for crate::php::PHPParser {
    fn parse(&self, file_path: &str, content: &str) -> (r: BaseParseResult) {
        crate::php::PHPParser::parse(self, file_path, content)
    }

    fn supported_languages(&self) -> Vec<LanguageType> {
        crate::php::PHPParser::supported_languages(self)
    }
}

impl Parser for crate::markup::HTMLParser {
    fn parse(&self, file_path: &str, content: &str) -> (r: BaseParseResult) {
        crate::markup::HTMLParser::parse(self, file_path, content)
    }

    fn supported_languages(&self) -> Vec<LanguageType> {
        crate::markup::HTMLParser::supported_languages(self)
    }
}

impl Parser for crate::markup::CSSParser {
    fn parse(&self, file_path: &str, content: &str) -> (r: BaseParseResult) {
        crate::markup::CSSParser::parse(self, file_path, content)
    }

    fn supported_languages(&self) -> Vec<LanguageType> {
        crate::markup::CSSParser::supported_languages(self)
    }
}

impl Parser for SourceParser {
    fn parse(&self, file_path: &str, content: &str) -> (r: BaseParseResult) {
        SourceParser::parse(self, file_path, content)
    }

    fn supported_languages(&self) -> Vec<LanguageType> {
        SourceParser::supported_languages(self)
    }
}

impl SourceParser {
    /// The languages that the chosen extractor handles.
    pub fn supported_languages(&self) -> (r: Vec<LanguageType>)
        ensures
            r@ == languages_of_kind(kind_of(*self)),
    {
        match self {
            SourceParser::C(p) => p.supported_languages(),
            SourceParser::Go(p) => p.supported_languages(),
            SourceParser::JavaScript(p) => p.supported_languages(),
            SourceParser::TypeScript(p) => p.supported_languages(),
            SourceParser::Python(p) => p.supported_languages(),
            SourceParser::Java(p) => p.supported_languages(),
            SourceParser::CSharp(p) => p.supported_languages(),
            SourceParser::Php(p) => p.supported_languages(),
            SourceParser::Html(p) => p.supported_languages(),
            SourceParser::Css(p) => p.supported_languages(),
            SourceParser::Generic(p) => p.supported_languages(),
        }
    }

    /// The unit model of `content`; never fails, whatever the text.
    pub fn parse(&self, file_path: &str, content: &str) -> (r: BaseParseResult)
        ensures
            parsed_as(kind_of(*self), r, file_path@, content@),
            r.wf(),
    {
        match self {
            SourceParser::C(p) => p.parse(file_path, content),
            SourceParser::Go(p) => p.parse(file_path, content),
            SourceParser::JavaScript(p) => p.parse(file_path, content),
            SourceParser::TypeScript(p) => p.parse(file_path, content),
            SourceParser::Python(p) => p.parse(file_path, content),
            SourceParser::Java(p) => p.parse(file_path, content),
            SourceParser::CSharp(p) => p.parse(file_path, content),
            SourceParser::Php(p) => p.parse(file_path, content),
            SourceParser::Html(p) => p.parse(file_path, content),
            SourceParser::Css(p) => p.parse(file_path, content),
            SourceParser::Generic(p) => p.parse(file_path, content),
        }
    }
}

} // verus!
