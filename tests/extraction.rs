use code_quality::language::{LanguageDetector, LanguageType};
use code_quality::markup::CSSParser;
use code_quality::parsers::{
    create_parser_for_file, CParser, Parser, CSharpParser, GenericParser, GoParser, JavaParser,
    JavaScriptParser, PythonParser, TypeScriptParser,
};

#[test]
fn brace_function_spanning_lines_two_to_ten() {
    let src = [
        "package main",
        "func process(items []int) int {",
        "    total := 0",
        "    for _, v := range items {",
        "        if v > 0 {",
        "            total += v",
        "        }",
        "    }",
        "    return total",
        "}",
    ]
    .join("\n");
    let src = src.as_str();
    let r = GoParser::new().parse("main.go", src);
    assert_eq!(r.functions.len(), 1);
    let f = &r.functions[0];
    assert_eq!(f.name, "process");
    assert_eq!(f.start_line, 2);
    assert_eq!(f.end_line, 10);
    assert_eq!(f.complexity, 3);
    assert_eq!(f.parameters, 1);
    assert_eq!(r.total_lines, 10);
}

#[test]
fn python_unit_ends_before_dedent() {
    let src = "def f():\n    a = 1\n    b = 2\n    c = 3\n    d = 4\n    return a\nx = f()\n";
    let r = PythonParser::new().parse("m.py", src);
    assert_eq!(r.functions.len(), 1);
    assert_eq!(r.functions[0].name, "f");
    assert_eq!(r.functions[0].start_line, 1);
    assert_eq!(r.functions[0].end_line, 6);
    assert_eq!(r.functions[0].parameters, 0);
}

#[test]
fn python_unit_runs_to_end_of_file() {
    let src = "def g(a, b):\n    if a:\n        return b\n\n    # note\n    return a\n";
    let r = PythonParser::new().parse("m.py", src);
    assert_eq!(r.functions.len(), 1);
    assert_eq!(r.functions[0].end_line, 6);
    assert_eq!(r.functions[0].parameters, 2);
    assert_eq!(r.functions[0].complexity, 2);
    assert_eq!(r.comment_lines, 1);
}

#[test]
fn python_doc_strings_count_as_comments() {
    let src = "\"\"\"Module\nstill doc\n\"\"\"\n# c\nx = 1\n'''one line'''\n";
    let r = PythonParser::new().parse("m.py", src);
    assert_eq!(r.comment_lines, 5);
    assert_eq!(r.total_lines, 6);
}

#[test]
fn c_function_with_void_parameters() {
    let src = "/* header\n * more\n */\nint main(void) {\n    int x = 0;\n    if (x) {\n        x = 1;\n    }\n    return x;\n}\n// tail\n";
    let r = CParser::new().parse("main.c", src);
    assert_eq!(r.language, LanguageType::C);
    assert_eq!(r.functions.len(), 1);
    let f = &r.functions[0];
    assert_eq!(f.name, "main");
    assert_eq!(f.parameters, 0);
    assert_eq!(f.start_line, 4);
    assert_eq!(f.end_line, 10);
    assert_eq!(f.complexity, 2);
    assert_eq!(r.comment_lines, 4);
}

#[test]
fn c_parameters_are_counted_by_commas() {
    let src = "static int add(int a, int b, int c) {\n    return a + b + c;\n}\n";
    let r = CParser::new().parse("x.cpp", src);
    assert_eq!(r.language, LanguageType::CPlusPlus);
    assert_eq!(r.functions[0].parameters, 3);
}

#[test]
fn java_method_detected() {
    let src = "public class A {\n    public int size(String s, int n) {\n        while (n > 0) { n--; }\n        return n;\n    }\n}\n";
    let r = JavaParser::new().parse("A.java", src);
    assert_eq!(r.functions.len(), 1);
    assert_eq!(r.functions[0].name, "size");
    assert_eq!(r.functions[0].parameters, 2);
    assert_eq!(r.functions[0].start_line, 2);
    assert_eq!(r.functions[0].end_line, 5);
}

#[test]
fn csharp_expression_bodied_member_ends_at_semicolon() {
    let src = "class A {\n    public int Twice(int x) =>\n        x * 2;\n    public void Run() {\n        Go();\n    }\n}\n";
    let r = CSharpParser::new().parse("A.cs", src);
    assert_eq!(r.functions.len(), 2);
    assert_eq!(r.functions[0].name, "Twice");
    assert_eq!(r.functions[0].end_line, 3);
    assert_eq!(r.functions[1].name, "Run");
    assert_eq!(r.functions[1].start_line, 4);
    assert_eq!(r.functions[1].end_line, 6);
}

#[test]
fn javascript_units_in_line_order() {
    let src = "const add = (a, b) => {\n  return a && b;\n};\nfunction run(x) {\n  if (x) { return 1; }\n}\nclass K {\n  go() {\n    return 2;\n  }\n  constructor() {\n  }\n}\n";
    let r = JavaScriptParser::new().parse("a.js", src);
    let names: Vec<&str> = r.functions.iter().map(|f| f.name.as_str()).collect();
    assert_eq!(names, vec!["add", "run", "go"]);
    assert_eq!(r.functions[0].complexity, 2);
    assert_eq!(r.functions[1].start_line, 4);
    assert_eq!(r.functions[1].end_line, 6);
    assert_eq!(r.functions[2].start_line, 8);
    assert_eq!(r.functions[2].end_line, 10);
}

#[test]
fn typescript_uses_javascript_rules() {
    let src = "function hello(name) {\n  return name;\n}\n";
    let r = TypeScriptParser::new().parse("a.ts", src);
    assert_eq!(r.language, LanguageType::TypeScript);
    assert_eq!(r.functions.len(), 1);
    assert_eq!(r.functions[0].name, "hello");
}

#[test]
fn generic_fallback_finds_named_functions() {
    let src = "fn ignored() {}\nvoid work(int a) {\n  if (a) { a = 0; }\n}\n";
    let r = GenericParser::new().parse("x.kt", src);
    assert_eq!(r.language, LanguageType::Unsupported);
    assert_eq!(r.functions.len(), 1);
    assert_eq!(r.functions[0].name, "work");
    assert_eq!(r.functions[0].end_line, 4);
}

#[test]
fn dispatch_by_extension() {
    let r = create_parser_for_file("dir/Main.PY").parse("dir/Main.PY", "def a():\n    pass\n");
    assert_eq!(r.language, LanguageType::Python);
    assert_eq!(r.functions.len(), 1);
}

#[test]
fn extensions_map_to_languages() {
    assert_eq!(LanguageType::from_extension("RS"), LanguageType::Rust);
    assert_eq!(LanguageType::from_extension("tsx"), LanguageType::TypeScript);
    assert_eq!(LanguageType::from_extension("h++"), LanguageType::CPlusPlus);
    assert_eq!(LanguageType::from_extension("md"), LanguageType::Unsupported);
    let d = LanguageDetector::new();
    assert_eq!(d.detect_language("src/a.Go"), LanguageType::Go);
    assert_eq!(d.detect_language("Makefile"), LanguageType::Unsupported);
    assert!(d.is_supported_file("x.java"));
    assert!(!d.is_supported_file("x.txt"));
    assert_eq!(LanguageType::CSharp.display_name(), "C#");
}

#[test]
fn empty_and_malformed_text_never_fail() {
    let r = CParser::new().parse("a.c", "");
    assert_eq!(r.total_lines, 0);
    assert_eq!(r.functions.len(), 0);
    let r = JavaParser::new().parse("A.java", "public void broken( {\n{{{\n");
    assert_eq!(r.total_lines, 2);
}

fn unit_count<P: Parser>(p: &P, path: &str, content: &str) -> usize {
    p.parse(path, content).functions.len()
}

#[test]
fn extractors_share_one_interface() {
    assert_eq!(unit_count(&GoParser::new(), "a.go", "func a() {\n}\nfunc b() {\n}\n"), 2);
    assert_eq!(unit_count(&CSSParser::new(), "a.css", "a { top: 0; }\n"), 1);
    assert_eq!(unit_count(&create_parser_for_file("x.py"), "x.py", "def f():\n    pass\n"), 1);
    assert_eq!(Parser::supported_languages(&CParser::new()), vec![LanguageType::C, LanguageType::CPlusPlus]);
}

#[test]
fn c_depth_counts_from_the_signature_line() {
    let src = "int f(int a) { if (a) {\n    a++;\n  }\n  return a;\n}\n";
    let r = CParser::new().parse("f.c", src);
    assert_eq!(r.functions.len(), 1);
    assert_eq!(r.functions[0].start_line, 1);
    assert_eq!(r.functions[0].end_line, 5);
}

#[test]
fn dispatched_extractor_lists_its_language() {
    use_languages(LanguageType::CPlusPlus, "x.cpp");
    use_languages(LanguageType::Go, "x.go");
    use_languages(LanguageType::CSS, "x.css");
    use_languages(LanguageType::PHP, "x.php");
    let g = code_quality::parsers::create_parser_for_language(LanguageType::Unsupported);
    assert_eq!(g.supported_languages(), vec![LanguageType::Unsupported]);
}

fn use_languages(l: LanguageType, path: &str) {
    let p = code_quality::parsers::create_parser_for_language(l);
    assert!(p.supported_languages().contains(&l));
    assert_eq!(create_parser_for_file(path).supported_languages(), p.supported_languages());
}
