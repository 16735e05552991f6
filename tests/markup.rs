use code_quality::language::LanguageType;
use code_quality::markup::{decimal_exec, CSSParser, HTMLParser};
use code_quality::parsers::create_parser_for_language;
use code_quality::php::PHPParser;

#[test]
fn css_rules_are_units() {
    let src = "/* theme */\n.card > .title {\n  color: red;\n  border: 1px solid;\n}\n\n#main,\n.side {\n  margin: 0;\n}\n";
    let r = CSSParser::new().parse("a.css", src);
    assert_eq!(r.language, LanguageType::CSS);
    assert_eq!(r.comment_lines, 1);
    assert_eq!(r.functions.len(), 2);
    let a = &r.functions[0];
    assert_eq!(a.name, ".card > .title");
    assert_eq!(a.start_line, 2);
    assert_eq!(a.end_line, 5);
    // 1 + selector (2 spaces, >, 2 dots) + properties (2 colons, border ×2, one brace)
    assert_eq!(a.complexity, 1 + 5 + 5);
    let b = &r.functions[1];
    assert_eq!(b.start_line, 8);
    assert_eq!(b.name, ".side");
}

#[test]
fn css_selector_on_its_own_line() {
    let src = "a:hover\n{\n  color: blue;\n}\n";
    let r = CSSParser::new().parse("a.css", src);
    // The selector line holds no brace, so its depth is balanced at once; the
    // block on the next line is a rule without a selector.
    assert_eq!(r.functions.len(), 2);
    assert_eq!(r.functions[0].name, "a:hover");
    assert_eq!(r.functions[0].start_line, 1);
    assert_eq!(r.functions[0].end_line, 1);
    assert_eq!(r.functions[1].name, "css_rule");
    assert_eq!(r.functions[1].start_line, 2);
    assert_eq!(r.functions[1].end_line, 4);
}

#[test]
fn css_long_selector_is_shortened() {
    let sel = "x".repeat(60);
    let src = format!("{} {{ top: 0; }}\n", sel);
    let r = CSSParser::new().parse("a.css", &src);
    assert_eq!(r.functions.len(), 1);
    assert_eq!(r.functions[0].name, format!("{}...", "x".repeat(47)));
}

#[test]
fn html_blocks_are_units() {
    let src = "<html>\n<!-- note -->\n<script>\n  if (a && b) { go(); }\n</script>\n<style>\n.a { color: red; }\n</style>\n<form>\n<input name=a>\n<button>ok</button>\n</form>\n</html>\n";
    let r = HTMLParser::new().parse("i.html", src);
    assert_eq!(r.language, LanguageType::HTML);
    assert_eq!(r.comment_lines, 1);
    let names: Vec<&str> = r.functions.iter().map(|f| f.name.as_str()).collect();
    assert_eq!(names, vec!["script_block_1", "style_block_1", "form_block_1"]);
    assert_eq!(r.functions[0].start_line, 3);
    assert_eq!(r.functions[0].end_line, 5);
    assert_eq!(r.functions[0].complexity, 3);
    assert_eq!(r.functions[2].start_line, 9);
    assert_eq!(r.functions[2].end_line, 12);
    assert_eq!(r.functions[2].complexity, 3);
}

#[test]
fn html_dense_page_becomes_a_unit() {
    let src = "<div>\n".repeat(60);
    let r = HTMLParser::new().parse("i.html", &src);
    assert_eq!(r.functions.len(), 1);
    assert_eq!(r.functions[0].name, "html_structure");
    assert_eq!(r.functions[0].start_line, 1);
    assert_eq!(r.functions[0].end_line, 60);
    assert_eq!(r.functions[0].complexity, 6);
}

#[test]
fn php_functions_and_methods() {
    let src = "<?php\n# setup\nfunction add($a, $b) {\n    if ($a) { return $a; }\n    return $b;\n}\nclass K {\n    public static function make() {\n        return new K();\n    }\n}\n";
    let r = PHPParser::new().parse("a.php", src);
    assert_eq!(r.language, LanguageType::PHP);
    assert_eq!(r.comment_lines, 1);
    assert_eq!(r.functions.len(), 2);
    assert_eq!(r.functions[0].name, "add");
    assert_eq!(r.functions[0].parameters, 2);
    assert_eq!(r.functions[0].start_line, 3);
    assert_eq!(r.functions[0].end_line, 6);
    assert_eq!(r.functions[0].complexity, 2);
    assert_eq!(r.functions[1].name, "make");
    assert_eq!(r.functions[1].end_line, 10);
}

#[test]
fn php_one_line_function_and_declaration() {
    let src = "function one() { return 1; }\nabstract public function two();\nfunction three() {\n}\n";
    let r = PHPParser::new().parse("a.php", src);
    let names: Vec<&str> = r.functions.iter().map(|f| f.name.as_str()).collect();
    assert_eq!(names, vec!["one", "three"]);
    assert_eq!(r.functions[0].end_line, 1);
}

#[test]
fn dispatch_reaches_markup_extractors() {
    let r = create_parser_for_language(LanguageType::CSS).parse("a.css", "p { margin: 0; }\n");
    assert_eq!(r.language, LanguageType::CSS);
    let r = create_parser_for_language(LanguageType::Rust).parse("a.rs", "fn main() {}\n");
    assert_eq!(r.language, LanguageType::Rust);
}

#[test]
fn decimal_digits() {
    assert_eq!(decimal_exec(0), vec!['0']);
    assert_eq!(decimal_exec(1203), vec!['1', '2', '0', '3']);
}
