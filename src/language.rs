use vstd::prelude::*;

use crate::text::{chars_are, extension_of, lower_of, lowercase_chars, path_extension};

verus! {

/// The closed set of languages that the extractors know.
#[derive(Debug, Clone, Copy, PartialEq, Eq, Structural)]
pub enum LanguageType {
    Rust,
    Go,
    JavaScript,
    TypeScript,
    Python,
    Java,
    CPlusPlus,
    C,
    CSharp,
    PHP,
    HTML,
    CSS,
    Unsupported,
}

/// The language of a lower-case file extension.
pub open spec fn language_of_ext(e: Seq<char>) -> LanguageType {
    if e == "rs"@ {
        LanguageType::Rust
    } else if e == "go"@ {
        LanguageType::Go
    } else if e == "js"@ || e == "mjs"@ || e == "cjs"@ {
        LanguageType::JavaScript
    } else if e == "ts"@ || e == "tsx"@ || e == "jsx"@ {
        LanguageType::TypeScript
    } else if e == "py"@ || e == "pyw"@ {
        LanguageType::Python
    } else if e == "java"@ {
        LanguageType::Java
    } else if e == "cpp"@ || e == "cc"@ || e == "cxx"@ || e == "hpp"@ || e == "h++"@ {
        LanguageType::CPlusPlus
    } else if e == "c"@ || e == "h"@ {
        LanguageType::C
    } else if e == "cs"@ || e == "razor"@ {
        LanguageType::CSharp
    } else if e == "php"@ || e == "php3"@ || e == "php4"@ || e == "php5"@ || e == "php7"@ || e
        == "php8"@ || e == "phtml"@ {
        LanguageType::PHP
    } else if e == "html"@ || e == "htm"@ || e == "xhtml"@ {
        LanguageType::HTML
    } else if e == "css"@ || e == "scss"@ || e == "sass"@ || e == "less"@ {
        LanguageType::CSS
    } else {
        LanguageType::Unsupported
    }
}

/// The language of a file path: that of its extension, case ignored.
pub open spec fn language_of_path(p: Seq<char>) -> LanguageType {
    match extension_of(p) {
        Some(e) => language_of_ext(lower_of(e)),
        None => LanguageType::Unsupported,
    }
}

pub open spec fn display_name_of(l: LanguageType) -> Seq<char> {
    match l {
        LanguageType::Rust => "Rust"@,
        LanguageType::Go => "Go"@,
        LanguageType::JavaScript => "JavaScript"@,
        LanguageType::TypeScript => "TypeScript"@,
        LanguageType::Python => "Python"@,
        LanguageType::Java => "Java"@,
        LanguageType::CPlusPlus => "C++"@,
        LanguageType::C => "C"@,
        LanguageType::CSharp => "C#"@,
        LanguageType::PHP => "PHP"@,
        LanguageType::HTML => "HTML"@,
        LanguageType::CSS => "CSS"@,
        LanguageType::Unsupported => "Unknown"@,
    }
}

impl LanguageType {
    /// The language of a file extension, case ignored; `Unsupported` for any other.
    pub fn from_extension(ext: &str) -> (r: LanguageType)
        ensures
            r == language_of_ext(lower_of(ext@)),
    {
        let e = lowercase_chars(ext);
        let e = e.as_slice();
        if chars_are(e, "rs") {
            LanguageType::Rust
        } else if chars_are(e, "go") {
            LanguageType::Go
        } else if chars_are(e, "js") || chars_are(e, "mjs") || chars_are(e, "cjs") {
            LanguageType::JavaScript
        } else if chars_are(e, "ts") || chars_are(e, "tsx") || chars_are(e, "jsx") {
            LanguageType::TypeScript
        } else if chars_are(e, "py") || chars_are(e, "pyw") {
            LanguageType::Python
        } else if chars_are(e, "java") {
            LanguageType::Java
        } else if chars_are(e, "cpp") || chars_are(e, "cc") || chars_are(e, "cxx") || chars_are(
            e,
            "hpp",
        ) || chars_are(e, "h++") {
            LanguageType::CPlusPlus
        } else if chars_are(e, "c") || chars_are(e, "h") {
            LanguageType::C
        } else if chars_are(e, "cs") || chars_are(e, "razor") {
            LanguageType::CSharp
        } else if chars_are(e, "php") || chars_are(e, "php3") || chars_are(e, "php4") || chars_are(
            e,
            "php5",
        ) || chars_are(e, "php7") || chars_are(e, "php8") || chars_are(e, "phtml") {
            LanguageType::PHP
        } else if chars_are(e, "html") || chars_are(e, "htm") || chars_are(e, "xhtml") {
            LanguageType::HTML
        } else if chars_are(e, "css") || chars_are(e, "scss") || chars_are(e, "sass") || chars_are(
            e,
            "less",
        ) {
            LanguageType::CSS
        } else {
            LanguageType::Unsupported
        }
    }

    /// The name under which the language is shown.
    pub fn display_name(&self) -> (r: &'static str)
        ensures
            r@ == display_name_of(*self),
    {
        match self {
            LanguageType::Rust => "Rust",
            LanguageType::Go => "Go",
            LanguageType::JavaScript => "JavaScript",
            LanguageType::TypeScript => "TypeScript",
            LanguageType::Python => "Python",
            LanguageType::Java => "Java",
            LanguageType::CPlusPlus => "C++",
            LanguageType::C => "C",
            LanguageType::CSharp => "C#",
            LanguageType::PHP => "PHP",
            LanguageType::HTML => "HTML",
            LanguageType::CSS => "CSS",
            LanguageType::Unsupported => "Unknown",
        }
    }
}

/// The extensions that map to a language, in the order of `language_of_ext`.
pub open spec fn supported_exts() -> Seq<Seq<char>> {
    seq![
        "rs"@, "go"@, "js"@, "mjs"@, "cjs"@, "ts"@, "tsx"@, "jsx"@, "py"@, "pyw"@, "java"@,
        "cpp"@, "cc"@, "cxx"@, "hpp"@, "h++"@, "c"@, "h"@, "cs"@, "razor"@, "php"@, "php3"@,
        "php4"@, "php5"@, "php7"@, "php8"@, "phtml"@, "html"@, "htm"@, "xhtml"@, "css"@,
        "scss"@, "sass"@, "less"@,
    ]
}

/// Maps file paths to languages by their extension.
pub struct LanguageDetector;

impl LanguageDetector {
    pub fn new() -> (r: LanguageDetector) {
        LanguageDetector
    }

    /// The language of the file at `file_path`: that of its extension, `Unsupported`
    /// where it has none.
    pub fn detect_language(&self, file_path: &str) -> (r: LanguageType)
        ensures
            r == language_of_path(file_path@),
    {
        match path_extension(file_path) {
            Some(e) => LanguageType::from_extension(e.as_str()),
            None => LanguageType::Unsupported,
        }
    }

    /// The extensions that map to a language.
    pub fn supported_extensions() -> (r: Vec<&'static str>)
        ensures
            r@.map_values(|e: &str| e@) == supported_exts(),
    {
        let r = vec![
            "rs", "go", "js", "mjs", "cjs", "ts", "tsx", "jsx", "py", "pyw", "java", "cpp", "cc",
            "cxx", "hpp", "h++", "c", "h", "cs", "razor", "php", "php3", "php4", "php5", "php7",
            "php8", "phtml", "html", "htm", "xhtml", "css", "scss", "sass", "less",
        ];
        assert(r@.map_values(|e: &str| e@) =~= supported_exts());
        r
    }

    /// Whether the file's language is one that the extractors know.
    pub fn is_supported_file(&self, file_path: &str) -> (r: bool)
        ensures
            r == (language_of_path(file_path@) != LanguageType::Unsupported),
    {
        let l = self.detect_language(file_path);
        !matches!(l, LanguageType::Unsupported)
    }
}

} // verus!
