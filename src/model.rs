use vstd::prelude::*;

use crate::language::LanguageType;

verus! {

/// A function, method or pseudo-unit found by an extractor. Lines are numbered
/// from 1.
#[derive(Debug, Clone)]
pub struct Function {
    pub name: String,
    pub start_line: usize,
    pub end_line: usize,
    pub complexity: usize,
    pub parameters: usize,
}

/// What a `Function` holds, with its name as characters.
pub struct UnitView {
    pub name: Seq<char>,
    pub start_line: nat,
    pub end_line: nat,
    pub complexity: nat,
    pub parameters: nat,
}

impl View for Function {
    type V = UnitView;

    open spec fn view(&self) -> UnitView {
        UnitView {
            name: self.name@,
            start_line: self.start_line as nat,
            end_line: self.end_line as nat,
            complexity: self.complexity as nat,
            parameters: self.parameters as nat,
        }
    }
}

/// The lines a unit spans, 0 where its end stands before its start.
pub open spec fn span_of(u: UnitView) -> nat {
    if u.end_line >= u.start_line {
        (u.end_line - u.start_line + 1) as nat
    } else {
        0
    }
}

/// A unit as an extractor hands it out: it starts on line 1 or later, ends on or
/// after its start, within the file, and has complexity at least 1.
pub open spec fn unit_wf(u: UnitView, total_lines: nat) -> bool {
    1 <= u.start_line <= u.end_line <= total_lines && u.complexity >= 1
}

pub open spec fn units_view(fs: Seq<Function>) -> Seq<UnitView> {
    fs.map_values(|f: Function| f@)
}

impl Function {
    pub fn new(
        name: String,
        start_line: usize,
        end_line: usize,
        complexity: usize,
        parameters: usize,
    ) -> (r: Function)
        ensures
            r@ == (UnitView {
                name: name@,
                start_line: start_line as nat,
                end_line: end_line as nat,
                complexity: complexity as nat,
                parameters: parameters as nat,
            }),
    {
        Function { name, start_line, end_line, complexity, parameters }
    }

    /// Number of lines the unit spans, 0 where its end stands before its start.
    pub fn line_count(&self) -> (r: usize)
        requires
            self.start_line >= 1,
        ensures
            r == span_of(self@),
    {
        if self.end_line >= self.start_line {
            self.end_line - self.start_line + 1
        } else {
            0
        }
    }
}

/// The unit model of one file: its units in order, and its line counts.
#[derive(Debug, Clone)]
pub struct BaseParseResult {
    pub functions: Vec<Function>,
    pub comment_lines: usize,
    pub total_lines: usize,
    pub language: LanguageType,
}

impl BaseParseResult {
    /// Every unit is well formed, and no more lines are comments than the file has.
    pub open spec fn wf(&self) -> bool {
        &&& self.comment_lines <= self.total_lines
        &&& forall|i: int|
            0 <= i < self.functions@.len() ==> unit_wf(
                #[trigger] self.functions@[i]@,
                self.total_lines as nat,
            )
    }
}

/// Read access to a unit model.
pub trait ParseResult {
    fn get_functions(&self) -> &[Function];

    fn get_comment_lines(&self) -> usize;

    fn get_total_lines(&self) -> usize;

    fn get_language(&self) -> LanguageType;
}

impl ParseResult for BaseParseResult {
    fn get_functions(&self) -> &[Function] {
        self.functions.as_slice()
    }

    fn get_comment_lines(&self) -> usize {
        self.comment_lines
    }

    fn get_total_lines(&self) -> usize {
        self.total_lines
    }

    fn get_language(&self) -> LanguageType {
        self.language
    }
}

} // verus!
