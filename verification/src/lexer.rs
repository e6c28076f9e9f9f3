//! Classification of one line of a script, without regard to what surrounds it.

use vstd::prelude::*;
use vstd::string::StrSliceExecFns;
use crate::ast::{Assignment, AssignmentView, Statement, StatementView};
use crate::text::{
    chars_of, is_decimal_digit, is_reserved, is_word, lemma_position_of_is,
    lemma_split_gives_words, lemma_trim_has_no_margin, position_of, split_whitespace,
    split_words, trim, trim_str,
};

verus! {

/// A name of a function or of a variable: not empty, not starting with a
/// digit, and free of the characters `{`, `}`, `(`, `)` and `=`.
pub open spec fn is_valid_name(s: Seq<char>) -> bool {
    &&& s.len() > 0
    &&& !is_decimal_digit(s[0])
    &&& forall|i: int| 0 <= i < s.len() ==> !is_reserved(#[trigger] s[i])
}

/// The three characters that end the line on which a function starts.
pub open spec fn function_mark() -> Seq<char> {
    seq!['(', ')', '{']
}

/// `s` ends with the characters of `suffix`.
pub open spec fn ends_with(s: Seq<char>, suffix: Seq<char>) -> bool {
    s.len() >= suffix.len() && s.skip(s.len() - suffix.len()) == suffix
}

/// The shape of one line.
#[derive(Clone, Debug)]
pub enum LexicalPattern {
    /// `name(){`
    FuncStart(String),
    /// `}`
    FuncEnd,
    /// An assignment or a command line.
    Statement(Statement),
    /// Nothing but whitespace.
    Empty,
}

/// The shape of one line, over character sequences.
pub enum PatternView {
    FuncStart(Seq<char>),
    FuncEnd,
    Statement(StatementView),
    Empty,
}

impl View for LexicalPattern {
    type V = PatternView;

    open spec fn view(&self) -> PatternView {
        match self {
            LexicalPattern::FuncStart(name) => PatternView::FuncStart(name@),
            LexicalPattern::FuncEnd => PatternView::FuncEnd,
            LexicalPattern::Statement(s) => PatternView::Statement(s@),
            LexicalPattern::Empty => PatternView::Empty,
        }
    }
}

/// The shape of `line`, or `None` where it has none. The first of these
/// that applies to the trimmed line decides: it is empty; it is `}`; it ends
/// with `(){`; it holds `=`; anything else is a command line.
pub open spec fn classify(line: Seq<char>) -> Option<PatternView> {
    let t = trim(line);
    if t.len() == 0 {
        Some(PatternView::Empty)
    } else if t == seq!['}'] {
        Some(PatternView::FuncEnd)
    } else if ends_with(t, function_mark()) {
        let name = t.take(t.len() - 3);
        if is_valid_name(name) {
            Some(PatternView::FuncStart(name))
        } else {
            None
        }
    } else if t.contains('=') {
        let at = position_of(t, '=') as int;
        let variable = t.take(at);
        let value = t.skip(at + 1);
        if is_valid_name(variable) {
            Some(
                PatternView::Statement(
                    StatementView::Assignment(AssignmentView { variable, value }),
                ),
            )
        } else {
            None
        }
    } else {
        Some(PatternView::Statement(StatementView::Execution(split_whitespace(t))))
    }
}

/// A statement as the grammar admits it: an assignment to a valid name, or
/// a command line of at least one word.
pub open spec fn statement_well_formed(statement: StatementView) -> bool {
    match statement {
        StatementView::Assignment(a) => is_valid_name(a.variable),
        StatementView::Execution(tokens) => {
            &&& tokens.len() > 0
            &&& forall|i: int| 0 <= i < tokens.len() ==> is_word(#[trigger] tokens[i])
        },
    }
}

/// A pattern as the grammar admits it: its names are valid and its
/// statement is well formed.
pub open spec fn pattern_well_formed(pattern: PatternView) -> bool {
    match pattern {
        PatternView::FuncStart(name) => is_valid_name(name),
        PatternView::Statement(statement) => statement_well_formed(statement),
        PatternView::FuncEnd => true,
        PatternView::Empty => true,
    }
}

/// Every line that has a shape has a well-formed one: a function and an
/// assigned variable have valid names, and a command line has a command.
pub proof fn lemma_classify_well_formed(line: Seq<char>)
    ensures
        match classify(line) {
            Some(pattern) => pattern_well_formed(pattern),
            None => true,
        },
{
    let t = trim(line);
    lemma_trim_has_no_margin(line);
    lemma_split_gives_words(t);
}

/// Tells whether `name` can name a function or a variable.
pub fn name_valid(name: &str) -> (r: bool)
    ensures
        r == is_valid_name(name@),
{
    let chars = chars_of(name);
    let n: usize = chars.len();
    if n == 0 {
        return false;
    }
    let first: char = chars[0];
    if '0' <= first && first <= '9' {
        return false;
    }
    let mut i: usize = 0;
    while i < n
        invariant
            n == chars@.len(),
            chars@ == name@,
            i <= n,
            forall|j: int| 0 <= j < i ==> !is_reserved(#[trigger] chars@[j]),
        decreases n - i,
    {
        let c: char = chars[i];
        if c == '{' || c == '}' || c == '(' || c == ')' || c == '=' {
            assert(is_reserved(name@[i as int]));
            return false;
        }
        i += 1;
    }
    true
}

impl LexicalPattern {
    /// Classifies one line, given without its line terminator.
    pub fn from_line(s: &str) -> (r: Option<LexicalPattern>)
        ensures
            match r {
                Some(p) => classify(s@) == Some(p@),
                None => classify(s@) is None,
            },
    {
        let trimmed = trim_str(s);
        let chars = chars_of(trimmed);
        let n: usize = chars.len();
        if n == 0 {
            return Some(LexicalPattern::Empty);
        }
        if n == 1 && chars[0] == '}' {
            assert(chars@ =~= seq!['}']);
            return Some(LexicalPattern::FuncEnd);
        }
        assert(chars@ != seq!['}']) by {
            if chars@ == seq!['}'] {
                assert(seq!['}'].len() == 1 && seq!['}'][0] == '}');
            }
        }
        if n >= 3 && chars[n - 3] == '(' && chars[n - 2] == ')' && chars[n - 1] == '{' {
            assert(chars@.skip(n - 3) =~= function_mark());
            let name = trimmed.substring_char(0, n - 3);
            if name_valid(name) {
                return Some(LexicalPattern::FuncStart(name.to_owned()));
            } else {
                return None;
            }
        }
        assert(!ends_with(chars@, function_mark())) by {
            if ends_with(chars@, function_mark()) {
                let tail = chars@.skip(n - 3);
                assert(tail[0] == chars@[n - 3] && tail[1] == chars@[n - 2] && tail[2] == chars@[n
                    - 1]);
            }
        }
        let mut at: usize = 0;
        while at < n && chars[at] != '='
            invariant
                n == chars@.len(),
                at <= n,
                forall|j: int| 0 <= j < at ==> #[trigger] chars@[j] != '=',
            decreases n - at,
        {
            at += 1;
        }
        proof {
            lemma_position_of_is(chars@, '=', at as int);
        }
        if at < n {
            assert(chars@.contains('='));
            let variable = trimmed.substring_char(0, at);
            if name_valid(variable) {
                let value = trimmed.substring_char(at + 1, n);
                Some(
                    LexicalPattern::Statement(
                        Statement::Assignment(
                            Assignment { variable: variable.to_owned(), value: value.to_owned() },
                        ),
                    ),
                )
            } else {
                None
            }
        } else {
            let words = split_words(trimmed);
            Some(LexicalPattern::Statement(Statement::Execution(words)))
        }
    }
}

} // verus!
