//! The state machine that assembles classified lines into a program.

use vstd::prelude::*;
use crate::ast::{statements_view, Function, Program, ProgramView, Statement, StatementView};
use crate::errors::ErrorKind;
use crate::lexer::{
    classify, is_valid_name, lemma_classify_well_formed, statement_well_formed, LexicalPattern,
    PatternView,
};
use crate::strmap::StrMap;

verus! {

/// Where the parser stands between two lines.
#[derive(Clone, Debug)]
pub enum ParseState {
    /// Inside the function of this name, with the statements read so far.
    ConstructFunc(String, Function),
    /// Between functions.
    Outside,
}

/// A parser state over character sequences.
pub enum ParseStateView {
    ConstructFunc(Seq<char>, Seq<StatementView>),
    Outside,
}

impl View for ParseState {
    type V = ParseStateView;

    open spec fn view(&self) -> ParseStateView {
        match self {
            ParseState::ConstructFunc(name, function) => ParseStateView::ConstructFunc(
                name@,
                function@,
            ),
            ParseState::Outside => ParseStateView::Outside,
        }
    }
}

/// One step of the parser: the state and the program after a line of shape
/// `pattern`, or the reason why that line cannot stand where it does.
pub open spec fn transition(
    state: ParseStateView,
    pattern: PatternView,
    program: ProgramView,
) -> Result<(ParseStateView, ProgramView), ErrorKind> {
    match pattern {
        PatternView::FuncStart(name) => match state {
            ParseStateView::ConstructFunc(_, _) => Err(ErrorKind::NestedFunctionStart),
            ParseStateView::Outside => Ok(
                (ParseStateView::ConstructFunc(name, Seq::empty()), program),
            ),
        },
        PatternView::FuncEnd => match state {
            ParseStateView::ConstructFunc(name, body) => Ok(
                (ParseStateView::Outside, program.insert(name, body)),
            ),
            ParseStateView::Outside => Err(ErrorKind::UnmatchedFunctionEnd),
        },
        PatternView::Statement(statement) => match state {
            ParseStateView::ConstructFunc(name, body) => Ok(
                (ParseStateView::ConstructFunc(name, body.push(statement)), program),
            ),
            ParseStateView::Outside => Err(ErrorKind::StatementOutsideFunction),
        },
        PatternView::Empty => Ok((state, program)),
    }
}

/// What the end of the text means in `state`.
pub open spec fn finish(state: ParseStateView) -> Result<(), ErrorKind> {
    match state {
        ParseStateView::ConstructFunc(_, _) => Err(ErrorKind::UnterminatedFunction),
        ParseStateView::Outside => Ok(()),
    }
}

/// The result of parsing `lines` from `state`, with `program` built so far.
/// A line that is `None` is one that could not be read.
pub open spec fn parse_from(
    lines: Seq<Option<Seq<char>>>,
    state: ParseStateView,
    program: ProgramView,
) -> Result<ProgramView, ErrorKind>
    decreases lines.len(),
{
    if lines.len() == 0 {
        match finish(state) {
            Ok(_) => Ok(program),
            Err(e) => Err(e),
        }
    } else {
        match lines.first() {
            None => Err(ErrorKind::IoFailure),
            Some(line) => match classify(line) {
                None => Err(ErrorKind::MalformedLine),
                Some(pattern) => match transition(state, pattern, program) {
                    Err(e) => Err(e),
                    Ok((next, grown)) => parse_from(lines.drop_first(), next, grown),
                },
            },
        }
    }
}

/// The program that `lines` define, or the first reason why they define none.
pub open spec fn parse(lines: Seq<Option<Seq<char>>>) -> Result<ProgramView, ErrorKind> {
    parse_from(lines, ParseStateView::Outside, Map::empty())
}

/// The character sequences of a list of lines.
pub open spec fn lines_view(lines: Seq<Option<String>>) -> Seq<Option<Seq<char>>> {
    Seq::new(
        lines.len(),
        |i: int|
            match lines[i] {
                Some(line) => Some(line@),
                None => None,
            },
    )
}

/// Every function of `program` has a valid name and well-formed statements.
pub open spec fn program_well_formed(program: ProgramView) -> bool {
    forall|name: Seq<char>| #[trigger]
        program.contains_key(name) ==> is_valid_name(name) && body_well_formed(program[name])
}

/// Every statement of `body` is well formed.
pub open spec fn body_well_formed(body: Seq<StatementView>) -> bool {
    forall|i: int| 0 <= i < body.len() ==> statement_well_formed(#[trigger] body[i])
}

/// The function under construction, if there is one, has a valid name and
/// well-formed statements.
pub open spec fn state_well_formed(state: ParseStateView) -> bool {
    match state {
        ParseStateView::ConstructFunc(name, body) => is_valid_name(name) && body_well_formed(body),
        ParseStateView::Outside => true,
    }
}

/// Parsing on from a well-formed state and program gives a well-formed
/// program.
pub proof fn lemma_parse_from_well_formed(
    lines: Seq<Option<Seq<char>>>,
    state: ParseStateView,
    program: ProgramView,
)
    requires
        state_well_formed(state),
        program_well_formed(program),
    ensures
        match parse_from(lines, state, program) {
            Ok(parsed) => program_well_formed(parsed),
            Err(_) => true,
        },
    decreases lines.len(),
{
    if lines.len() > 0 {
        if let Some(line) = lines.first() {
            lemma_classify_well_formed(line);
            if let Some(pattern) = classify(line) {
                if let Ok((next, grown)) = transition(state, pattern, program) {
                    lemma_parse_from_well_formed(lines.drop_first(), next, grown);
                }
            }
        }
    }
}

/// Every program that parsing gives is well formed: its functions have
/// valid names, its assignments valid variables, and each of its command
/// lines at least one word.
pub proof fn lemma_parse_well_formed(lines: Seq<Option<Seq<char>>>)
    ensures
        match parse(lines) {
            Ok(parsed) => program_well_formed(parsed),
            Err(_) => true,
        },
{
    lemma_parse_from_well_formed(lines, ParseStateView::Outside, Map::empty());
}

impl ParseState {
    /// Takes one classified line: gives the next state, and commits a
    /// finished function to `program`. On an error `program` is left as it was.
    pub fn transform(self, pattern: LexicalPattern, program: &mut Program) -> (r: Result<
        ParseState,
        ErrorKind,
    >)
        ensures
            match transition(self@, pattern@, old(program).deep()) {
                Ok((next, grown)) => r is Ok && r->Ok_0@ == next && final(program).deep() == grown,
                Err(e) => r == Err::<ParseState, ErrorKind>(e) && final(program).deep() == old(
                    program,
                ).deep(),
            },
    {
        let new_state = match pattern {
            LexicalPattern::FuncStart(name) => {
                match self {
                    ParseState::ConstructFunc(_, _) => {
                        return Err(ErrorKind::NestedFunctionStart);
                    },
                    ParseState::Outside => {
                        let body: Vec<Statement> = Vec::new();
                        assert(statements_view(body@) =~= Seq::empty());
                        ParseState::ConstructFunc(name, Function(body))
                    },
                }
            },
            LexicalPattern::FuncEnd => {
                match self {
                    ParseState::ConstructFunc(n, f) => {
                        program.insert(n, f);
                        assert(program.deep() =~= old(program).deep().insert(n@, f@));
                        ParseState::Outside
                    },
                    ParseState::Outside => {
                        return Err(ErrorKind::UnmatchedFunctionEnd);
                    },
                }
            },
            LexicalPattern::Statement(statement) => {
                match self {
                    ParseState::ConstructFunc(n, f) => {
                        let mut body = f.0;
                        assert(statements_view(body@.push(statement)) =~= statements_view(
                            body@,
                        ).push(statement@));
                        body.push(statement);
                        ParseState::ConstructFunc(n, Function(body))
                    },
                    ParseState::Outside => {
                        return Err(ErrorKind::StatementOutsideFunction);
                    },
                }
            },
            LexicalPattern::Empty => { self },
        };
        Ok(new_state)
    }

    /// Takes one classified line, as `transform` does, and keeps the next
    /// state in `self`. On an error the state falls back to `Outside`.
    pub fn transform_in_place(&mut self, pattern: LexicalPattern, program: &mut Program) -> (r:
        Result<(), ErrorKind>)
        ensures
            match transition(old(self)@, pattern@, old(program).deep()) {
                Ok((next, grown)) => r is Ok && final(self)@ == next && final(program).deep()
                    == grown,
                Err(e) => r == Err::<(), ErrorKind>(e) && final(self)@ == ParseStateView::Outside
                    && final(program).deep() == old(program).deep(),
            },
    {
        let mut state = ParseState::Outside;
        core::mem::swap(self, &mut state);
        match state.transform(pattern, program) {
            Ok(next) => {
                *self = next;
                Ok(())
            },
            Err(e) => Err(e),
        }
    }

    /// Tells whether the text may end in this state.
    pub fn end_success(self) -> (r: Result<(), ErrorKind>)
        ensures
            r == finish(self@),
    {
        match self {
            ParseState::ConstructFunc(_, _) => Err(ErrorKind::UnterminatedFunction),
            ParseState::Outside => Ok(()),
        }
    }
}

/// Parses a script given line by line, each line without its terminator and
/// `None` standing for a line that could not be read.
pub fn parse_to_ast(content: &Vec<Option<String>>) -> (r: Result<Program, ErrorKind>)
    ensures
        match parse(lines_view(content@)) {
            Ok(program) => r is Ok && r->Ok_0.deep() == program,
            Err(e) => r is Err && r->Err_0 == e,
        },
{
    let mut program: Program = StrMap::new();
    let mut parser = ParseState::Outside;
    let ghost lines = lines_view(content@);
    let n: usize = content.len();
    let mut i: usize = 0;
    assert(lines.skip(0) =~= lines);
    assert(program.deep() =~= Map::empty());
    while i < n
        invariant
            n == content@.len(),
            lines == lines_view(content@),
            i <= n,
            parse_from(lines.skip(i as int), parser@, program.deep()) == parse(lines),
        decreases n - i,
    {
        assert(lines.skip(i as int).first() == lines[i as int]);
        assert(lines.skip(i as int).drop_first() =~= lines.skip(i + 1));
        match &content[i] {
            None => {
                return Err(ErrorKind::IoFailure);
            },
            Some(line) => {
                match LexicalPattern::from_line(line.as_str()) {
                    None => {
                        return Err(ErrorKind::MalformedLine);
                    },
                    Some(pattern) => {
                        match parser.transform_in_place(pattern, &mut program) {
                            Err(e) => {
                                return Err(e);
                            },
                            Ok(_) => {},
                        }
                    },
                }
            },
        }
        i += 1;
    }
    assert(lines.skip(n as int) =~= Seq::empty());
    match parser.end_success() {
        Err(e) => Err(e),
        Ok(_) => Ok(program),
    }
}

} // verus!
