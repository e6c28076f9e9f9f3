//! Running a parsed script: the variables, the substitution of `$name`
//! tokens, and the commands that are to be launched.

use vstd::prelude::*;
use vstd::string::StrSliceExecFns;
use crate::ast::{Assignment, Function, Program, ProgramView, Statement, StatementView};
use crate::errors::ErrorKind;
use crate::parser::{lines_view, parse, parse_to_ast};
use crate::strmap::StrMap;
use crate::text::{chars_of, words_view};

verus! {

/// The variables of a run, by name.
pub type Variables = Map<Seq<char>, Seq<char>>;

/// A command to launch: the name of the executable and its arguments.
#[derive(Clone, Debug)]
pub struct Invocation {
    pub executable: String,
    pub arguments: Vec<String>,
}

/// A command over character sequences.
pub struct InvocationView {
    pub executable: Seq<char>,
    pub arguments: Seq<Seq<char>>,
}

impl View for Invocation {
    type V = InvocationView;

    open spec fn view(&self) -> InvocationView {
        InvocationView { executable: self.executable@, arguments: words_view(self.arguments@) }
    }
}

/// The views of a list of commands.
pub open spec fn invocations_view(list: Seq<Invocation>) -> Seq<InvocationView> {
    Seq::new(list.len(), |i: int| list[i]@)
}

/// The name of the function at which a run starts.
pub open spec fn entry_name() -> Seq<char> {
    seq!['m', 'a', 'i', 'n']
}

/// What a token of a command line stands for: `$name` is the value of the
/// variable `name`, or nothing where it has none; any other token is itself.
pub open spec fn expand_token(variables: Variables, token: Seq<char>) -> Seq<char> {
    if token.len() > 0 && token[0] == '$' {
        let name = token.skip(1);
        if variables.contains_key(name) {
            variables[name]
        } else {
            Seq::empty()
        }
    } else {
        token
    }
}

/// Each token of a command line, expanded.
pub open spec fn expand_all(variables: Variables, tokens: Seq<Seq<char>>) -> Seq<Seq<char>> {
    Seq::new(tokens.len(), |i: int| expand_token(variables, tokens[i]))
}

/// The command that a command line launches: its first expanded token names
/// the executable, the others are the arguments. No token, no command.
pub open spec fn invocation_of(variables: Variables, tokens: Seq<Seq<char>>) -> Option<
    InvocationView,
> {
    let line = expand_all(variables, tokens);
    if line.len() == 0 {
        None
    } else {
        Some(InvocationView { executable: line[0], arguments: line.skip(1) })
    }
}

/// A command line launches a command exactly where it holds a token.
pub proof fn lemma_invocation_iff_token(variables: Variables, tokens: Seq<Seq<char>>)
    ensures
        invocation_of(variables, tokens) is Some <==> tokens.len() > 0,
{
}

/// The variables after a statement.
pub open spec fn variables_after(variables: Variables, statement: StatementView) -> Variables {
    match statement {
        StatementView::Assignment(a) => variables.insert(a.variable, a.value),
        StatementView::Execution(_) => variables,
    }
}

/// The command that a statement launches, if it launches one.
pub open spec fn launched_by(variables: Variables, statement: StatementView) -> Option<
    InvocationView,
> {
    match statement {
        StatementView::Assignment(_) => None,
        StatementView::Execution(tokens) => invocation_of(variables, tokens),
    }
}

/// The variables after a list of statements, run in order from `variables`.
pub open spec fn variables_after_all(
    variables: Variables,
    statements: Seq<StatementView>,
) -> Variables
    decreases statements.len(),
{
    if statements.len() == 0 {
        variables
    } else {
        variables_after(
            variables_after_all(variables, statements.drop_last()),
            statements.last(),
        )
    }
}

/// The commands that a list of statements launches, in order, when run from
/// `variables`: each statement sees the assignments before it.
pub open spec fn launched_by_all(
    variables: Variables,
    statements: Seq<StatementView>,
) -> Seq<InvocationView>
    decreases statements.len(),
{
    if statements.len() == 0 {
        Seq::empty()
    } else {
        let before = statements.drop_last();
        let earlier = launched_by_all(variables, before);
        match launched_by(variables_after_all(variables, before), statements.last()) {
            Some(invocation) => earlier.push(invocation),
            None => earlier,
        }
    }
}

/// The commands that running `program` launches: those of its function
/// `main`, run with no variable set.
pub open spec fn run_of(program: ProgramView) -> Result<Seq<InvocationView>, ErrorKind> {
    if program.contains_key(entry_name()) {
        Ok(launched_by_all(Map::empty(), program[entry_name()]))
    } else {
        Err(ErrorKind::NoEntryFunction)
    }
}

/// The commands that the script `lines` launches. Nothing is launched
/// unless the whole script parses.
pub open spec fn interpret(lines: Seq<Option<Seq<char>>>) -> Result<
    Seq<InvocationView>,
    ErrorKind,
> {
    match parse(lines) {
        Ok(program) => run_of(program),
        Err(e) => Err(e),
    }
}

/// The variables of one run.
#[derive(Debug)]
pub struct Environment {
    table: StrMap<String>,
}

impl View for Environment {
    type V = Variables;

    closed spec fn view(&self) -> Variables {
        self.table.deep()
    }
}

impl Environment {
    /// An environment in which no variable is set.
    pub fn new() -> (env: Environment)
        ensures
            env@ == Map::<Seq<char>, Seq<char>>::empty(),
    {
        let table: StrMap<String> = StrMap::new();
        assert(table.deep() =~= Map::empty());
        Environment { table }
    }

    /// Sets the variable of `assignment` to its value, taken as it is written.
    pub fn exec_assignment(&mut self, assignment: &Assignment)
        ensures
            final(self)@ == old(self)@.insert(assignment@.variable, assignment@.value),
    {
        self.table.insert(assignment.variable.clone(), assignment.value.clone());
        assert(self.table.deep() =~= old(self).table.deep().insert(
            assignment@.variable,
            assignment@.value,
        ));
    }

    /// Expands each token of `args` and gives the command to launch, if any.
    /// The variables are only read.
    pub fn exec_execution(&self, args: &[String]) -> (r: Option<Invocation>)
        ensures
            match r {
                Some(invocation) => invocation_of(self@, words_view(args@)) == Some(invocation@),
                None => invocation_of(self@, words_view(args@)) is None,
            },
    {
        let n: usize = args.len();
        if n == 0 {
            return None;
        }
        let executable = self.expand(args[0].as_str()).to_owned();
        let mut arguments: Vec<String> = Vec::new();
        let ghost line = expand_all(self@, words_view(args@));
        let mut i: usize = 1;
        while i < n
            invariant
                n == args@.len(),
                1 <= i <= n,
                line == expand_all(self@, words_view(args@)),
                line.len() == n,
                arguments@.len() == i - 1,
                words_view(arguments@) == line.subrange(1, i as int),
            decreases n - i,
        {
            let word = self.expand(args[i].as_str()).to_owned();
            proof {
                let grown = words_view(arguments@.push(word));
                assert forall|k: int| 0 <= k < grown.len() implies grown[k] == line[k + 1] by {
                    if k < i - 1 {
                        assert(grown[k] == words_view(arguments@)[k]);
                        assert(line.subrange(1, i as int)[k] == line[k + 1]);
                    }
                }
                assert(grown =~= line.subrange(1, i + 1));
            }
            arguments.push(word);
            i += 1;
        }
        assert(line.subrange(1, n as int) =~= line.skip(1));
        Some(Invocation { executable, arguments })
    }

    /// Runs one statement: an assignment sets its variable, a command line
    /// gives the command to launch.
    pub fn exec_statement(&mut self, statement: &Statement) -> (r: Option<Invocation>)
        ensures
            final(self)@ == variables_after(old(self)@, statement@),
            match r {
                Some(invocation) => launched_by(old(self)@, statement@) == Some(invocation@),
                None => launched_by(old(self)@, statement@) is None,
            },
    {
        match statement {
            Statement::Assignment(assignment) => {
                self.exec_assignment(assignment);
                None
            },
            Statement::Execution(args) => self.exec_execution(args.as_slice()),
        }
    }

    /// Runs the statements of `function` in order and gives the commands to
    /// launch, in the order in which they are to be launched.
    pub fn exec_function(&mut self, function: &Function) -> (r: Vec<Invocation>)
        ensures
            final(self)@ == variables_after_all(old(self)@, function@),
            invocations_view(r@) == launched_by_all(old(self)@, function@),
    {
        let mut launched: Vec<Invocation> = Vec::new();
        let n: usize = function.0.len();
        let mut i: usize = 0;
        assert(invocations_view(launched@) =~= Seq::empty());
        assert(function@.take(0) =~= Seq::empty());
        while i < n
            invariant
                n == function.0@.len(),
                i <= n,
                self@ == variables_after_all(old(self)@, function@.take(i as int)),
                invocations_view(launched@) == launched_by_all(
                    old(self)@,
                    function@.take(i as int),
                ),
            decreases n - i,
        {
            let ghost done = function@.take(i + 1);
            assert(done.drop_last() =~= function@.take(i as int));
            assert(done.last() == function.0@[i as int]@);
            match self.exec_statement(&function.0[i]) {
                Some(invocation) => {
                    assert(invocations_view(launched@.push(invocation)) =~= invocations_view(
                        launched@,
                    ).push(invocation@));
                    launched.push(invocation);
                },
                None => {},
            }
            i += 1;
        }
        assert(function@.take(n as int) =~= function@);
        launched
    }

    /// What `arg` stands for in a command line: the value of the variable
    /// `name` for `$name`, the empty string where it has none, and `arg`
    /// itself where it does not start with `$`.
    pub fn expand<'a>(&'a self, arg: &'a str) -> (r: &'a str)
        ensures
            r@ == expand_token(self@, arg@),
    {
        let chars = chars_of(arg);
        if chars.len() > 0 && chars[0] == '$' {
            let name = arg.substring_char(1, chars.len());
            proof {
                reveal_strlit("");
            }
            match self.table.get(name) {
                Some(value) => value.as_str(),
                None => {
                    assert(""@ =~= Seq::<char>::empty());
                    ""
                },
            }
        } else {
            arg
        }
    }
}

/// Runs `program` from its function `main` and gives the commands to launch,
/// in order.
pub fn run_program(program: &Program) -> (r: Result<Vec<Invocation>, ErrorKind>)
    ensures
        match run_of(program.deep()) {
            Ok(launched) => r is Ok && invocations_view(r->Ok_0@) == launched,
            Err(e) => r is Err && r->Err_0 == e,
        },
{
    proof {
        reveal_strlit("main");
        assert("main"@ =~= entry_name());
    }
    match program.get("main") {
        Some(main_func) => {
            let mut env = Environment::new();
            Ok(env.exec_function(main_func))
        },
        None => Err(ErrorKind::NoEntryFunction),
    }
}

/// Parses the script `content`, given line by line, and runs it: gives the
/// commands to launch, in order, or the reason why the script is refused.
pub fn run(content: &Vec<Option<String>>) -> (r: Result<Vec<Invocation>, ErrorKind>)
    ensures
        match interpret(lines_view(content@)) {
            Ok(launched) => r is Ok && invocations_view(r->Ok_0@) == launched,
            Err(e) => r is Err && r->Err_0 == e,
        },
{
    match parse_to_ast(content) {
        Ok(program) => run_program(&program),
        Err(e) => Err(e),
    }
}

} // verus!
