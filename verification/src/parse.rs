//! Parsing a whole list of tokens against a list of definitions.

use crate::argdef::{def_models, ArgDef, DefModel};
use crate::definitions::{
    compile, parse_definitions, str_models, DefinitionError, DefinitionErrorModel, DefinitionSet,
};
use crate::engine::{
    cursor_after, lemma_step_wf, lemma_steps_shift, output_after, step, Cursor, Event, EventModel,
    Parse, ParseError, ParseErrorModel,
};
use crate::help::{help_of, Help, HelpModel};
use vstd::prelude::*;
use vstd::string::*;

verus! {

/// How a parse that met no error ended.
#[derive(Debug, Clone, PartialEq, Eq)]
pub enum End {
    /// Every token was read.
    Completed,
    /// The interrupt of this long name cut the parse short. The tokens
    /// behind it were not read, and nothing was asked of the arguments
    /// that were not given.
    Interrupted(String),
    /// A subcommand was given. Its handler is owed the program's command
    /// path, extended by the subcommand's name, and the tokens behind the
    /// subcommand, as they stand.
    Delegated { handler: usize, program: String, args: Vec<String> },
}

/// The mathematical model of an [`End`].
pub enum EndModel {
    Completed,
    Interrupted(Seq<char>),
    Delegated { handler: usize, program: Seq<char>, args: Seq<Seq<char>> },
}

impl View for End {
    type V = EndModel;

    open spec fn view(&self) -> EndModel {
        match *self {
            End::Completed => EndModel::Completed,
            End::Interrupted(name) => EndModel::Interrupted(name@),
            End::Delegated { handler, program, args } => EndModel::Delegated {
                handler,
                program: program@,
                args: str_models(args@),
            },
        }
    }
}

/// What a parse that met no error recognized.
#[derive(Debug, Clone, PartialEq, Eq)]
pub struct Parsed {
    /// The recognized arguments, in the order of the tokens. An interrupt
    /// or a subcommand is the last of them.
    pub events: Vec<Event>,
    /// How the parse ended.
    pub end: End,
}

/// The mathematical model of a [`Parsed`].
pub struct ParsedModel {
    pub events: Seq<EventModel>,
    pub end: EndModel,
}

/// The models of a list of events, in order.
pub open spec fn event_models(events: Seq<Event>) -> Seq<EventModel> {
    Seq::new(events.len(), |i: int| events[i]@)
}

impl View for Parsed {
    type V = ParsedModel;

    open spec fn view(&self) -> ParsedModel {
        ParsedModel { events: event_models(self.events@), end: self.end@ }
    }
}

/// Why a parse gave no result.
#[derive(Debug, Clone)]
pub enum Failure {
    /// The definitions cannot stand together: a mistake in the program.
    InvalidDefinitions(DefinitionError),
    /// The tokens do not fit the definitions: a mistake of the user, who
    /// is owed the usage line that the descriptions give.
    ParseFailed(ParseError, Help),
}

/// The mathematical model of a [`Failure`].
pub enum FailureModel {
    InvalidDefinitions(DefinitionErrorModel),
    ParseFailed(ParseErrorModel, HelpModel),
}

impl View for Failure {
    type V = FailureModel;

    open spec fn view(&self) -> FailureModel {
        match *self {
            Failure::InvalidDefinitions(e) => FailureModel::InvalidDefinitions(e@),
            Failure::ParseFailed(e, help) => FailureModel::ParseFailed(e@, help@),
        }
    }
}

/// The model of what [`parse_plain`] returns.
pub open spec fn result_model(r: Result<Parsed, Failure>) -> Result<ParsedModel, FailureModel> {
    match r {
        Ok(parsed) => Ok(parsed@),
        Err(failure) => Err(failure@),
    }
}

/// What a parse gives when it is stepped until it is over.
pub struct Run {
    /// The events, in the order of the steps.
    pub events: Seq<EventModel>,
    /// The error that ended the parse, if one did.
    pub error: Option<ParseErrorModel>,
    /// The cursor at the end.
    pub cursor: Cursor,
}

/// How many characters of a pending group are still to be resolved.
pub open spec fn group_left(tokens: Seq<Seq<char>>, c: Cursor) -> int {
    if c.group_pos > 0 && 0 < c.index <= tokens.len() {
        tokens[c.index - 1].len() - c.group_pos
    } else {
        0
    }
}

/// The steps from the cursor `c` until the parse is over.
pub open spec fn run(set: DefinitionSet, tokens: Seq<Seq<char>>, c: Cursor) -> Run
    decreases tokens.len() - c.index, group_left(tokens, c),
    when c.wf(set, tokens)
{
    if c.finished {
        Run { events: Seq::empty(), error: None, cursor: c }
    } else {
        let next = step(set, tokens, c);
        match next.1 {
            Some(Ok(event)) => {
                let rest = run(set, tokens, next.0);
                Run { events: seq![event] + rest.events, ..rest }
            },
            Some(Err(error)) => Run { events: Seq::empty(), error: Some(error), cursor: next.0 },
            None => Run { events: Seq::empty(), error: None, cursor: next.0 },
        }
    }
}

/// The command path that a subcommand's handler gets: the program's, a
/// space and the subcommand's name; the name alone where the program's
/// command path is empty.
pub open spec fn label(program: Seq<char>, name: Seq<char>) -> Seq<char> {
    if program.len() == 0 {
        name
    } else {
        program + " "@ + name
    }
}

/// How a run without an error ended: by what its last event says.
pub open spec fn end_of(program: Seq<char>, tokens: Seq<Seq<char>>, ran: Run) -> EndModel {
    if ran.events.len() == 0 {
        EndModel::Completed
    } else {
        match ran.events.last() {
            EventModel::Interrupt(name) => EndModel::Interrupted(name),
            EventModel::Subcommand(name, handler) => EndModel::Delegated {
                handler,
                program: label(program, name),
                args: tokens.skip(ran.cursor.index as int),
            },
            _ => EndModel::Completed,
        }
    }
}

/// What parsing `tokens` against `defs` gives: the error of the
/// definitions, else the first error of the tokens, else the events and
/// how the parse ended.
pub open spec fn parse_result(program: Seq<char>, tokens: Seq<Seq<char>>, defs: Seq<DefModel>)
    -> Result<ParsedModel, FailureModel> {
    match compile(defs) {
        Err(e) => Err(FailureModel::InvalidDefinitions(e)),
        Ok(set) => {
            let ran = run(set, tokens, Cursor::start(set, true));
            match ran.error {
                Some(e) => Err(FailureModel::ParseFailed(e, help_of(program, defs))),
                None => Ok(ParsedModel { events: ran.events, end: end_of(program, tokens, ran) }),
            }
        },
    }
}

/// The command path that a subcommand's handler gets.
pub fn subprogram(program: &str, name: &str) -> (r: String)
    ensures
        r@ == label(program@, name@),
{
    if program.is_empty() {
        name.to_owned()
    } else {
        let mut r = program.to_owned();
        r.append(" ");
        r.append(name);
        r
    }
}

/// Parses the tokens against the definitions.
///
/// The definitions are compiled first, and their error is returned where
/// they cannot stand together. The tokens are then read from left to
/// right until the first error, an interrupt, a subcommand or their end.
/// An option that holds one value may be given once. What a subcommand's
/// handler is owed is returned, not run.
pub fn parse_plain(program: &str, args: &[String], definitions: Vec<ArgDef>) -> (r: Result<
    Parsed,
    Failure,
>)
    ensures
        result_model(r) == parse_result(program@, str_models(args@), def_models(definitions@)),
{
    let ghost models = def_models(definitions@);
    let help = Help::new(program.to_owned(), definitions.as_slice());
    let defs = match parse_definitions(definitions) {
        Ok(defs) => defs,
        Err(e) => {
            return Err(Failure::InvalidDefinitions(e));
        },
    };
    let ghost set = defs@;
    let ghost tokens = str_models(args@);
    let ghost whole = run(set, tokens, Cursor::start(set, true));
    let mut parse = Parse::strict(&defs, args);
    let mut events: Vec<Event> = Vec::new();
    assert(event_models(events@) + whole.events =~= whole.events);
    while !parse.is_finished()
        invariant
            parse.wf(),
            parse.set() == set,
            parse.tokens() == tokens,
            tokens == str_models(args@),
            models == def_models(definitions@),
            compile(models) == Ok::<DefinitionSet, DefinitionErrorModel>(set),
            help@ == help_of(program@, models),
            whole == run(set, tokens, Cursor::start(set, true)),
            whole.events == event_models(events@) + run(set, tokens, parse.cursor()).events,
            whole.error == run(set, tokens, parse.cursor()).error,
            whole.cursor == run(set, tokens, parse.cursor()).cursor,
        decreases
            tokens.len() - parse.cursor().index,
            group_left(tokens, parse.cursor()),
            (if parse.cursor().finished {
                0int
            } else {
                1int
            }),
    {
        let ghost seen = event_models(events@);
        match parse.step() {
            Some(Ok(event)) => {
                events.push(event);
                proof {
                    assert(event_models(events@) =~= seen.push(event@));
                    assert(whole.events =~= event_models(events@) + run(
                        set,
                        tokens,
                        parse.cursor(),
                    ).events);
                }
            },
            Some(Err(e)) => {
                return Err(Failure::ParseFailed(e, help));
            },
            None => {},
        }
    }
    assert(whole.events =~= event_models(events@));
    let end = if events.len() == 0 {
        End::Completed
    } else {
        match &events[events.len() - 1] {
            Event::Interrupt(name) => End::Interrupted(name.clone()),
            Event::Subcommand(name, handler) => End::Delegated {
                handler: *handler,
                program: subprogram(program, name.as_str()),
                args: parse.take_remainder(),
            },
            _ => End::Completed,
        }
    };
    Ok(Parsed { events, end })
}

/// The events of a run are what its steps give, one after the other: the
/// event at place `i` is what the step after `i` steps gives.
pub proof fn lemma_run_events_are_steps(
    set: DefinitionSet,
    tokens: Seq<Seq<char>>,
    c: Cursor,
    i: nat,
)
    requires
        c.wf(set, tokens),
        i < run(set, tokens, c).events.len(),
    ensures
        output_after(set, tokens, c, i) == Some::<Result<EventModel, ParseErrorModel>>(
            Ok(run(set, tokens, c).events[i as int]),
        ),
    decreases i,
{
    let next = step(set, tokens, c);
    lemma_step_wf(set, tokens, c);
    if i > 0 {
        lemma_run_events_are_steps(set, tokens, next.0, (i - 1) as nat);
        lemma_steps_shift(set, tokens, c, (i - 1) as nat);
    }
}

} // verus!
