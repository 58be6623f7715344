//! The stepwise token scanner.
//!
//! A [`Parse`] walks over a list of tokens, front to back, and each call of
//! [`Parse::step`] gives one recognized argument, the error that ends the
//! parse, or the end of the stream. What a step does is the spec function
//! [`step`], a function of the definition set, the tokens and the cursor.

use crate::definitions::{str_models, DefinitionSet, ParseState, TargetRef};
use crate::text::push_char;
use vstd::prelude::*;
use vstd::slice::*;
use vstd::string::*;

verus! {

/// One recognized argument.
#[derive(Debug, Clone, PartialEq, Eq)]
pub enum Event {
    /// The positional slot of this name got this value.
    Positional(String, String),
    /// The trail got this value.
    TrailValue(String),
    /// The switch of this long name was given.
    Switch(String),
    /// The option of this long name was given with this parameter.
    Option(String, String),
    /// The interrupt of this long name was given. The parse is over.
    Interrupt(String),
    /// The subcommand of this name, with this handler, was given. The
    /// tokens that remain belong to the handler, and the parse is over.
    Subcommand(String, usize),
}

/// The mathematical model of an [`Event`].
pub enum EventModel {
    Positional(Seq<char>, Seq<char>),
    TrailValue(Seq<char>),
    Switch(Seq<char>),
    Option(Seq<char>, Seq<char>),
    Interrupt(Seq<char>),
    Subcommand(Seq<char>, usize),
}

impl View for Event {
    type V = EventModel;

    open spec fn view(&self) -> EventModel {
        match *self {
            Event::Positional(n, v) => EventModel::Positional(n@, v@),
            Event::TrailValue(v) => EventModel::TrailValue(v@),
            Event::Switch(n) => EventModel::Switch(n@),
            Event::Option(n, v) => EventModel::Option(n@, v@),
            Event::Interrupt(n) => EventModel::Interrupt(n@),
            Event::Subcommand(n, h) => EventModel::Subcommand(n@, h),
        }
    }
}

/// Why a list of tokens does not fit the definitions. Each of these is a
/// mistake in what the user typed.
#[derive(Debug, Clone, PartialEq, Eq)]
pub enum ParseError {
    /// The tokens ended before the positional slot of this name was filled.
    MissingPositional(String),
    /// The trail needs at least one value and got none.
    MissingTrail,
    /// This token is a value that no definition takes.
    UnexpectedPositional(String),
    /// This character, in this token, is no alias.
    UnknownShortArgument(char, String),
    /// This token is no long name.
    UnknownLongArgument(String),
    /// This token is no subcommand.
    UnknownSubcommand(String),
    /// The option given by this token has no parameter after it.
    MissingParameter(String),
    /// This character, in this token, is the alias of an option that takes
    /// a parameter, and it is not the last of its group.
    GroupedNonSwitch(char, String),
    /// The option of this long name, which holds one value, was given a
    /// second time. Only a parse that rejects repeats gives this error.
    OptionGivenTwice(String),
}

/// The mathematical model of a [`ParseError`].
pub enum ParseErrorModel {
    MissingPositional(Seq<char>),
    MissingTrail,
    UnexpectedPositional(Seq<char>),
    UnknownShortArgument(char, Seq<char>),
    UnknownLongArgument(Seq<char>),
    UnknownSubcommand(Seq<char>),
    MissingParameter(Seq<char>),
    GroupedNonSwitch(char, Seq<char>),
    OptionGivenTwice(Seq<char>),
}

impl View for ParseError {
    type V = ParseErrorModel;

    open spec fn view(&self) -> ParseErrorModel {
        match *self {
            ParseError::MissingPositional(n) => ParseErrorModel::MissingPositional(n@),
            ParseError::MissingTrail => ParseErrorModel::MissingTrail,
            ParseError::UnexpectedPositional(t) => ParseErrorModel::UnexpectedPositional(t@),
            ParseError::UnknownShortArgument(c, t) => ParseErrorModel::UnknownShortArgument(c, t@),
            ParseError::UnknownLongArgument(t) => ParseErrorModel::UnknownLongArgument(t@),
            ParseError::UnknownSubcommand(t) => ParseErrorModel::UnknownSubcommand(t@),
            ParseError::MissingParameter(t) => ParseErrorModel::MissingParameter(t@),
            ParseError::GroupedNonSwitch(c, t) => ParseErrorModel::GroupedNonSwitch(c, t@),
            ParseError::OptionGivenTwice(n) => ParseErrorModel::OptionGivenTwice(n@),
        }
    }
}

/// A text between single quotes.
pub open spec fn quoted(text: Seq<char>) -> Seq<char> {
    "'"@ + text + "'"@
}

/// An alias as it is typed, between single quotes.
pub open spec fn quoted_alias(alias: char) -> Seq<char> {
    "'-"@.push(alias) + "'"@
}

/// What [`ParseError::message`] says of an error.
pub open spec fn parse_error_text(e: ParseErrorModel) -> Seq<char> {
    match e {
        ParseErrorModel::MissingPositional(name) => "Missing positional argument "@ + quoted(name),
        ParseErrorModel::MissingTrail => "Expected at least one trailing argument"@,
        ParseErrorModel::UnexpectedPositional(token) => "Unexpected argument "@ + quoted(token),
        ParseErrorModel::UnknownShortArgument(alias, token) => "Unknown option "@ + quoted_alias(
            alias,
        ) + " in "@ + quoted(token),
        ParseErrorModel::UnknownLongArgument(token) => "Unknown option "@ + quoted(token),
        ParseErrorModel::UnknownSubcommand(token) => "Unknown subcommand: "@ + quoted(token),
        ParseErrorModel::MissingParameter(token) => "Missing argument for option "@ + quoted(token),
        ParseErrorModel::GroupedNonSwitch(alias, token) => "Option "@ + quoted_alias(alias)
            + " takes an argument and must come last in "@ + quoted(token),
        ParseErrorModel::OptionGivenTwice(name) => "Option "@ + quoted(name) + " given twice!"@,
    }
}

/// Writes a text between single quotes.
fn write_quoted(s: &mut String, text: &str)
    ensures
        final(s)@ == old(s)@ + quoted(text@),
{
    s.append("'");
    s.append(text);
    s.append("'");
    assert(s@ =~= old(s)@ + quoted(text@));
}

/// Writes an alias as it is typed, between single quotes.
fn write_quoted_alias(s: &mut String, alias: char)
    ensures
        final(s)@ == old(s)@ + quoted_alias(alias),
{
    s.append("'-");
    push_char(s, alias);
    s.append("'");
    assert(s@ =~= old(s)@ + quoted_alias(alias));
}

impl ParseError {
    /// The error in words, for the user.
    pub fn message(&self) -> (r: String)
        ensures
            r@ == parse_error_text(self@),
    {
        let mut s = String::new();
        match self {
            ParseError::MissingPositional(name) => {
                s.append("Missing positional argument ");
                write_quoted(&mut s, name.as_str());
            },
            ParseError::MissingTrail => {
                s.append("Expected at least one trailing argument");
            },
            ParseError::UnexpectedPositional(token) => {
                s.append("Unexpected argument ");
                write_quoted(&mut s, token.as_str());
            },
            ParseError::UnknownShortArgument(alias, token) => {
                s.append("Unknown option ");
                write_quoted_alias(&mut s, *alias);
                s.append(" in ");
                write_quoted(&mut s, token.as_str());
            },
            ParseError::UnknownLongArgument(token) => {
                s.append("Unknown option ");
                write_quoted(&mut s, token.as_str());
            },
            ParseError::UnknownSubcommand(token) => {
                s.append("Unknown subcommand: ");
                write_quoted(&mut s, token.as_str());
            },
            ParseError::MissingParameter(token) => {
                s.append("Missing argument for option ");
                write_quoted(&mut s, token.as_str());
            },
            ParseError::GroupedNonSwitch(alias, token) => {
                s.append("Option ");
                write_quoted_alias(&mut s, *alias);
                s.append(" takes an argument and must come last in ");
                write_quoted(&mut s, token.as_str());
            },
            ParseError::OptionGivenTwice(name) => {
                s.append("Option ");
                write_quoted(&mut s, name.as_str());
                s.append(" given twice!");
            },
        }
        assert(s@ =~= parse_error_text(self@));
        s
    }
}

/// What one step gives: an event, the error that ends the parse, or
/// nothing, at the end of the stream.
pub type Output = Option<Result<EventModel, ParseErrorModel>>;

/// The model of what a call of [`Parse::step`] returns.
pub open spec fn output_model(r: Option<Result<Event, ParseError>>) -> Output {
    match r {
        Some(Ok(e)) => Some(Ok(e@)),
        Some(Err(e)) => Some(Err(e@)),
        None => None,
    }
}

/// The mathematical model of the scanner's position.
pub struct Cursor {
    /// How many tokens have been read.
    pub index: nat,
    /// How many positional slots have been filled.
    pub next_positional: nat,
    /// How many values the trail has got.
    pub trail_count: nat,
    /// Where the scanner stands in a group of aliases: 0 where no group is
    /// pending, else the place, in the token read last, of the next
    /// character to resolve.
    pub group_pos: nat,
    /// Whether the parse is over.
    pub finished: bool,
    /// Whether the parse rejects a second value for an option that holds
    /// one value. This is fixed when the parse starts.
    pub reject_repeats: bool,
    /// For each option of the definition set, by its index, whether it
    /// holds one value and has been given.
    pub given: Seq<bool>,
}

impl Cursor {
    /// The cursor before the first step of a parse against `set`.
    pub open spec fn start(set: DefinitionSet, reject_repeats: bool) -> Cursor {
        Cursor {
            index: 0,
            next_positional: 0,
            trail_count: 0,
            group_pos: 0,
            finished: false,
            reject_repeats,
            given: Seq::new(set.options.len(), |k: int| false),
        }
    }

    /// The cursor of a parse that is over, standing behind `index` tokens.
    pub open spec fn end(self, index: nat) -> Cursor {
        Cursor { index, group_pos: 0, finished: true, ..self }
    }

    /// The invariant of a cursor over the given definitions and tokens.
    pub open spec fn wf(self, set: DefinitionSet, tokens: Seq<Seq<char>>) -> bool {
        &&& self.index <= tokens.len()
        &&& self.given.len() == set.options.len()
        &&& self.next_positional <= set.positional.len()
        &&& self.next_positional + self.trail_count <= self.index
        &&& self.group_pos > 0 ==> {
            &&& !self.finished
            &&& self.index > 0
            &&& is_short(tokens[self.index - 1])
            &&& 2 <= self.group_pos < tokens[self.index - 1].len()
        }
    }

    /// Where in the tokens the next step reads: the token's index and the
    /// place of the character in it, 0 where the step reads a whole token.
    pub open spec fn place(self) -> (int, int) {
        if self.group_pos > 0 {
            (self.index - 1, self.group_pos as int)
        } else {
            (self.index as int, 0)
        }
    }
}

/// Whether the token looks like a flag: it starts with a dash.
pub open spec fn starts_with_dash(token: Seq<char>) -> bool {
    token.len() > 0 && token[0] == '-'
}

/// Whether the token gives a long name: it starts with two dashes.
pub open spec fn is_long(token: Seq<char>) -> bool {
    token.len() >= 2 && token[0] == '-' && token[1] == '-'
}

/// Whether the token gives one alias or a group of them: it starts with
/// exactly one dash, and at least one character follows. A dash alone is
/// neither a long name nor an alias, and is read as a value.
pub open spec fn is_short(token: Seq<char>) -> bool {
    token.len() >= 2 && token[0] == '-' && token[1] != '-'
}

/// The step of an option that takes a parameter: `token` gave the option
/// at index `k` of the set, and the parameter is looked for at `next`. A
/// token that starts with a dash is no parameter. Where the parse rejects
/// repeats, an option that holds one value and was given before is an
/// error, whatever follows it.
pub open spec fn take_param(
    set: DefinitionSet,
    tokens: Seq<Seq<char>>,
    c: Cursor,
    k: int,
    token: Seq<char>,
    next: nat,
) -> (Cursor, Output) {
    let option = set.options[k];
    if c.reject_repeats && option.target is Setting && c.given[k] {
        (c.end(c.index), Some(Err(ParseErrorModel::OptionGivenTwice(option.name))))
    } else if next < tokens.len() && !starts_with_dash(tokens[next as int]) {
        (
            Cursor {
                index: next + 1,
                group_pos: 0,
                given: if option.target is Setting {
                    c.given.update(k, true)
                } else {
                    c.given
                },
                ..c
            },
            Some(Ok(EventModel::Option(option.name, tokens[next as int]))),
        )
    } else {
        (c.end(c.index), Some(Err(ParseErrorModel::MissingParameter(token))))
    }
}

/// The step that resolves the alias at place `pos` of the token at
/// `token_index`. Only the last alias of a token may take a parameter.
pub open spec fn resolve_short(
    set: DefinitionSet,
    tokens: Seq<Seq<char>>,
    c: Cursor,
    token_index: nat,
    pos: nat,
) -> (Cursor, Output) {
    let token = tokens[token_index as int];
    let alias = token[pos as int];
    let last = pos + 1 >= token.len();
    match set.find_short(alias) {
        None => (c.end(c.index), Some(Err(ParseErrorModel::UnknownShortArgument(alias, token)))),
        Some(k) => {
            let option = set.options[k];
            if option.target.takes_param() {
                if last {
                    take_param(set, tokens, c, k, token, token_index + 1)
                } else {
                    (c.end(c.index), Some(Err(ParseErrorModel::GroupedNonSwitch(alias, token))))
                }
            } else if option.target is Interrupt {
                (c.end(token_index + 1), Some(Ok(EventModel::Interrupt(option.name))))
            } else {
                (
                    Cursor {
                        index: token_index + 1,
                        group_pos: if last {
                            0
                        } else {
                            pos + 1
                        },
                        ..c
                    },
                    Some(Ok(EventModel::Switch(option.name))),
                )
            }
        },
    }
}

/// The step on a token that gives a long name.
pub open spec fn scan_long(set: DefinitionSet, tokens: Seq<Seq<char>>, c: Cursor) -> (
    Cursor,
    Output,
) {
    let token = tokens[c.index as int];
    match set.find_long(token.subrange(2, token.len() as int)) {
        None => (c.end(c.index), Some(Err(ParseErrorModel::UnknownLongArgument(token)))),
        Some(k) => {
            let option = set.options[k];
            if option.target.takes_param() {
                take_param(set, tokens, c, k, token, c.index + 1)
            } else if option.target is Interrupt {
                (c.end(c.index + 1), Some(Ok(EventModel::Interrupt(option.name))))
            } else {
                (Cursor { index: c.index + 1, ..c }, Some(Ok(EventModel::Switch(option.name))))
            }
        },
    }
}

/// The step on a token that is a value: it fills the next positional
/// slot; with all of them filled it names a subcommand, where there are
/// subcommands, and else belongs to the trail.
pub open spec fn scan_value(set: DefinitionSet, tokens: Seq<Seq<char>>, c: Cursor) -> (
    Cursor,
    Output,
) {
    let token = tokens[c.index as int];
    if c.next_positional < set.positional.len() {
        (
            Cursor { index: c.index + 1, next_positional: c.next_positional + 1, ..c },
            Some(Ok(EventModel::Positional(set.positional[c.next_positional as int], token))),
        )
    } else if set.subcommands.len() > 0 {
        match set.find_subcommand(token) {
            Some(k) => (
                c.end(c.index + 1),
                Some(Ok(EventModel::Subcommand(set.subcommands[k].name, set.subcommands[k].handler))),
            ),
            None => (c.end(c.index), Some(Err(ParseErrorModel::UnknownSubcommand(token)))),
        }
    } else if set.trail is Some {
        (
            Cursor { index: c.index + 1, trail_count: c.trail_count + 1, ..c },
            Some(Ok(EventModel::TrailValue(token))),
        )
    } else {
        (c.end(c.index), Some(Err(ParseErrorModel::UnexpectedPositional(token))))
    }
}

/// The step at the end of the tokens: every positional slot must have
/// been filled, and a trail that is not optional must have got a value.
pub open spec fn end_of_stream(set: DefinitionSet, c: Cursor) -> (Cursor, Output) {
    if c.next_positional < set.positional.len() {
        (
            c.end(c.index),
            Some(Err(ParseErrorModel::MissingPositional(set.positional[c.next_positional as int]))),
        )
    } else if set.trail is Some && !set.trail->0.optional && c.trail_count == 0 {
        (c.end(c.index), Some(Err(ParseErrorModel::MissingTrail)))
    } else {
        (c.end(c.index), None)
    }
}

/// One step of the scanner: the cursor after it, and what it gives.
///
/// A parse that is over stays as it is and gives nothing. A pending group
/// of aliases is resolved before a new token is read. A token is then read
/// by its shape: a long name, an alias or a group of them, or a value.
pub open spec fn step(set: DefinitionSet, tokens: Seq<Seq<char>>, c: Cursor) -> (Cursor, Output) {
    if c.finished {
        (c, None)
    } else if c.group_pos > 0 {
        resolve_short(set, tokens, c, (c.index - 1) as nat, c.group_pos)
    } else if c.index >= tokens.len() {
        end_of_stream(set, c)
    } else if is_long(tokens[c.index as int]) {
        scan_long(set, tokens, c)
    } else if is_short(tokens[c.index as int]) {
        resolve_short(set, tokens, c, c.index, 1)
    } else {
        scan_value(set, tokens, c)
    }
}

/// Whether the token looks like a flag: it starts with a dash.
fn token_starts_with_dash(token: &String) -> (r: bool)
    ensures
        r == starts_with_dash(token@),
{
    let s = token.as_str();
    s.unicode_len() > 0 && s.get_char(0) == '-'
}

/// A parse in progress: the definitions, the tokens and the cursor over
/// them. The definitions and the tokens belong to the caller and are only
/// read.
#[derive(Debug)]
pub struct Parse<'a> {
    defs: &'a ParseState,
    tokens: &'a [String],
    index: usize,
    next_positional: usize,
    trail_count: usize,
    group_pos: usize,
    finished: bool,
    reject_repeats: bool,
    given: Vec<bool>,
}

impl<'a> Parse<'a> {
    /// The definitions that the parse reads.
    pub closed spec fn set(&self) -> DefinitionSet {
        self.defs@
    }

    /// The tokens that the parse reads.
    pub closed spec fn tokens(&self) -> Seq<Seq<char>> {
        str_models(self.tokens@)
    }

    /// Where the parse stands.
    pub closed spec fn cursor(&self) -> Cursor {
        Cursor {
            index: self.index as nat,
            next_positional: self.next_positional as nat,
            trail_count: self.trail_count as nat,
            group_pos: self.group_pos as nat,
            finished: self.finished,
            reject_repeats: self.reject_repeats,
            given: self.given@,
        }
    }

    /// The invariant of a parse: that of its cursor.
    pub open spec fn wf(&self) -> bool {
        self.cursor().wf(self.set(), self.tokens())
    }

    /// Starts a parse of `tokens` against `defs`. An option may be given
    /// any number of times: what a repeated value means is left to whoever
    /// reads the events.
    pub fn new(defs: &'a ParseState, tokens: &'a [String]) -> (r: Parse<'a>)
        ensures
            r.wf(),
            r.set() == defs@,
            r.tokens() == str_models(tokens@),
            r.cursor() == Cursor::start(defs@, false),
    {
        Parse::start(defs, tokens, false)
    }

    /// Starts a parse of `tokens` against `defs` that rejects a second
    /// value for an option that holds one value. An option that collects
    /// its values may still be given any number of times.
    pub fn strict(defs: &'a ParseState, tokens: &'a [String]) -> (r: Parse<'a>)
        ensures
            r.wf(),
            r.set() == defs@,
            r.tokens() == str_models(tokens@),
            r.cursor() == Cursor::start(defs@, true),
    {
        Parse::start(defs, tokens, true)
    }

    /// Starts a parse with the given answer to a repeated option.
    fn start(defs: &'a ParseState, tokens: &'a [String], reject_repeats: bool) -> (r: Parse<'a>)
        ensures
            r.wf(),
            r.set() == defs@,
            r.tokens() == str_models(tokens@),
            r.cursor() == Cursor::start(defs@, reject_repeats),
    {
        let mut given: Vec<bool> = Vec::new();
        let mut k: usize = 0;
        while k < defs.options_len()
            invariant
                k <= defs@.options.len(),
                given@.len() == k,
                forall|j: int| 0 <= j < k ==> !given@[j],
            decreases defs@.options.len() - k,
        {
            given.push(false);
            k += 1;
        }
        assert(given@ =~= Seq::new(defs@.options.len(), |k: int| false));
        Parse {
            defs,
            tokens,
            index: 0,
            next_positional: 0,
            trail_count: 0,
            group_pos: 0,
            finished: false,
            reject_repeats,
            given,
        }
    }

    /// Whether the parse is over.
    pub fn is_finished(&self) -> (r: bool)
        ensures
            r == self.cursor().finished,
    {
        self.finished
    }

    /// The tokens that have not been read, as they stand.
    pub fn remainder(&self) -> (r: &'a [String])
        requires
            self.wf(),
        ensures
            str_models(r@) == self.tokens().skip(self.cursor().index as int),
    {
        let tokens = self.tokens;
        let r = slice_subrange(tokens, self.index, tokens.len());
        assert(str_models(r@) =~= self.tokens().skip(self.cursor().index as int));
        r
    }

    /// Ends the parse and returns the tokens that have not been read, as
    /// they stand.
    pub fn take_remainder(&mut self) -> (r: Vec<String>)
        requires
            old(self).wf(),
        ensures
            final(self).wf(),
            final(self).set() == old(self).set(),
            final(self).tokens() == old(self).tokens(),
            final(self).cursor() == old(self).cursor().end(old(self).cursor().index),
            str_models(r@) == old(self).tokens().skip(old(self).cursor().index as int),
    {
        let tokens = self.tokens;
        let mut rest: Vec<String> = Vec::new();
        let mut i: usize = self.index;
        while i < tokens.len()
            invariant
                self.index <= i <= tokens.len(),
                rest@.len() == i - self.index,
                forall|j: int| 0 <= j < rest@.len() ==> rest@[j]@ == tokens@[self.index + j]@,
            decreases tokens.len() - i,
        {
            rest.push(tokens[i].clone());
            i += 1;
        }
        self.group_pos = 0;
        self.finished = true;
        assert(str_models(rest@) =~= old(self).tokens().skip(old(self).cursor().index as int));
        rest
    }

    /// Ends the parse where it stands.
    fn finish(&mut self)
        ensures
            final(self).set() == old(self).set(),
            final(self).tokens() == old(self).tokens(),
            final(self).cursor() == old(self).cursor().end(old(self).cursor().index),
    {
        self.group_pos = 0;
        self.finished = true;
    }

    /// Takes the token at `next` as the parameter of the option at index
    /// `k`, which `token` gave.
    fn take_param(&mut self, k: usize, token: &String, next: usize) -> (r: Option<
        Result<Event, ParseError>,
    >)
        requires
            old(self).wf(),
            k < old(self).set().options.len(),
            old(self).cursor().index <= next <= old(self).tokens().len(),
        ensures
            final(self).set() == old(self).set(),
            final(self).tokens() == old(self).tokens(),
            (final(self).cursor(), output_model(r)) == take_param(
                old(self).set(),
                old(self).tokens(),
                old(self).cursor(),
                k as int,
                token@,
                next as nat,
            ),
    {
        let tokens = self.tokens;
        let option = self.defs.option_at(k);
        let single = option.target == TargetRef::Setting;
        if self.reject_repeats && single && self.given[k] {
            self.finish();
            Some(Err(ParseError::OptionGivenTwice(option.name.clone())))
        } else if next < tokens.len() && !token_starts_with_dash(&tokens[next]) {
            self.index = next + 1;
            self.group_pos = 0;
            if single {
                self.given.set(k, true);
            }
            Some(Ok(Event::Option(option.name.clone(), tokens[next].clone())))
        } else {
            self.finish();
            Some(Err(ParseError::MissingParameter(token.clone())))
        }
    }

    /// Resolves the alias at place `pos` of the token at `token_index`.
    fn resolve_short(&mut self, token_index: usize, pos: usize) -> (r: Option<
        Result<Event, ParseError>,
    >)
        requires
            old(self).wf(),
            token_index < old(self).tokens().len(),
            token_index <= old(self).cursor().index <= token_index + 1,
            1 <= pos < old(self).tokens()[token_index as int].len(),
        ensures
            final(self).set() == old(self).set(),
            final(self).tokens() == old(self).tokens(),
            (final(self).cursor(), output_model(r)) == resolve_short(
                old(self).set(),
                old(self).tokens(),
                old(self).cursor(),
                token_index as nat,
                pos as nat,
            ),
    {
        let tokens = self.tokens;
        let defs = self.defs;
        let token = &tokens[token_index];
        let text = token.as_str();
        let len = text.unicode_len();
        assert(text@ == self.tokens()[token_index as int]);
        let alias = text.get_char(pos);
        let last = pos + 1 >= len;
        match defs.find_short(alias) {
            None => {
                self.finish();
                Some(Err(ParseError::UnknownShortArgument(alias, token.clone())))
            },
            Some(k) => {
                let option = defs.option_at(k);
                if option.target.needs_param() {
                    if last {
                        self.take_param(k, token, token_index + 1)
                    } else {
                        self.finish();
                        Some(Err(ParseError::GroupedNonSwitch(alias, token.clone())))
                    }
                } else if option.target == TargetRef::Interrupt {
                    self.index = token_index + 1;
                    self.group_pos = 0;
                    self.finished = true;
                    Some(Ok(Event::Interrupt(option.name.clone())))
                } else {
                    self.index = token_index + 1;
                    self.group_pos = if last {
                        0
                    } else {
                        pos + 1
                    };
                    Some(Ok(Event::Switch(option.name.clone())))
                }
            },
        }
    }

    /// Reads the token at the cursor, which gives a long name.
    fn scan_long(&mut self) -> (r: Option<Result<Event, ParseError>>)
        requires
            old(self).wf(),
            old(self).cursor().index < old(self).tokens().len(),
            is_long(old(self).tokens()[old(self).cursor().index as int]),
        ensures
            final(self).set() == old(self).set(),
            final(self).tokens() == old(self).tokens(),
            (final(self).cursor(), output_model(r)) == scan_long(
                old(self).set(),
                old(self).tokens(),
                old(self).cursor(),
            ),
    {
        let tokens = self.tokens;
        let defs = self.defs;
        let token = &tokens[self.index];
        let text = token.as_str();
        let name = text.substring_char(2, text.unicode_len()).to_owned();
        match defs.find_long(&name) {
            None => {
                self.finish();
                Some(Err(ParseError::UnknownLongArgument(token.clone())))
            },
            Some(k) => {
                let option = defs.option_at(k);
                if option.target.needs_param() {
                    self.take_param(k, token, self.index + 1)
                } else if option.target == TargetRef::Interrupt {
                    self.index = self.index + 1;
                    self.group_pos = 0;
                    self.finished = true;
                    Some(Ok(Event::Interrupt(option.name.clone())))
                } else {
                    self.index = self.index + 1;
                    Some(Ok(Event::Switch(option.name.clone())))
                }
            },
        }
    }

    /// Reads the token at the cursor, which is a value.
    fn scan_value(&mut self) -> (r: Option<Result<Event, ParseError>>)
        requires
            old(self).wf(),
            old(self).cursor().group_pos == 0,
            old(self).cursor().index < old(self).tokens().len(),
        ensures
            final(self).set() == old(self).set(),
            final(self).tokens() == old(self).tokens(),
            (final(self).cursor(), output_model(r)) == scan_value(
                old(self).set(),
                old(self).tokens(),
                old(self).cursor(),
            ),
    {
        let tokens = self.tokens;
        let defs = self.defs;
        let token = &tokens[self.index];
        if self.next_positional < defs.positional_len() {
            let name = defs.positional_name(self.next_positional);
            self.index = self.index + 1;
            self.next_positional = self.next_positional + 1;
            Some(Ok(Event::Positional(name.clone(), token.clone())))
        } else if defs.subcommands_len() > 0 {
            match defs.find_subcommand(token) {
                Some(k) => {
                    let sub = defs.subcommand_at(k);
                    self.index = self.index + 1;
                    self.finished = true;
                    Some(Ok(Event::Subcommand(sub.name.clone(), sub.handler)))
                },
                None => {
                    self.finish();
                    Some(Err(ParseError::UnknownSubcommand(token.clone())))
                },
            }
        } else if defs.trail().is_some() {
            self.index = self.index + 1;
            self.trail_count = self.trail_count + 1;
            Some(Ok(Event::TrailValue(token.clone())))
        } else {
            self.finish();
            Some(Err(ParseError::UnexpectedPositional(token.clone())))
        }
    }

    /// Ends the parse at the end of the tokens.
    fn end_of_stream(&mut self) -> (r: Option<Result<Event, ParseError>>)
        requires
            old(self).wf(),
        ensures
            final(self).set() == old(self).set(),
            final(self).tokens() == old(self).tokens(),
            (final(self).cursor(), output_model(r)) == end_of_stream(
                old(self).set(),
                old(self).cursor(),
            ),
    {
        let defs = self.defs;
        let required = match defs.trail() {
            Some(trail) => !trail.optional,
            None => false,
        };
        if self.next_positional < defs.positional_len() {
            let name = defs.positional_name(self.next_positional);
            self.finish();
            Some(Err(ParseError::MissingPositional(name.clone())))
        } else if required && self.trail_count == 0 {
            self.finish();
            Some(Err(ParseError::MissingTrail))
        } else {
            self.finish();
            None
        }
    }

    /// Takes one step: gives the next recognized argument, the error that
    /// ends the parse, or nothing, at the end of the stream. After an
    /// error, an interrupt, a subcommand or the end of the stream the
    /// parse is over, and every further step gives nothing and changes
    /// nothing.
    pub fn step(&mut self) -> (r: Option<Result<Event, ParseError>>)
        requires
            old(self).wf(),
        ensures
            final(self).wf(),
            final(self).set() == old(self).set(),
            final(self).tokens() == old(self).tokens(),
            (final(self).cursor(), output_model(r)) == step(
                old(self).set(),
                old(self).tokens(),
                old(self).cursor(),
            ),
    {
        proof {
            lemma_step_wf(self.set(), self.tokens(), self.cursor());
        }
        if self.finished {
            return None;
        }
        if self.group_pos > 0 {
            return self.resolve_short(self.index - 1, self.group_pos);
        }
        let tokens = self.tokens;
        if self.index >= tokens.len() {
            return self.end_of_stream();
        }
        let text = tokens[self.index].as_str();
        if text.unicode_len() >= 2 && text.get_char(0) == '-' {
            if text.get_char(1) == '-' {
                self.scan_long()
            } else {
                self.resolve_short(self.index, 1)
            }
        } else {
            self.scan_value()
        }
    }
}

/// A step keeps the cursor's invariant.
pub proof fn lemma_step_wf(set: DefinitionSet, tokens: Seq<Seq<char>>, c: Cursor)
    requires
        c.wf(set, tokens),
    ensures
        step(set, tokens, c).0.wf(set, tokens),
{
    if !c.finished && c.group_pos > 0 {
        let alias = tokens[c.index - 1][c.group_pos as int];
        set.aliases().index_of_first_ensures(Some(alias));
    } else if !c.finished && c.index < tokens.len() {
        let token = tokens[c.index as int];
        if is_long(token) {
            set.long_names().index_of_first_ensures(token.subrange(2, token.len() as int));
        } else if is_short(token) {
            set.aliases().index_of_first_ensures(Some(token[1]));
        }
    }
}

/// The cursor after `n` steps from `c`.
pub open spec fn cursor_after(set: DefinitionSet, tokens: Seq<Seq<char>>, c: Cursor, n: nat) -> Cursor
    decreases n,
{
    if n == 0 {
        c
    } else {
        step(set, tokens, cursor_after(set, tokens, c, (n - 1) as nat)).0
    }
}

/// What the step after `n` steps from `c` gives.
pub open spec fn output_after(set: DefinitionSet, tokens: Seq<Seq<char>>, c: Cursor, n: nat) -> Output {
    step(set, tokens, cursor_after(set, tokens, c, n)).1
}

/// Whether `a` stands before `b` in the tokens: in an earlier token, or in
/// the same token at an earlier character.
pub open spec fn place_before(a: (int, int), b: (int, int)) -> bool {
    a.0 < b.0 || (a.0 == b.0 && a.1 < b.1)
}

/// Whether the option with long name `name` is what the token gives at
/// `place`: by its long name, or by the alias at that character.
pub open spec fn names_option(set: DefinitionSet, token: Seq<char>, pos: int, name: Seq<char>) -> bool {
    if pos == 0 && is_long(token) {
        let k = set.find_long(token.subrange(2, token.len() as int));
        k is Some && set.options[k->0].name == name
    } else {
        let k = set.find_short(
            token[if pos == 0 {
                1
            } else {
                pos
            }],
        );
        is_short(token) && k is Some && set.options[k->0].name == name
    }
}

/// Whether the event is what the tokens hold at `place`: a value is the
/// token there, a name is the one that the token there gives, and a
/// parameter is the token that follows.
pub open spec fn event_reads(
    set: DefinitionSet,
    tokens: Seq<Seq<char>>,
    event: EventModel,
    place: (int, int),
) -> bool {
    let token = tokens[place.0];
    &&& 0 <= place.0 < tokens.len()
    &&& 0 <= place.1 < token.len() || place.1 == 0
    &&& match event {
        EventModel::Positional(_, value) => place.1 == 0 && value == token,
        EventModel::TrailValue(value) => place.1 == 0 && value == token,
        EventModel::Subcommand(name, _) => place.1 == 0 && name == token,
        EventModel::Switch(name) => names_option(set, token, place.1, name),
        EventModel::Interrupt(name) => names_option(set, token, place.1, name),
        EventModel::Option(name, value) => {
            &&& names_option(set, token, place.1, name)
            &&& place.0 + 1 < tokens.len()
            &&& value == tokens[place.0 + 1]
        },
    }
}

/// Determinism: what a step does depends on the definitions, the tokens
/// and the cursor alone. Two parses that agree on these agree on the
/// cursor after any number of steps and on what each step gives.
pub proof fn lemma_deterministic(p: &Parse, q: &Parse, n: nat)
    requires
        p.set() == q.set(),
        p.tokens() == q.tokens(),
        p.cursor() == q.cursor(),
    ensures
        cursor_after(p.set(), p.tokens(), p.cursor(), n) == cursor_after(
            q.set(),
            q.tokens(),
            q.cursor(),
            n,
        ),
        output_after(p.set(), p.tokens(), p.cursor(), n) == output_after(
            q.set(),
            q.tokens(),
            q.cursor(),
            n,
        ),
{
}

/// Absorption, first half: a step that gives an error or the end of the
/// stream leaves the parse over.
pub proof fn lemma_error_or_end_finishes(set: DefinitionSet, tokens: Seq<Seq<char>>, c: Cursor)
    ensures
        !(step(set, tokens, c).1 is Some && step(set, tokens, c).1->0 is Ok) ==> step(
            set,
            tokens,
            c,
        ).0.finished,
{
}

/// Absorption, second half: once the parse is over, every further step
/// gives the end of the stream and leaves the cursor as it is.
pub proof fn lemma_finished_is_absorbing(
    set: DefinitionSet,
    tokens: Seq<Seq<char>>,
    c: Cursor,
    n: nat,
)
    requires
        c.finished,
    ensures
        cursor_after(set, tokens, c, n) == c,
        output_after(set, tokens, c, n) is None,
    decreases n,
{
    if n > 0 {
        lemma_finished_is_absorbing(set, tokens, c, (n - 1) as nat);
    }
}

/// An interrupt and a subcommand end the parse: the step that gives one
/// leaves the parse over, so that no token behind it is read and nothing
/// is asked of the arguments that were not given.
pub proof fn lemma_interrupt_and_subcommand_finish(
    set: DefinitionSet,
    tokens: Seq<Seq<char>>,
    c: Cursor,
)
    ensures
        match step(set, tokens, c).1 {
            Some(Ok(EventModel::Interrupt(_))) => step(set, tokens, c).0.finished,
            Some(Ok(EventModel::Subcommand(_, _))) => step(set, tokens, c).0.finished,
            _ => true,
        },
{
}

/// Taking one step and then `n` more is taking `n + 1` steps.
pub proof fn lemma_steps_shift(set: DefinitionSet, tokens: Seq<Seq<char>>, c: Cursor, n: nat)
    ensures
        cursor_after(set, tokens, step(set, tokens, c).0, n) == cursor_after(set, tokens, c, n + 1),
    decreases n,
{
    if n > 0 {
        lemma_steps_shift(set, tokens, c, (n - 1) as nat);
        assert(cursor_after(set, tokens, c, n + 1) == step(
            set,
            tokens,
            cursor_after(set, tokens, c, n),
        ).0);
    } else {
        assert(cursor_after(set, tokens, c, 0) == c);
        assert(cursor_after(set, tokens, c, 1) == step(
            set,
            tokens,
            cursor_after(set, tokens, c, 0),
        ).0);
    }
}

/// Order, for one step: an event is what the tokens hold at the place
/// where the cursor stood, and the step moves the cursor to a later place.
pub proof fn lemma_event_in_order(set: DefinitionSet, tokens: Seq<Seq<char>>, c: Cursor)
    requires
        c.wf(set, tokens),
        step(set, tokens, c).1 is Some,
        step(set, tokens, c).1->0 is Ok,
    ensures
        event_reads(set, tokens, step(set, tokens, c).1->0->Ok_0, c.place()),
        place_before(c.place(), step(set, tokens, c).0.place()),
{
    if c.group_pos == 0 && c.index < tokens.len() {
        set.subcommand_names().index_of_first_ensures(tokens[c.index as int]);
    }
}

/// Order, for a whole parse: of two steps that give events, the later
/// one reads at a later place of the tokens.
pub proof fn lemma_events_in_token_order(
    set: DefinitionSet,
    tokens: Seq<Seq<char>>,
    c: Cursor,
    m: nat,
    n: nat,
)
    requires
        c.wf(set, tokens),
        m < n,
        output_after(set, tokens, c, m) is Some,
        output_after(set, tokens, c, m)->0 is Ok,
        output_after(set, tokens, c, n) is Some,
        output_after(set, tokens, c, n)->0 is Ok,
    ensures
        place_before(
            cursor_after(set, tokens, c, m).place(),
            cursor_after(set, tokens, c, n).place(),
        ),
        event_reads(
            set,
            tokens,
            output_after(set, tokens, c, m)->0->Ok_0,
            cursor_after(set, tokens, c, m).place(),
        ),
        event_reads(
            set,
            tokens,
            output_after(set, tokens, c, n)->0->Ok_0,
            cursor_after(set, tokens, c, n).place(),
        ),
    decreases n,
{
    lemma_steps_wf(set, tokens, c, m);
    lemma_steps_wf(set, tokens, c, n);
    lemma_steps_wf(set, tokens, c, (n - 1) as nat);
    let before = cursor_after(set, tokens, c, (n - 1) as nat);
    lemma_event_in_order(set, tokens, cursor_after(set, tokens, c, m));
    lemma_event_in_order(set, tokens, cursor_after(set, tokens, c, n));
    // The step before the `n`th gave an event: after an error or the end of
    // the stream the `n`th would give nothing.
    if !(step(set, tokens, before).1 is Some && step(set, tokens, before).1->0 is Ok) {
        lemma_error_or_end_finishes(set, tokens, before);
        assert(false);
    }
    lemma_event_in_order(set, tokens, before);
    if m < n - 1 {
        lemma_events_in_token_order(set, tokens, c, m, (n - 1) as nat);
    }
}

/// Any number of steps keeps the cursor's invariant.
pub proof fn lemma_steps_wf(set: DefinitionSet, tokens: Seq<Seq<char>>, c: Cursor, n: nat)
    requires
        c.wf(set, tokens),
    ensures
        cursor_after(set, tokens, c, n).wf(set, tokens),
    decreases n,
{
    if n > 0 {
        lemma_steps_wf(set, tokens, c, (n - 1) as nat);
        lemma_step_wf(set, tokens, cursor_after(set, tokens, c, (n - 1) as nat));
    }
}

} // verus!
