use argonaut::{parse_definitions, ArgDef, Event, Parse, ParseError, ParseState, TargetRef};

fn s(text: &str) -> String {
    text.to_string()
}

fn toks(tokens: &[&str]) -> Vec<String> {
    tokens.iter().map(|t| t.to_string()).collect()
}

fn compile(defs: Vec<ArgDef>) -> ParseState {
    parse_definitions(defs).unwrap()
}

fn switches() -> ParseState {
    compile(vec![
        ArgDef::flag("a").short('a'),
        ArgDef::flag("b").short('b'),
        ArgDef::option("c").short('c'),
    ])
}

fn all_steps(parse: &mut Parse) -> Vec<Option<Result<Event, ParseError>>> {
    let mut out = Vec::new();
    loop {
        let step = parse.step();
        let done = step.is_none();
        out.push(step);
        if done || parse.is_finished() {
            return out;
        }
    }
}

#[test]
fn positional_trail_and_switch_in_turn() {
    let defs = compile(vec![
        ArgDef::pos("foo"),
        ArgDef::trail("rest", false),
        ArgDef::flag("verbose").short('v'),
    ]);
    let tokens = toks(&["x", "a", "b", "-v"]);
    let mut parse = Parse::new(&defs, &tokens);
    assert_eq!(parse.step(), Some(Ok(Event::Positional(s("foo"), s("x")))));
    assert_eq!(parse.step(), Some(Ok(Event::TrailValue(s("a")))));
    assert_eq!(parse.step(), Some(Ok(Event::TrailValue(s("b")))));
    assert_eq!(parse.step(), Some(Ok(Event::Switch(s("verbose")))));
    assert!(!parse.is_finished());
    assert_eq!(parse.step(), None);
    assert!(parse.is_finished());
}

#[test]
fn no_tokens_leave_the_positional_missing() {
    let defs = compile(vec![ArgDef::pos("foo")]);
    let tokens = toks(&[]);
    let mut parse = Parse::new(&defs, &tokens);
    assert_eq!(parse.step(), Some(Err(ParseError::MissingPositional(s("foo")))));
}

#[test]
fn option_alias_without_parameter() {
    let defs = compile(vec![ArgDef::option("exclude").short('x')]);
    let tokens = toks(&["-x"]);
    let mut parse = Parse::new(&defs, &tokens);
    assert_eq!(parse.step(), Some(Err(ParseError::MissingParameter(s("-x")))));
}

#[test]
fn group_with_option_last_takes_the_next_token() {
    let defs = switches();
    let tokens = toks(&["-abc", "val"]);
    let mut parse = Parse::new(&defs, &tokens);
    assert_eq!(parse.step(), Some(Ok(Event::Switch(s("a")))));
    assert_eq!(parse.step(), Some(Ok(Event::Switch(s("b")))));
    assert_eq!(parse.step(), Some(Ok(Event::Option(s("c"), s("val")))));
    assert_eq!(parse.step(), None);
}

#[test]
fn option_first_in_group_is_an_error() {
    let defs = switches();
    let tokens = toks(&["-cab"]);
    let mut parse = Parse::new(&defs, &tokens);
    assert_eq!(parse.step(), Some(Err(ParseError::GroupedNonSwitch('c', s("-cab")))));
    assert_eq!(parse.step(), None);
}

#[test]
fn option_in_the_middle_of_a_group_is_an_error() {
    let defs = switches();
    let tokens = toks(&["-acb", "val"]);
    let mut parse = Parse::new(&defs, &tokens);
    assert_eq!(parse.step(), Some(Ok(Event::Switch(s("a")))));
    assert_eq!(parse.step(), Some(Err(ParseError::GroupedNonSwitch('c', s("-acb")))));
    assert_eq!(parse.step(), None);
}

#[test]
fn subcommand_ends_the_parse_and_leaves_the_rest() {
    let defs = compile(vec![ArgDef::cmd("build", 0), ArgDef::cmd("test", 1)]);
    let tokens = toks(&["build", "--flag"]);
    let mut parse = Parse::new(&defs, &tokens);
    assert_eq!(parse.step(), Some(Ok(Event::Subcommand(s("build"), 0))));
    assert!(parse.is_finished());
    assert_eq!(parse.remainder(), &toks(&["--flag"])[..]);
    assert_eq!(parse.step(), None);
    assert_eq!(parse.remainder(), &toks(&["--flag"])[..]);
}

#[test]
fn unknown_subcommand_is_an_error() {
    let defs = compile(vec![ArgDef::cmd("build", 0), ArgDef::cmd("test", 1)]);
    let tokens = toks(&["deploy"]);
    let mut parse = Parse::new(&defs, &tokens);
    assert_eq!(parse.step(), Some(Err(ParseError::UnknownSubcommand(s("deploy")))));
}

#[test]
fn no_subcommand_given_is_a_clean_end() {
    let defs = compile(vec![ArgDef::cmd("build", 0), ArgDef::flag("verbose")]);
    let tokens = toks(&["--verbose"]);
    let mut parse = Parse::new(&defs, &tokens);
    assert_eq!(parse.step(), Some(Ok(Event::Switch(s("verbose")))));
    assert_eq!(parse.step(), None);
}

#[test]
fn long_option_takes_the_next_token() {
    let defs = compile(vec![ArgDef::option("level"), ArgDef::collect("include")]);
    let tokens = toks(&["--level", "3", "--include", "a.h", "--include", "b.h"]);
    let mut parse = Parse::new(&defs, &tokens);
    assert_eq!(parse.step(), Some(Ok(Event::Option(s("level"), s("3")))));
    assert_eq!(parse.step(), Some(Ok(Event::Option(s("include"), s("a.h")))));
    assert_eq!(parse.step(), Some(Ok(Event::Option(s("include"), s("b.h")))));
    assert_eq!(parse.step(), None);
}

#[test]
fn a_parameter_may_not_start_with_a_dash() {
    let defs = compile(vec![ArgDef::option("level"), ArgDef::flag("verbose")]);
    let tokens = toks(&["--level", "--verbose"]);
    let mut parse = Parse::new(&defs, &tokens);
    assert_eq!(parse.step(), Some(Err(ParseError::MissingParameter(s("--level")))));
    assert_eq!(parse.step(), None);

    let tokens = toks(&["--level", "-3"]);
    let mut parse = Parse::new(&defs, &tokens);
    assert_eq!(parse.step(), Some(Err(ParseError::MissingParameter(s("--level")))));

    let tokens = toks(&["--level", "-"]);
    let mut parse = Parse::new(&defs, &tokens);
    assert_eq!(parse.step(), Some(Err(ParseError::MissingParameter(s("--level")))));

    let tokens = toks(&["--level"]);
    let mut parse = Parse::new(&defs, &tokens);
    assert_eq!(parse.step(), Some(Err(ParseError::MissingParameter(s("--level")))));
}

#[test]
fn missing_parameter_of_a_group_names_the_whole_token() {
    let defs = switches();
    let tokens = toks(&["-abc"]);
    let mut parse = Parse::new(&defs, &tokens);
    assert_eq!(parse.step(), Some(Ok(Event::Switch(s("a")))));
    assert_eq!(parse.step(), Some(Ok(Event::Switch(s("b")))));
    assert_eq!(parse.step(), Some(Err(ParseError::MissingParameter(s("-abc")))));
    assert_eq!(parse.step(), None);
}

#[test]
fn an_empty_parameter_is_a_parameter() {
    let defs = compile(vec![ArgDef::option("level")]);
    let tokens = toks(&["--level", ""]);
    let mut parse = Parse::new(&defs, &tokens);
    assert_eq!(parse.step(), Some(Ok(Event::Option(s("level"), s("")))));
    assert_eq!(parse.step(), None);
}

#[test]
fn unknown_long_and_short_arguments() {
    let defs = switches();
    let tokens = toks(&["--nope"]);
    let mut parse = Parse::new(&defs, &tokens);
    assert_eq!(parse.step(), Some(Err(ParseError::UnknownLongArgument(s("--nope")))));

    let tokens = toks(&["-z"]);
    let mut parse = Parse::new(&defs, &tokens);
    assert_eq!(parse.step(), Some(Err(ParseError::UnknownShortArgument('z', s("-z")))));

    let tokens = toks(&["-azb"]);
    let mut parse = Parse::new(&defs, &tokens);
    assert_eq!(parse.step(), Some(Ok(Event::Switch(s("a")))));
    assert_eq!(parse.step(), Some(Err(ParseError::UnknownShortArgument('z', s("-azb")))));
    assert_eq!(parse.step(), None);
}

#[test]
fn an_alias_is_no_long_name() {
    let defs = switches();
    let tokens = toks(&["--a"]);
    let mut parse = Parse::new(&defs, &tokens);
    assert_eq!(parse.step(), Some(Ok(Event::Switch(s("a")))));
    let defs = compile(vec![ArgDef::flag("verbose").short('v')]);
    let tokens = toks(&["--v"]);
    let mut parse = Parse::new(&defs, &tokens);
    assert_eq!(parse.step(), Some(Err(ParseError::UnknownLongArgument(s("--v")))));
}

#[test]
fn unexpected_positional_is_an_error() {
    let defs = compile(vec![ArgDef::pos("foo")]);
    let tokens = toks(&["x", "y"]);
    let mut parse = Parse::new(&defs, &tokens);
    assert_eq!(parse.step(), Some(Ok(Event::Positional(s("foo"), s("x")))));
    assert_eq!(parse.step(), Some(Err(ParseError::UnexpectedPositional(s("y")))));
    assert_eq!(parse.step(), None);
}

#[test]
fn required_trail_without_values_is_an_error() {
    let defs = compile(vec![ArgDef::pos("foo"), ArgDef::trail("rest", false)]);
    let tokens = toks(&["x"]);
    let mut parse = Parse::new(&defs, &tokens);
    assert_eq!(parse.step(), Some(Ok(Event::Positional(s("foo"), s("x")))));
    assert_eq!(parse.step(), Some(Err(ParseError::MissingTrail)));
    assert_eq!(parse.step(), None);
}

#[test]
fn optional_trail_without_values_is_fine() {
    let defs = compile(vec![ArgDef::trail("rest", true)]);
    let tokens = toks(&[]);
    let mut parse = Parse::new(&defs, &tokens);
    assert_eq!(parse.step(), None);
    assert!(parse.is_finished());
}

#[test]
fn missing_positional_names_the_first_unfilled_slot() {
    let defs = compile(vec![ArgDef::pos("one"), ArgDef::pos("two"), ArgDef::pos("three")]);
    let tokens = toks(&["x"]);
    let mut parse = Parse::new(&defs, &tokens);
    assert_eq!(parse.step(), Some(Ok(Event::Positional(s("one"), s("x")))));
    assert_eq!(parse.step(), Some(Err(ParseError::MissingPositional(s("two")))));
}

#[test]
fn missing_positional_comes_before_missing_trail() {
    let defs = compile(vec![ArgDef::pos("one"), ArgDef::trail("rest", false)]);
    let tokens = toks(&[]);
    let mut parse = Parse::new(&defs, &tokens);
    assert_eq!(parse.step(), Some(Err(ParseError::MissingPositional(s("one")))));
}

#[test]
fn interrupt_ends_the_parse_without_checks() {
    let defs = compile(vec![
        ArgDef::pos("foo"),
        ArgDef::trail("rest", false),
        ArgDef::interrupt("help").short('h'),
        ArgDef::flag("verbose").short('v'),
    ]);
    let tokens = toks(&["--help", "more"]);
    let mut parse = Parse::new(&defs, &tokens);
    assert_eq!(parse.step(), Some(Ok(Event::Interrupt(s("help")))));
    assert!(parse.is_finished());
    assert_eq!(parse.step(), None);
    assert_eq!(parse.remainder(), &toks(&["more"])[..]);

    let tokens = toks(&["-vhv", "more"]);
    let mut parse = Parse::new(&defs, &tokens);
    assert_eq!(parse.step(), Some(Ok(Event::Switch(s("verbose")))));
    assert_eq!(parse.step(), Some(Ok(Event::Interrupt(s("help")))));
    assert_eq!(parse.step(), None);
    assert_eq!(parse.step(), None);

    let tokens = toks(&["-h"]);
    let mut parse = Parse::new(&defs, &tokens);
    assert_eq!(parse.step(), Some(Ok(Event::Interrupt(s("help")))));
    assert_eq!(parse.step(), None);
}

#[test]
fn a_lone_dash_is_a_value() {
    let defs = compile(vec![ArgDef::pos("input"), ArgDef::flag("verbose").short('v')]);
    let tokens = toks(&["-"]);
    let mut parse = Parse::new(&defs, &tokens);
    assert_eq!(parse.step(), Some(Ok(Event::Positional(s("input"), s("-")))));
    assert_eq!(parse.step(), None);
}

#[test]
fn an_empty_token_is_a_value() {
    let defs = compile(vec![ArgDef::trail("rest", true)]);
    let tokens = toks(&["", "x"]);
    let mut parse = Parse::new(&defs, &tokens);
    assert_eq!(parse.step(), Some(Ok(Event::TrailValue(s("")))));
    assert_eq!(parse.step(), Some(Ok(Event::TrailValue(s("x")))));
    assert_eq!(parse.step(), None);
}

#[test]
fn terminator_switch_and_take_remainder() {
    let defs = compile(vec![ArgDef::flag(""), ArgDef::flag("verbose").short('v')]);
    let tokens = toks(&["-v", "--", "-v", "--x", "y"]);
    let mut parse = Parse::new(&defs, &tokens);
    assert_eq!(parse.step(), Some(Ok(Event::Switch(s("verbose")))));
    assert_eq!(parse.remainder(), &toks(&["--", "-v", "--x", "y"])[..]);
    assert_eq!(parse.step(), Some(Ok(Event::Switch(s("")))));
    assert_eq!(parse.remainder(), &toks(&["-v", "--x", "y"])[..]);
    assert!(!parse.is_finished());
    assert_eq!(parse.take_remainder(), toks(&["-v", "--x", "y"]));
    assert!(parse.is_finished());
    assert_eq!(parse.step(), None);
    assert_eq!(parse.step(), None);
}

#[test]
fn remainder_of_a_fresh_parse_is_every_token() {
    let defs = compile(vec![]);
    let tokens = toks(&["a", "b"]);
    let parse = Parse::new(&defs, &tokens);
    assert_eq!(parse.remainder(), &tokens[..]);
    let none = toks(&[]);
    let parse = Parse::new(&defs, &none);
    assert!(parse.remainder().is_empty());
}

#[test]
fn non_ascii_tokens_are_read_by_character() {
    let defs = compile(vec![
        ArgDef::flag("süß").short('ß'),
        ArgDef::flag("é").short('é'),
        ArgDef::option("name").short('n'),
    ]);
    let tokens = toks(&["-ßé", "--süß", "-n", "Zoë", "--é"]);
    let mut parse = Parse::new(&defs, &tokens);
    assert_eq!(parse.step(), Some(Ok(Event::Switch(s("süß")))));
    assert_eq!(parse.step(), Some(Ok(Event::Switch(s("é")))));
    assert_eq!(parse.step(), Some(Ok(Event::Switch(s("süß")))));
    assert_eq!(parse.step(), Some(Ok(Event::Option(s("name"), s("Zoë")))));
    assert_eq!(parse.step(), Some(Ok(Event::Switch(s("é")))));
    assert_eq!(parse.step(), None);
}

#[test]
fn absorption_after_error_and_after_end() {
    let defs = switches();
    let tokens = toks(&["-a", "--nope", "-b"]);
    let mut parse = Parse::new(&defs, &tokens);
    assert_eq!(parse.step(), Some(Ok(Event::Switch(s("a")))));
    assert_eq!(parse.step(), Some(Err(ParseError::UnknownLongArgument(s("--nope")))));
    for _ in 0..5 {
        assert_eq!(parse.step(), None);
        assert!(parse.is_finished());
    }
    let tokens = toks(&["-a"]);
    let mut parse = Parse::new(&defs, &tokens);
    assert_eq!(parse.step(), Some(Ok(Event::Switch(s("a")))));
    for _ in 0..5 {
        assert_eq!(parse.step(), None);
    }
}

#[test]
fn identical_inputs_give_identical_streams() {
    let defs = compile(vec![
        ArgDef::pos("foo"),
        ArgDef::trail("rest", true),
        ArgDef::flag("a").short('a'),
        ArgDef::option("c").short('c'),
    ]);
    let other = compile(vec![
        ArgDef::pos("foo"),
        ArgDef::trail("rest", true),
        ArgDef::flag("a").short('a'),
        ArgDef::option("c").short('c'),
    ]);
    let tokens = toks(&["x", "-ac", "v", "y", "--c", "w", "-q", "z"]);
    let again = tokens.clone();
    let first = all_steps(&mut Parse::new(&defs, &tokens));
    let second = all_steps(&mut Parse::new(&other, &again));
    assert_eq!(first, second);
    assert_eq!(first.len(), 6);
    assert_eq!(first[4], Some(Ok(Event::Option(s("c"), s("w")))));
    assert_eq!(first[5], Some(Err(ParseError::UnknownShortArgument('q', s("-q")))));
}

#[test]
fn events_follow_the_order_of_the_tokens() {
    let defs = compile(vec![
        ArgDef::pos("p"),
        ArgDef::trail("rest", true),
        ArgDef::flag("a").short('a'),
        ArgDef::count("b").short('b'),
        ArgDef::option("c").short('c'),
    ]);
    let tokens = toks(&["-ab", "one", "--c", "two", "three", "-bac", "four", "five"]);
    let steps = all_steps(&mut Parse::new(&defs, &tokens));
    assert_eq!(
        steps,
        vec![
            Some(Ok(Event::Switch(s("a")))),
            Some(Ok(Event::Switch(s("b")))),
            Some(Ok(Event::Positional(s("p"), s("one")))),
            Some(Ok(Event::Option(s("c"), s("two")))),
            Some(Ok(Event::TrailValue(s("three")))),
            Some(Ok(Event::Switch(s("b")))),
            Some(Ok(Event::Switch(s("a")))),
            Some(Ok(Event::Option(s("c"), s("four")))),
            Some(Ok(Event::TrailValue(s("five")))),
            None,
        ]
    );
}

#[test]
fn repeats_are_allowed_unless_rejected() {
    let defs = compile(vec![
        ArgDef::option("level").short('l'),
        ArgDef::collect("include").short('i'),
    ]);
    let tokens = toks(&["--level", "1", "-l", "2", "-i", "a", "-i", "b"]);
    let mut parse = Parse::new(&defs, &tokens);
    assert_eq!(parse.step(), Some(Ok(Event::Option(s("level"), s("1")))));
    assert_eq!(parse.step(), Some(Ok(Event::Option(s("level"), s("2")))));
    assert_eq!(parse.step(), Some(Ok(Event::Option(s("include"), s("a")))));
    assert_eq!(parse.step(), Some(Ok(Event::Option(s("include"), s("b")))));
    assert_eq!(parse.step(), None);
}

#[test]
fn strict_parse_rejects_a_second_value() {
    let defs = compile(vec![
        ArgDef::flag("verbose").short('v'),
        ArgDef::option("level").short('l'),
        ArgDef::collect("include").short('i'),
        ArgDef::option("name"),
    ]);
    let tokens = toks(&["-i", "a", "--level", "1", "-v", "-i", "b", "--name", "x", "-vl", "2", "-v"]);
    let mut parse = Parse::strict(&defs, &tokens);
    assert_eq!(parse.step(), Some(Ok(Event::Option(s("include"), s("a")))));
    assert_eq!(parse.step(), Some(Ok(Event::Option(s("level"), s("1")))));
    assert_eq!(parse.step(), Some(Ok(Event::Switch(s("verbose")))));
    assert_eq!(parse.step(), Some(Ok(Event::Option(s("include"), s("b")))));
    assert_eq!(parse.step(), Some(Ok(Event::Option(s("name"), s("x")))));
    assert_eq!(parse.step(), Some(Ok(Event::Switch(s("verbose")))));
    assert_eq!(parse.step(), Some(Err(ParseError::OptionGivenTwice(s("level")))));
    assert!(parse.is_finished());
    assert_eq!(parse.step(), None);
}

#[test]
fn a_repeat_is_rejected_before_its_parameter_is_looked_for() {
    let defs = compile(vec![ArgDef::option("level")]);
    let tokens = toks(&["--level", "1", "--level"]);
    let mut parse = Parse::strict(&defs, &tokens);
    assert_eq!(parse.step(), Some(Ok(Event::Option(s("level"), s("1")))));
    assert_eq!(parse.step(), Some(Err(ParseError::OptionGivenTwice(s("level")))));
    let tokens = toks(&["--level", "--level", "1"]);
    let mut parse = Parse::strict(&defs, &tokens);
    assert_eq!(parse.step(), Some(Err(ParseError::MissingParameter(s("--level")))));
}

#[test]
fn target_says_whether_a_parameter_is_needed() {
    assert!(TargetRef::Setting.needs_param());
    assert!(TargetRef::Collect.needs_param());
    assert!(!TargetRef::Flag.needs_param());
    assert!(!TargetRef::Count.needs_param());
    assert!(!TargetRef::Interrupt.needs_param());
}

#[test]
fn parse_error_messages() {
    assert_eq!(
        ParseError::MissingPositional(s("foo")).message(),
        "Missing positional argument 'foo'"
    );
    assert_eq!(
        ParseError::MissingTrail.message(),
        "Expected at least one trailing argument"
    );
    assert_eq!(
        ParseError::UnexpectedPositional(s("y")).message(),
        "Unexpected argument 'y'"
    );
    assert_eq!(
        ParseError::UnknownShortArgument('z', s("-azb")).message(),
        "Unknown option '-z' in '-azb'"
    );
    assert_eq!(
        ParseError::UnknownLongArgument(s("--nope")).message(),
        "Unknown option '--nope'"
    );
    assert_eq!(
        ParseError::UnknownSubcommand(s("deploy")).message(),
        "Unknown subcommand: 'deploy'"
    );
    assert_eq!(
        ParseError::MissingParameter(s("-x")).message(),
        "Missing argument for option '-x'"
    );
    assert_eq!(
        ParseError::GroupedNonSwitch('c', s("-cab")).message(),
        "Option '-c' takes an argument and must come last in '-cab'"
    );
    assert_eq!(
        ParseError::OptionGivenTwice(s("level")).message(),
        "Option 'level' given twice!"
    );
}
