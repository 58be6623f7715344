use argonaut::{parse_definitions, ArgDef, ArgDefKind, DefinitionError, TargetRef};

fn name(s: &str) -> String {
    s.to_string()
}

#[test]
fn builders_set_name_and_kind() {
    let def = ArgDef::pos("input");
    assert_eq!(def.name, "input");
    assert!(matches!(def.kind, ArgDefKind::Positional));
    assert_eq!(def.help_desc, None);

    let def = ArgDef::trail("rest", true);
    assert!(matches!(def.kind, ArgDefKind::Trail { optional: true }));

    let def = ArgDef::cmd("build", 7);
    assert!(matches!(def.kind, ArgDefKind::Subcommand { handler: 7 }));

    let def = ArgDef::interrupt("help");
    assert!(matches!(def.kind, ArgDefKind::Interrupt { short: None }));

    let def = ArgDef::option("level");
    assert!(matches!(def.kind, ArgDefKind::OptArg { short: None, param: None }));

    let def = ArgDef::flag("verbose");
    assert!(matches!(def.kind, ArgDefKind::Flag { short: None }));

    let def = ArgDef::count("loud");
    assert!(matches!(def.kind, ArgDefKind::Count { short: None }));

    let def = ArgDef::collect("include");
    assert!(matches!(def.kind, ArgDefKind::Collect { short: None, param: None }));
}

#[test]
fn short_sets_the_alias_of_named_arguments() {
    let def = ArgDef::flag("verbose").short('v');
    assert!(matches!(def.kind, ArgDefKind::Flag { short: Some('v') }));
    let def = ArgDef::count("loud").short('l');
    assert!(matches!(def.kind, ArgDefKind::Count { short: Some('l') }));
    let def = ArgDef::interrupt("help").short('h');
    assert!(matches!(def.kind, ArgDefKind::Interrupt { short: Some('h') }));
    let def = ArgDef::option("level").param("N").short('n');
    match def.kind {
        ArgDefKind::OptArg { short, param } => {
            assert_eq!(short, Some('n'));
            assert_eq!(param, Some(name("N")));
        }
        _ => panic!("an option stays an option"),
    }
    let def = ArgDef::collect("include").short('i').param("FILE");
    match def.kind {
        ArgDefKind::Collect { short, param } => {
            assert_eq!(short, Some('i'));
            assert_eq!(param, Some(name("FILE")));
        }
        _ => panic!("a collection stays a collection"),
    }
}

#[test]
fn short_and_param_leave_other_kinds_unchanged() {
    let def = ArgDef::pos("input").short('i').param("FILE");
    assert_eq!(def.name, "input");
    assert!(matches!(def.kind, ArgDefKind::Positional));
    let def = ArgDef::trail("rest", false).short('r');
    assert!(matches!(def.kind, ArgDefKind::Trail { optional: false }));
    let def = ArgDef::cmd("build", 1).short('b');
    assert!(matches!(def.kind, ArgDefKind::Subcommand { handler: 1 }));
    let def = ArgDef::flag("verbose").param("X");
    assert!(matches!(def.kind, ArgDefKind::Flag { short: None }));
}

#[test]
fn help_sets_the_description() {
    let def = ArgDef::flag("verbose").help("Be loud.");
    assert_eq!(def.help_desc, Some(name("Be loud.")));
    assert_eq!(def.name, "verbose");
}

#[test]
fn compatible_definitions_compile_in_order() {
    let state = parse_definitions(vec![
        ArgDef::flag("verbose").short('v'),
        ArgDef::pos("first"),
        ArgDef::option("level").short('l'),
        ArgDef::pos("second"),
        ArgDef::trail("rest", true),
        ArgDef::count("loud"),
        ArgDef::interrupt("help").short('h'),
        ArgDef::pos("third"),
        ArgDef::collect("include").short('i'),
    ])
    .unwrap();
    assert_eq!(state.positional_len(), 3);
    assert_eq!(state.positional_name(0), "first");
    assert_eq!(state.positional_name(1), "second");
    assert_eq!(state.positional_name(2), "third");
    let trail = state.trail().unwrap();
    assert_eq!(trail.name, "rest");
    assert!(trail.optional);
    assert_eq!(state.options_len(), 5);
    assert_eq!(state.option_at(0).name, "verbose");
    assert_eq!(state.option_at(0).short, Some('v'));
    assert_eq!(state.option_at(0).target, TargetRef::Flag);
    assert_eq!(state.option_at(1).target, TargetRef::Setting);
    assert_eq!(state.option_at(2).name, "loud");
    assert_eq!(state.option_at(2).short, None);
    assert_eq!(state.option_at(2).target, TargetRef::Count);
    assert_eq!(state.option_at(3).target, TargetRef::Interrupt);
    assert_eq!(state.option_at(4).target, TargetRef::Collect);
    assert_eq!(state.subcommands_len(), 0);
    assert!(state.help_defined());
}

#[test]
fn lookups_find_names_and_aliases() {
    let state = parse_definitions(vec![
        ArgDef::flag("verbose").short('v'),
        ArgDef::option("level").short('l'),
        ArgDef::pos("input"),
    ])
    .unwrap();
    assert_eq!(state.find_long(&name("level")), Some(1));
    assert_eq!(state.find_long(&name("verbose")), Some(0));
    assert_eq!(state.find_long(&name("input")), None);
    assert_eq!(state.find_short('l'), Some(1));
    assert_eq!(state.find_short('x'), None);
    assert!(state.has_positional(&name("input")));
    assert!(!state.has_positional(&name("level")));
    assert_eq!(state.find_subcommand(&name("input")), None);
    assert!(!state.help_defined());
}

#[test]
fn subcommands_compile_with_their_handlers() {
    let state = parse_definitions(vec![
        ArgDef::cmd("build", 4),
        ArgDef::flag("verbose"),
        ArgDef::cmd("test", 9),
    ])
    .unwrap();
    assert_eq!(state.subcommands_len(), 2);
    assert_eq!(state.subcommand_at(0).name, "build");
    assert_eq!(state.subcommand_at(0).handler, 4);
    assert_eq!(state.subcommand_at(1).name, "test");
    assert_eq!(state.subcommand_at(1).handler, 9);
    assert_eq!(state.find_subcommand(&name("test")), Some(1));
}

#[test]
fn empty_definitions_compile() {
    let state = parse_definitions(vec![]).unwrap();
    assert_eq!(state.positional_len(), 0);
    assert_eq!(state.options_len(), 0);
    assert_eq!(state.subcommands_len(), 0);
    assert!(state.trail().is_none());
    assert!(!state.help_defined());
}

#[test]
fn a_flag_named_help_does_not_define_help() {
    let state = parse_definitions(vec![ArgDef::flag("help")]).unwrap();
    assert!(!state.help_defined());
}

#[test]
fn duplicate_long_name_is_an_error() {
    let r = parse_definitions(vec![
        ArgDef::flag("verbose"),
        ArgDef::pos("input"),
        ArgDef::option("verbose"),
    ]);
    assert_eq!(r.err(), Some(DefinitionError::OptionDefinedTwice(name("verbose"))));
}

#[test]
fn duplicate_alias_is_an_error() {
    let r = parse_definitions(vec![
        ArgDef::flag("verbose").short('v'),
        ArgDef::flag("quiet").short('q'),
        ArgDef::option("version").short('v'),
    ]);
    assert_eq!(
        r.err(),
        Some(DefinitionError::SameShortName(name("version"), name("verbose")))
    );
}

#[test]
fn duplicate_long_name_comes_before_duplicate_alias() {
    let r = parse_definitions(vec![
        ArgDef::flag("verbose").short('v'),
        ArgDef::flag("verbose").short('v'),
    ]);
    assert_eq!(r.err(), Some(DefinitionError::OptionDefinedTwice(name("verbose"))));
}

#[test]
fn duplicate_positional_is_an_error() {
    let r = parse_definitions(vec![ArgDef::pos("a"), ArgDef::pos("b"), ArgDef::pos("a")]);
    assert_eq!(r.err(), Some(DefinitionError::PositionalDefinedTwice(name("a"))));
}

#[test]
fn two_trails_are_an_error() {
    let r = parse_definitions(vec![ArgDef::trail("a", true), ArgDef::trail("b", false)]);
    assert_eq!(r.err(), Some(DefinitionError::TwoTrailsDefined));
}

#[test]
fn duplicate_subcommand_is_an_error() {
    let r = parse_definitions(vec![ArgDef::cmd("build", 0), ArgDef::cmd("build", 1)]);
    assert_eq!(r.err(), Some(DefinitionError::SubcommandDefinedTwice(name("build"))));
}

#[test]
fn positional_and_subcommand_do_not_mix() {
    let r = parse_definitions(vec![ArgDef::pos("a"), ArgDef::cmd("build", 0)]);
    assert_eq!(r.err(), Some(DefinitionError::PositionalAndSubcommandMixed));
    let r = parse_definitions(vec![ArgDef::cmd("build", 0), ArgDef::pos("a")]);
    assert_eq!(r.err(), Some(DefinitionError::PositionalAndSubcommandMixed));
    let r = parse_definitions(vec![ArgDef::cmd("build", 0), ArgDef::trail("rest", true)]);
    assert_eq!(r.err(), Some(DefinitionError::PositionalAndSubcommandMixed));
    let r = parse_definitions(vec![ArgDef::trail("rest", true), ArgDef::cmd("build", 0)]);
    assert_eq!(r.err(), Some(DefinitionError::PositionalAndSubcommandMixed));
}

#[test]
fn the_first_offending_definition_decides_the_error() {
    let r = parse_definitions(vec![
        ArgDef::pos("a"),
        ArgDef::cmd("build", 0),
        ArgDef::pos("a"),
    ]);
    assert_eq!(r.err(), Some(DefinitionError::PositionalAndSubcommandMixed));
    let r = parse_definitions(vec![
        ArgDef::pos("a"),
        ArgDef::pos("a"),
        ArgDef::trail("x", true),
        ArgDef::trail("y", true),
    ]);
    assert_eq!(r.err(), Some(DefinitionError::PositionalDefinedTwice(name("a"))));
}

#[test]
fn names_of_different_kinds_do_not_collide() {
    let state = parse_definitions(vec![
        ArgDef::pos("input"),
        ArgDef::flag("input"),
        ArgDef::trail("input", true),
    ])
    .unwrap();
    assert_eq!(state.positional_len(), 1);
    assert_eq!(state.options_len(), 1);
    let state = parse_definitions(vec![ArgDef::cmd("run", 0), ArgDef::flag("run")]).unwrap();
    assert_eq!(state.subcommands_len(), 1);
    assert_eq!(state.options_len(), 1);
}

#[test]
fn definition_error_messages() {
    assert_eq!(
        DefinitionError::OptionDefinedTwice(name("verbose")).message(),
        "Option 'verbose' defined twice."
    );
    assert_eq!(
        DefinitionError::PositionalDefinedTwice(name("input")).message(),
        "Positional argument 'input' defined twice."
    );
    assert_eq!(
        DefinitionError::SameShortName(name("version"), name("verbose")).message(),
        "Options 'version' and 'verbose' have the same short name."
    );
    assert_eq!(DefinitionError::TwoTrailsDefined.message(), "Two trails defined.");
    assert_eq!(
        DefinitionError::SubcommandDefinedTwice(name("build")).message(),
        "Subcommand 'build' defined twice."
    );
    assert_eq!(
        DefinitionError::PositionalAndSubcommandMixed.message(),
        "Positional (+trail) and subcommand definitions cannot be used together."
    );
}
