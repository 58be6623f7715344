use argonaut::{trim_and_strip_lines, ArgDef, Help, HelpOptKind};

fn s(text: &str) -> String {
    text.to_string()
}

#[test]
fn lines_are_split_stripped_and_trimmed() {
    let text = "  \n\n   first line  \n\n\tsecond\t\n   \n\n";
    assert_eq!(trim_and_strip_lines(text), vec![s("first line"), s(""), s("second")]);
}

#[test]
fn blank_text_has_no_lines() {
    assert!(trim_and_strip_lines("").is_empty());
    assert!(trim_and_strip_lines("   ").is_empty());
    assert!(trim_and_strip_lines(" \n\t\n  \n").is_empty());
}

#[test]
fn a_single_line_is_trimmed() {
    assert_eq!(trim_and_strip_lines("  hello world "), vec![s("hello world")]);
    assert_eq!(trim_and_strip_lines("a\r\nb"), vec![s("a"), s("b")]);
}

#[test]
fn unicode_whitespace_is_whitespace() {
    assert_eq!(trim_and_strip_lines("\u{2003}\n\u{a0}x\u{2003}\n\u{3000}"), vec![s("x")]);
}

#[test]
fn help_sorts_the_definitions_by_kind() {
    let defs = vec![
        ArgDef::flag("verbose").short('v').help("Be loud."),
        ArgDef::pos("input").help("The input."),
        ArgDef::trail("first", true),
        ArgDef::option("level").param("N"),
        ArgDef::pos("output"),
        ArgDef::trail("rest", false).help("The rest."),
        ArgDef::collect("include").short('i'),
        ArgDef::count("loud"),
        ArgDef::interrupt("version"),
    ];
    let help = Help::new(s("prog"), &defs);
    assert_eq!(help.program, "prog");
    assert_eq!(help.positional.len(), 2);
    assert_eq!(help.positional[0].name, "input");
    assert_eq!(help.positional[0].help, Some(s("The input.")));
    assert_eq!(help.positional[1].name, "output");
    assert_eq!(help.positional[1].help, None);
    let trail = help.trail.as_ref().unwrap();
    assert_eq!(trail.name, "rest");
    assert!(!trail.optional);
    assert_eq!(trail.help, Some(s("The rest.")));
    assert!(help.subcommands.is_empty());
    assert_eq!(help.options.len(), 5);
    assert_eq!(help.options[0].name, "verbose");
    assert_eq!(help.options[0].short, Some('v'));
    assert!(matches!(help.options[0].kind, HelpOptKind::Flag));
    assert_eq!(help.options[0].help, Some(s("Be loud.")));
    assert!(matches!(&help.options[1].kind, HelpOptKind::Setting(Some(p)) if p == "N"));
    assert!(matches!(help.options[2].kind, HelpOptKind::Collect(None)));
    assert!(matches!(help.options[3].kind, HelpOptKind::Count));
    assert!(matches!(help.options[4].kind, HelpOptKind::Interrupt));
    assert!(!help.help_defined);
}

#[test]
fn usage_of_a_bare_program() {
    let help = Help::new(s("prog"), &[]);
    assert_eq!(help.usage_message(), "prog");
    assert_eq!(help.help_message(""), "Usage:\n  prog");
}

#[test]
fn usage_with_options_but_no_help() {
    let help = Help::new(s("prog"), &[ArgDef::flag("verbose"), ArgDef::pos("a"), ArgDef::pos("b")]);
    assert_eq!(help.usage_message(), "prog [opts...] a b");
}

#[test]
fn usage_with_help_alias() {
    let help = Help::new(s("prog"), &[ArgDef::interrupt("help").short('h')]);
    assert_eq!(help.usage_message(), "prog [-h]");
    let help = Help::new(
        s("prog"),
        &[ArgDef::flag("verbose"), ArgDef::interrupt("help").short('h')],
    );
    assert_eq!(help.usage_message(), "prog [-h, OPTS...]");
}

#[test]
fn usage_with_help_without_alias() {
    let help = Help::new(s("prog"), &[ArgDef::interrupt("help")]);
    assert_eq!(help.usage_message(), "prog [--help]");
    let help = Help::new(s("prog"), &[ArgDef::interrupt("help"), ArgDef::count("loud")]);
    assert_eq!(help.usage_message(), "prog [--help, OPTS...]");
}

#[test]
fn usage_with_trails() {
    let help = Help::new(s("prog"), &[ArgDef::pos("in"), ArgDef::trail("rest", true)]);
    assert_eq!(help.usage_message(), "prog in [rest...]");
    let help = Help::new(s("prog"), &[ArgDef::trail("rest", false)]);
    assert_eq!(help.usage_message(), "prog rest [rest...]");
}

#[test]
fn usage_with_subcommands() {
    let help = Help::new(s("prog"), &[ArgDef::cmd("build", 0)]);
    assert_eq!(help.usage_message(), "prog { build } ...");
    let help = Help::new(
        s("cargo"),
        &[ArgDef::cmd("build", 0), ArgDef::cmd("test", 1), ArgDef::cmd("run", 2)],
    );
    assert_eq!(help.usage_message(), "cargo { build | test | run } ...");
}

#[test]
fn help_message_with_every_section() {
    let defs = vec![
        ArgDef::pos("input").help("\n   The input file.\n   Read once.\n"),
        ArgDef::trail("rest", false).help("More files."),
        ArgDef::flag("verbose").short('v').help("Be loud."),
        ArgDef::option("level"),
        ArgDef::collect("include").short('i').param("FILE"),
        ArgDef::count("loud"),
        ArgDef::interrupt("help").short('h'),
    ];
    let help = Help::new(s("prog"), &defs);
    let text = help.help_message("\n    A tool.\n\n    Second line.   \n\n");
    let expected = "Usage:\n  prog [-h, OPTS...] input rest [rest...]\n\n\
Description:\n  A tool.\n  \n  Second line.\n\
\nPositional arguments:\n  input\n    The input file.\n    Read once.\n\n  rest [rest...]\n    More files.\n\n\
Optional arguments:\n  ( * ) This option can be given multiple times.\n  ( X ) This option interrupts normal parsing.\n\n\
\x20 --verbose, -v\n      Be loud.\n\n\
\x20 --level LEVEL\n\
\x20 --include, -i FILE ( * )\n\
\x20 --loud ( * )\n\
\x20 --help, -h ( X )\n";
    assert_eq!(text, expected);
}

#[test]
fn help_message_with_subcommands() {
    let defs = vec![
        ArgDef::cmd("build", 0).help("Builds it."),
        ArgDef::cmd("test", 1),
        ArgDef::flag("verbose"),
    ];
    let help = Help::new(s("prog"), &defs);
    let expected = "Usage:\n  prog [opts...] { build | test } ...\n\n\
\nSubcommands:\n  build\n    Builds it.\n\n  test\n\n\
Optional arguments:\n  --verbose\n";
    assert_eq!(help.help_message(""), expected);
}

#[test]
fn help_message_with_options_only() {
    let help = Help::new(s("prog"), &[ArgDef::option("name").param("WHO"), ArgDef::option("straße")]);
    let expected = "Usage:\n  prog [opts...]\n\n\
\nOptional arguments:\n  --name WHO\n  --straße STRASSE\n";
    assert_eq!(help.help_message(""), expected);
}

#[test]
fn help_message_with_optional_trail_only() {
    let help = Help::new(s("prog"), &[ArgDef::trail("files", true)]);
    let expected = "Usage:\n  prog [files...]\n\n\
\nPositional arguments:\n  [files...]\n\n";
    assert_eq!(help.help_message(""), expected);
}

#[test]
fn help_message_with_description_only() {
    let help = Help::new(s("prog"), &[]);
    assert_eq!(help.help_message("Does things."), "Usage:\n  prog\n\nDescription:\n  Does things.\n");
    assert_eq!(help.help_message("   "), "Usage:\n  prog\n\nDescription:\n");
}
