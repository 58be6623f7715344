//! Usage and help messages for a list of argument definitions.

use crate::argdef::{def_models, opt_str, ArgDef, ArgDefKind, DefModel, KindModel};
use crate::definitions::{
    defines_help, help_name, is_option, is_positional, is_subcommand, str_models,
};
use crate::text::{
    is_whitespace, lines, lines_of, push_char, to_uppercase, trim, trim_of, uppercase_of, whitespace,
};
use vstd::prelude::*;
use vstd::string::*;

verus! {

/// Whether every character of the line is whitespace.
pub open spec fn blank(line: Seq<char>) -> bool {
    forall|i: int| 0 <= i < line.len() ==> whitespace(#[trigger] line[i])
}

/// The lines without the blank ones at their end.
pub open spec fn drop_blank_end(lines: Seq<Seq<char>>) -> Seq<Seq<char>>
    decreases lines.len(),
{
    if lines.len() > 0 && blank(lines.last()) {
        drop_blank_end(lines.drop_last())
    } else {
        lines
    }
}

/// The lines without the blank ones at their start.
pub open spec fn drop_blank_start(lines: Seq<Seq<char>>) -> Seq<Seq<char>>
    decreases lines.len(),
{
    if lines.len() > 0 && blank(lines[0]) {
        drop_blank_start(lines.skip(1))
    } else {
        lines
    }
}

/// The lines of a text, without the blank lines before the first and after
/// the last line that is not blank, each without the whitespace around it.
pub open spec fn stripped_lines(text: Seq<char>) -> Seq<Seq<char>> {
    let kept = drop_blank_start(drop_blank_end(lines_of(text)));
    Seq::new(kept.len(), |i: int| trim_of(kept[i]))
}

/// Whether every character of the line is whitespace.
fn is_blank(line: &String) -> (r: bool)
    ensures
        r == blank(line@),
{
    let text = line.as_str();
    let len = text.unicode_len();
    let mut i: usize = 0;
    while i < len
        invariant
            i <= len,
            len == line@.len(),
            text@ == line@,
            forall|j: int| 0 <= j < i ==> whitespace(#[trigger] line@[j]),
        decreases len - i,
    {
        if !is_whitespace(text.get_char(i)) {
            return false;
        }
        i += 1;
    }
    true
}

/// Splits a text into lines, leaves out the blank lines at its start and
/// at its end, and strips each line that is left of the whitespace around
/// it. Blank lines between others stay, as empty lines.
pub fn trim_and_strip_lines(text: &str) -> (r: Vec<String>)
    ensures
        str_models(r@) == stripped_lines(text@),
{
    let all = lines(text);
    let ghost models = str_models(all@);
    let mut end: usize = all.len();
    proof {
        assert(models.take(end as int) =~= models);
    }
    while end > 0 && is_blank(&all[end - 1])
        invariant
            end <= all.len(),
            models == str_models(all@),
            drop_blank_end(models) == drop_blank_end(models.take(end as int)),
        decreases end,
    {
        proof {
            assert(models.take(end as int).drop_last() =~= models.take(end - 1));
        }
        end -= 1;
    }
    let mut start: usize = 0;
    proof {
        assert(models.take(end as int).skip(0) =~= models.take(end as int));
    }
    while start < end && is_blank(&all[start])
        invariant
            start <= end <= all.len(),
            models == str_models(all@),
            drop_blank_end(models) == models.take(end as int),
            drop_blank_start(models.take(end as int)) == drop_blank_start(
                models.take(end as int).skip(start as int),
            ),
        decreases end - start,
    {
        proof {
            assert(models.take(end as int).skip(start as int).skip(1) =~= models.take(
                end as int,
            ).skip(start + 1));
        }
        start += 1;
    }
    let ghost kept = models.take(end as int).skip(start as int);
    assert(drop_blank_start(drop_blank_end(models)) == kept);
    let mut out: Vec<String> = Vec::new();
    let mut i: usize = start;
    while i < end
        invariant
            start <= i <= end <= all.len(),
            models == str_models(all@),
            kept == models.take(end as int).skip(start as int),
            out@.len() == i - start,
            forall|j: int| 0 <= j < out@.len() ==> (#[trigger] out@[j])@ == trim_of(kept[j]),
        decreases end - i,
    {
        out.push(trim(all[i].as_str()));
        i += 1;
    }
    assert(str_models(out@) =~= stripped_lines(text@));
    out
}

/// What kind of option a help message describes.
#[derive(Debug, Clone)]
pub enum HelpOptKind {
    /// A flag. `./bin --verbose` gives `true`.
    Flag,
    /// A count. `./bin -v -v -v -v` gives `4`.
    Count,
    /// An option with a value, `./bin --eat-cake yes`, and the name of its
    /// parameter where it has one.
    Setting(Option<String>),
    /// An interrupt. `./bin --help`
    Interrupt,
    /// An option that may be given many times, `./bin -i foo.rs -i bar.rs`,
    /// and the name of its parameter where it has one.
    Collect(Option<String>),
}

/// The mathematical model of a [`HelpOptKind`].
pub enum HelpOptKindModel {
    Flag,
    Count,
    Setting(Option<Seq<char>>),
    Interrupt,
    Collect(Option<Seq<char>>),
}

impl View for HelpOptKind {
    type V = HelpOptKindModel;

    open spec fn view(&self) -> HelpOptKindModel {
        match *self {
            HelpOptKind::Flag => HelpOptKindModel::Flag,
            HelpOptKind::Count => HelpOptKindModel::Count,
            HelpOptKind::Setting(p) => HelpOptKindModel::Setting(opt_str(p)),
            HelpOptKind::Interrupt => HelpOptKindModel::Interrupt,
            HelpOptKind::Collect(p) => HelpOptKindModel::Collect(opt_str(p)),
        }
    }
}

/// What a help message says of a positional argument or a subcommand.
#[derive(Debug, Clone)]
pub struct HelpItem {
    pub name: String,
    pub help: Option<String>,
}

/// The mathematical model of a [`HelpItem`].
pub struct HelpItemModel {
    pub name: Seq<char>,
    pub help: Option<Seq<char>>,
}

impl View for HelpItem {
    type V = HelpItemModel;

    open spec fn view(&self) -> HelpItemModel {
        HelpItemModel { name: self.name@, help: opt_str(self.help) }
    }
}

/// What a help message says of the trail.
#[derive(Debug, Clone)]
pub struct HelpTrail {
    pub name: String,
    pub optional: bool,
    pub help: Option<String>,
}

/// The mathematical model of a [`HelpTrail`].
pub struct HelpTrailModel {
    pub name: Seq<char>,
    pub optional: bool,
    pub help: Option<Seq<char>>,
}

impl View for HelpTrail {
    type V = HelpTrailModel;

    open spec fn view(&self) -> HelpTrailModel {
        HelpTrailModel { name: self.name@, optional: self.optional, help: opt_str(self.help) }
    }
}

/// What a help message says of an option, a switch or an interrupt.
#[derive(Debug, Clone)]
pub struct HelpOption {
    pub name: String,
    pub short: Option<char>,
    pub kind: HelpOptKind,
    pub help: Option<String>,
}

/// The mathematical model of a [`HelpOption`].
pub struct HelpOptionModel {
    pub name: Seq<char>,
    pub short: Option<char>,
    pub kind: HelpOptKindModel,
    pub help: Option<Seq<char>>,
}

impl View for HelpOption {
    type V = HelpOptionModel;

    open spec fn view(&self) -> HelpOptionModel {
        HelpOptionModel {
            name: self.name@,
            short: self.short,
            kind: self.kind@,
            help: opt_str(self.help),
        }
    }
}

/// The descriptions of the defined arguments, sorted by kind.
#[derive(Debug, Clone)]
pub struct Help {
    /// The command path of the program, such as `cargo` or `cargo new`.
    pub program: String,
    /// The positional arguments.
    pub positional: Vec<HelpItem>,
    /// The trail.
    pub trail: Option<HelpTrail>,
    /// The subcommands.
    pub subcommands: Vec<HelpItem>,
    /// The options, switches and interrupts.
    pub options: Vec<HelpOption>,
    /// Whether an interrupt named `help` is defined.
    pub help_defined: bool,
}

/// The models of a list of items, in order.
pub open spec fn item_models(items: Seq<HelpItem>) -> Seq<HelpItemModel> {
    Seq::new(items.len(), |i: int| items[i]@)
}

/// The models of a list of options, in order.
pub open spec fn option_models(options: Seq<HelpOption>) -> Seq<HelpOptionModel> {
    Seq::new(options.len(), |i: int| options[i]@)
}

/// The mathematical model of a [`Help`].
pub struct HelpModel {
    pub program: Seq<char>,
    pub positional: Seq<HelpItemModel>,
    pub trail: Option<HelpTrailModel>,
    pub subcommands: Seq<HelpItemModel>,
    pub options: Seq<HelpOptionModel>,
    pub help_defined: bool,
}

impl View for Help {
    type V = HelpModel;

    open spec fn view(&self) -> HelpModel {
        HelpModel {
            program: self.program@,
            positional: item_models(self.positional@),
            trail: match self.trail {
                Some(t) => Some(t@),
                None => None,
            },
            subcommands: item_models(self.subcommands@),
            options: option_models(self.options@),
            help_defined: self.help_defined,
        }
    }
}

/// What a help message says of a positional or subcommand definition.
pub open spec fn help_item() -> spec_fn(DefModel) -> HelpItemModel {
    |d: DefModel| HelpItemModel { name: d.name, help: d.help }
}

/// The kind under which a help message shows a definition.
pub open spec fn help_kind(kind: KindModel) -> HelpOptKindModel {
    match kind {
        KindModel::Count { .. } => HelpOptKindModel::Count,
        KindModel::Collect { param, .. } => HelpOptKindModel::Collect(param),
        KindModel::OptArg { param, .. } => HelpOptKindModel::Setting(param),
        KindModel::Interrupt { .. } => HelpOptKindModel::Interrupt,
        _ => HelpOptKindModel::Flag,
    }
}

/// What a help message says of a definition looked up by name.
pub open spec fn help_option() -> spec_fn(DefModel) -> HelpOptionModel {
    |d: DefModel|
        HelpOptionModel { name: d.name, short: d.kind.short(), kind: help_kind(d.kind), help: d.help }
}

/// What a help message says of the trail: where several are defined, of
/// the last one.
pub open spec fn help_trail(defs: Seq<DefModel>) -> Option<HelpTrailModel>
    decreases defs.len(),
{
    if defs.len() == 0 {
        None
    } else {
        match defs.last().kind {
            KindModel::Trail { optional } => Some(
                HelpTrailModel { name: defs.last().name, optional, help: defs.last().help },
            ),
            _ => help_trail(defs.drop_last()),
        }
    }
}

/// The descriptions of a program's arguments, sorted by kind, each kind in
/// the order of the definitions.
pub open spec fn help_of(program: Seq<char>, defs: Seq<DefModel>) -> HelpModel {
    HelpModel {
        program,
        positional: defs.filter(is_positional()).map_values(help_item()),
        trail: help_trail(defs),
        subcommands: defs.filter(is_subcommand()).map_values(help_item()),
        options: defs.filter(is_option()).map_values(help_option()),
        help_defined: defines_help(defs),
    }
}

/// The alias of the first option named `help`.
pub open spec fn first_help_short(options: Seq<HelpOptionModel>) -> Option<char>
    decreases options.len(),
{
    if options.len() == 0 {
        None
    } else if options[0].name == help_name() {
        options[0].short
    } else {
        first_help_short(options.skip(1))
    }
}

/// The alias under which help is asked for, where help is defined.
pub open spec fn help_short(h: HelpModel) -> Option<char> {
    if h.help_defined {
        first_help_short(h.options)
    } else {
        None
    }
}

/// What a usage line says of further options, where there are any.
pub open spec fn more_options(h: HelpModel) -> Seq<char> {
    if h.options.len() > 1 {
        ", OPTS..."@
    } else {
        Seq::empty()
    }
}

/// What a usage line says of the options.
pub open spec fn options_usage(h: HelpModel) -> Seq<char> {
    if h.options.len() == 0 {
        Seq::empty()
    } else if !h.help_defined {
        " [opts...]"@
    } else {
        match help_short(h) {
            Some(c) => " [-"@.push(c) + more_options(h) + "]"@,
            None => " [--help"@ + more_options(h) + "]"@,
        }
    }
}

/// What a usage line says of the positional arguments.
pub open spec fn positional_usage(items: Seq<HelpItemModel>) -> Seq<char>
    decreases items.len(),
{
    if items.len() == 0 {
        Seq::empty()
    } else {
        positional_usage(items.drop_last()) + " "@ + items.last().name
    }
}

/// How a trail is written: `[name...]` where it is optional, else
/// `name [name...]`.
pub open spec fn trail_text(t: HelpTrailModel) -> Seq<char> {
    if t.optional {
        "["@ + t.name + "...]"@
    } else {
        t.name + " ["@ + t.name + "...]"@
    }
}

/// What a usage line says of the trail.
pub open spec fn trail_usage(t: Option<HelpTrailModel>) -> Seq<char> {
    match t {
        Some(t) => " "@ + trail_text(t),
        None => Seq::empty(),
    }
}

/// The names of the subcommands, with ` | ` between them.
pub open spec fn subcommand_list(items: Seq<HelpItemModel>) -> Seq<char>
    decreases items.len(),
{
    if items.len() == 0 {
        Seq::empty()
    } else if items.len() == 1 {
        items[0].name
    } else {
        subcommand_list(items.drop_last()) + " | "@ + items.last().name
    }
}

/// What a usage line says of the subcommands.
pub open spec fn subcommands_usage(items: Seq<HelpItemModel>) -> Seq<char> {
    if items.len() == 0 {
        Seq::empty()
    } else {
        " { "@ + subcommand_list(items) + " } ..."@
    }
}

/// The usage line of a program: its command path, then its options, its
/// positional arguments, its trail and its subcommands.
pub open spec fn usage_text(h: HelpModel) -> Seq<char> {
    h.program + options_usage(h) + positional_usage(h.positional) + trail_usage(h.trail)
        + subcommands_usage(h.subcommands)
}

/// The lines, each after the prefix and ended by a line feed.
pub open spec fn prefixed_lines(prefix: Seq<char>, lines: Seq<Seq<char>>) -> Seq<char>
    decreases lines.len(),
{
    if lines.len() == 0 {
        Seq::empty()
    } else {
        prefixed_lines(prefix, lines.drop_last()) + prefix + lines.last() + "\n"@
    }
}

/// The stripped lines of a text, each after the prefix.
pub open spec fn trimmed_text(prefix: Seq<char>, text: Seq<char>) -> Seq<char> {
    prefixed_lines(prefix, stripped_lines(text))
}

/// The stripped lines of a description, where there is one.
pub open spec fn description_text(prefix: Seq<char>, help: Option<Seq<char>>) -> Seq<char> {
    match help {
        Some(text) => trimmed_text(prefix, text),
        None => Seq::empty(),
    }
}

/// What a help message says of one positional argument or subcommand.
pub open spec fn item_help(item: HelpItemModel) -> Seq<char> {
    "  "@ + item.name + "\n"@ + description_text("    "@, item.help) + "\n"@
}

/// What a help message says of positional arguments or subcommands.
pub open spec fn items_help(items: Seq<HelpItemModel>) -> Seq<char>
    decreases items.len(),
{
    if items.len() == 0 {
        Seq::empty()
    } else {
        items_help(items.drop_last()) + item_help(items.last())
    }
}

/// What a help message says of the trail.
pub open spec fn trail_help(t: Option<HelpTrailModel>) -> Seq<char> {
    match t {
        Some(t) => "  "@ + trail_text(t) + "\n"@ + description_text("    "@, t.help) + "\n"@,
        None => Seq::empty(),
    }
}

/// Whether an option of the kind can be given many times.
pub open spec fn can_repeat(kind: HelpOptKindModel) -> bool {
    kind is Count || kind is Collect
}

/// Whether one of the options can be given many times.
pub open spec fn has_repeatable(options: Seq<HelpOptionModel>) -> bool {
    exists|i: int| 0 <= i < options.len() && can_repeat((#[trigger] options[i]).kind)
}

/// Whether one of the options is an interrupt.
pub open spec fn has_interrupt(options: Seq<HelpOptionModel>) -> bool {
    exists|i: int| 0 <= i < options.len() && (#[trigger] options[i]).kind is Interrupt
}

/// The legend of the marks that the options carry.
pub open spec fn legend(options: Seq<HelpOptionModel>) -> Seq<char> {
    (if has_repeatable(options) {
        "  ( * ) This option can be given multiple times.\n"@
    } else {
        Seq::empty()
    }) + (if has_interrupt(options) {
        "  ( X ) This option interrupts normal parsing.\n"@
    } else {
        Seq::empty()
    }) + (if has_repeatable(options) || has_interrupt(options) {
        "\n"@
    } else {
        Seq::empty()
    })
}

/// How an alias is shown behind a long name.
pub open spec fn short_text(short: Option<char>) -> Seq<char> {
    match short {
        Some(c) => ", -"@.push(c),
        None => Seq::empty(),
    }
}

/// The name shown for a parameter: the one given, else the option's long
/// name in upper case.
pub open spec fn param_name(param: Option<Seq<char>>, name: Seq<char>) -> Seq<char> {
    match param {
        Some(p) => p,
        None => uppercase_of(name),
    }
}

/// How the parameter of an option is shown, where it takes one.
pub open spec fn param_text(option: HelpOptionModel) -> Seq<char> {
    match option.kind {
        HelpOptKindModel::Setting(param) => " "@ + param_name(param, option.name),
        HelpOptKindModel::Collect(param) => " "@ + param_name(param, option.name),
        _ => Seq::empty(),
    }
}

/// The mark that an option carries.
pub open spec fn marker_text(kind: HelpOptKindModel) -> Seq<char> {
    if can_repeat(kind) {
        " ( * )"@
    } else if kind is Interrupt {
        " ( X )"@
    } else {
        Seq::empty()
    }
}

/// The description of an option, followed by an empty line, where there is
/// a description.
pub open spec fn option_description(help: Option<Seq<char>>) -> Seq<char> {
    match help {
        Some(text) => trimmed_text("      "@, text) + "\n"@,
        None => Seq::empty(),
    }
}

/// What a help message says of one option.
pub open spec fn option_help(option: HelpOptionModel) -> Seq<char> {
    "  --"@ + option.name + short_text(option.short) + param_text(option) + marker_text(
        option.kind,
    ) + "\n"@ + option_description(option.help)
}

/// What a help message says of the options.
pub open spec fn options_help(options: Seq<HelpOptionModel>) -> Seq<char>
    decreases options.len(),
{
    if options.len() == 0 {
        Seq::empty()
    } else {
        options_help(options.drop_last()) + option_help(options.last())
    }
}

/// The part of a help message on the program's description.
pub open spec fn description_section(description: Seq<char>) -> Seq<char> {
    if description.len() > 0 {
        "Description:\n"@ + trimmed_text("  "@, description)
    } else {
        Seq::empty()
    }
}

/// The part of a help message on the positional arguments and the trail.
pub open spec fn positional_section(h: HelpModel) -> Seq<char> {
    if h.positional.len() > 0 || h.trail is Some {
        "\nPositional arguments:\n"@ + items_help(h.positional) + trail_help(h.trail)
    } else {
        Seq::empty()
    }
}

/// The part of a help message on the subcommands.
pub open spec fn subcommands_section(h: HelpModel) -> Seq<char> {
    if h.subcommands.len() > 0 {
        "\nSubcommands:\n"@ + items_help(h.subcommands)
    } else {
        Seq::empty()
    }
}

/// The part of a help message on the options.
pub open spec fn options_section(h: HelpModel) -> Seq<char> {
    if h.options.len() > 0 {
        (if h.positional.len() > 0 || h.trail is Some || h.subcommands.len() > 0 {
            Seq::empty()
        } else {
            "\n"@
        }) + "Optional arguments:\n"@ + legend(h.options) + options_help(h.options)
    } else {
        Seq::empty()
    }
}

/// What follows the usage line where a help message has more to say.
pub open spec fn usage_gap(h: HelpModel, description: Seq<char>) -> Seq<char> {
    if h.positional.len() > 0 || h.trail is Some || h.options.len() > 0 || description.len() > 0
        || h.subcommands.len() > 0 {
        "\n\n"@
    } else {
        Seq::empty()
    }
}

/// The help message of a program: the usage line, then the description,
/// the positional arguments, the subcommands and the options, each where
/// there is something to say.
pub open spec fn help_text(h: HelpModel, description: Seq<char>) -> Seq<char> {
    "Usage:\n  "@ + usage_text(h) + usage_gap(h, description) + description_section(description)
        + positional_section(h) + subcommands_section(h) + options_section(h)
}

/// A copy of an optional string.
fn clone_opt(s: &Option<String>) -> (r: Option<String>)
    ensures
        opt_str(r) == opt_str(*s),
{
    match s {
        Some(s) => Some(s.clone()),
        None => None,
    }
}

/// Writes the stripped lines of a text, each after the prefix.
fn write_trimmed_n(s: &mut String, prefix: &str, text: &str)
    ensures
        final(s)@ == old(s)@ + trimmed_text(prefix@, text@),
{
    let lines = trim_and_strip_lines(text);
    let ghost models = str_models(lines@);
    let mut i: usize = 0;
    assert(s@ =~= old(s)@ + prefixed_lines(prefix@, models.take(0)));
    while i < lines.len()
        invariant
            i <= lines.len(),
            models == str_models(lines@),
            s@ == old(s)@ + prefixed_lines(prefix@, models.take(i as int)),
        decreases lines.len() - i,
    {
        s.append(prefix);
        s.append(lines[i].as_str());
        s.append("\n");
        proof {
            assert(models.take(i + 1).drop_last() =~= models.take(i as int));
            assert(models.take(i + 1).last() == lines@[i as int]@);
            assert(s@ =~= old(s)@ + prefixed_lines(prefix@, models.take(i + 1)));
        }
        i += 1;
    }
    proof {
        assert(models.take(i as int) =~= models);
    }
}

/// Writes the stripped lines of a description, where there is one.
fn write_description(s: &mut String, prefix: &str, help: &Option<String>)
    ensures
        final(s)@ == old(s)@ + description_text(prefix@, opt_str(*help)),
{
    match help {
        Some(text) => write_trimmed_n(s, prefix, text.as_str()),
        None => {
            assert(s@ =~= old(s)@ + Seq::<char>::empty());
        },
    }
}

/// Writes a trail as a usage line and a help message show it.
fn write_trail_text(s: &mut String, trail: &HelpTrail)
    ensures
        final(s)@ == old(s)@ + trail_text(trail@),
{
    if trail.optional {
        s.append("[");
        s.append(trail.name.as_str());
        s.append("...]");
    } else {
        s.append(trail.name.as_str());
        s.append(" [");
        s.append(trail.name.as_str());
        s.append("...]");
    }
    assert(s@ =~= old(s)@ + trail_text(trail@));
}

/// Writes what a help message says of positional arguments or subcommands.
fn write_items_help(s: &mut String, items: &Vec<HelpItem>)
    ensures
        final(s)@ == old(s)@ + items_help(item_models(items@)),
{
    let ghost models = item_models(items@);
    let mut i: usize = 0;
    assert(s@ =~= old(s)@ + items_help(models.take(0)));
    while i < items.len()
        invariant
            i <= items.len(),
            models == item_models(items@),
            s@ == old(s)@ + items_help(models.take(i as int)),
        decreases items.len() - i,
    {
        s.append("  ");
        s.append(items[i].name.as_str());
        s.append("\n");
        write_description(s, "    ", &items[i].help);
        s.append("\n");
        proof {
            assert(models.take(i + 1).drop_last() =~= models.take(i as int));
            assert(models.take(i + 1).last() == items@[i as int]@);
            assert(s@ =~= old(s)@ + items_help(models.take(i + 1)));
        }
        i += 1;
    }
    proof {
        assert(models.take(i as int) =~= models);
    }
}

/// Writes an alias as it is shown behind a long name.
fn write_short_text(s: &mut String, short: Option<char>)
    ensures
        final(s)@ == old(s)@ + short_text(short),
{
    if let Some(c) = short {
        s.append(", -");
        push_char(s, c);
    }
    assert(s@ =~= old(s)@ + short_text(short));
}

/// Writes the name shown for a parameter.
fn write_param_name(s: &mut String, param: &Option<String>, name: &String)
    ensures
        final(s)@ == old(s)@ + (" "@ + param_name(opt_str(*param), name@)),
{
    s.append(" ");
    match param {
        Some(p) => s.append(p.as_str()),
        None => {
            let upper = to_uppercase(name.as_str());
            s.append(upper.as_str());
        },
    }
    assert(s@ =~= old(s)@ + (" "@ + param_name(opt_str(*param), name@)));
}

/// Writes the parameter of an option, where it takes one.
fn write_param_text(s: &mut String, option: &HelpOption)
    ensures
        final(s)@ == old(s)@ + param_text(option@),
{
    match &option.kind {
        HelpOptKind::Setting(param) => write_param_name(s, param, &option.name),
        HelpOptKind::Collect(param) => write_param_name(s, param, &option.name),
        _ => {
            assert(s@ =~= old(s)@ + param_text(option@));
        },
    }
}

/// Writes the mark that an option carries.
fn write_marker(s: &mut String, kind: &HelpOptKind)
    ensures
        final(s)@ == old(s)@ + marker_text(kind@),
{
    match kind {
        HelpOptKind::Collect(_) => s.append(" ( * )"),
        HelpOptKind::Count => s.append(" ( * )"),
        HelpOptKind::Interrupt => s.append(" ( X )"),
        _ => {
            assert(s@ =~= old(s)@ + marker_text(kind@));
        },
    }
}

/// Writes the description of an option and an empty line, where there is
/// a description.
fn write_option_description(s: &mut String, help: &Option<String>)
    ensures
        final(s)@ == old(s)@ + option_description(opt_str(*help)),
{
    match help {
        Some(text) => {
            write_trimmed_n(s, "      ", text.as_str());
            s.append("\n");
        },
        None => {},
    }
    assert(s@ =~= old(s)@ + option_description(opt_str(*help)));
}

/// Writes what a help message says of one option.
fn write_option_help(s: &mut String, option: &HelpOption)
    ensures
        final(s)@ == old(s)@ + option_help(option@),
{
    s.append("  --");
    s.append(option.name.as_str());
    write_short_text(s, option.short);
    write_param_text(s, option);
    write_marker(s, &option.kind);
    s.append("\n");
    write_option_description(s, &option.help);
    assert(s@ =~= old(s)@ + option_help(option@));
}

impl Help {
    /// Collects the descriptions of the given definitions.
    pub fn new(program: String, definitions: &[ArgDef]) -> (r: Help)
        ensures
            r@ == help_of(program@, def_models(definitions@)),
    {
        let ghost defs = def_models(definitions@);
        let mut positional: Vec<HelpItem> = Vec::new();
        let mut trail: Option<HelpTrail> = None;
        let mut options: Vec<HelpOption> = Vec::new();
        let mut subcommands: Vec<HelpItem> = Vec::new();
        let mut help_defined = false;
        let mut i: usize = 0;
        proof {
            let none = defs.take(0);
            none.lemma_filter_len(is_positional());
            none.lemma_filter_len(is_option());
            none.lemma_filter_len(is_subcommand());
        }
        while i < definitions.len()
            invariant
                i <= definitions.len(),
                defs == def_models(definitions@),
                item_models(positional@) =~= defs.take(i as int).filter(
                    is_positional(),
                ).map_values(help_item()),
                item_models(subcommands@) =~= defs.take(
                    i as int,
                ).filter(is_subcommand()).map_values(help_item()),
                option_models(options@) =~= defs.take(i as int).filter(
                    is_option(),
                ).map_values(help_option()),
                match trail {
                    Some(t) => help_trail(defs.take(i as int)) == Some(t@),
                    None => help_trail(defs.take(i as int)) is None,
                },
                help_defined == defines_help(defs.take(i as int)),
            decreases definitions.len() - i,
        {
            let def = &definitions[i];
            let ghost before = defs.take(i as int);
            let ghost after = defs.take(i + 1);
            proof {
                assert(after =~= before.push(def@));
                assert(after.drop_last() =~= before);
                before.lemma_filter_push(def@, is_positional());
                before.lemma_filter_push(def@, is_option());
                before.lemma_filter_push(def@, is_subcommand());
                if defines_help(before) {
                    let k = choose|k: int|
                        0 <= k < before.len() && (#[trigger] before[k]).kind is Interrupt
                            && before[k].name == help_name();
                    assert(after[k] == before[k]);
                }
                if defines_help(after) && !(def@.kind is Interrupt && def@.name == help_name()) {
                    let k = choose|k: int|
                        0 <= k < after.len() && (#[trigger] after[k]).kind is Interrupt
                            && after[k].name == help_name();
                    assert(before[k] == after[k]);
                }
                if def@.kind is Interrupt && def@.name == help_name() {
                    assert(after[i as int] == def@);
                }
            }
            let ghost old_positional = item_models(positional@);
            let ghost old_options = option_models(options@);
            let ghost old_subcommands = item_models(subcommands@);
            let name = def.name.clone();
            let help = clone_opt(&def.help_desc);
            match &def.kind {
                ArgDefKind::Positional => {
                    positional.push(HelpItem { name, help });
                },
                ArgDefKind::Trail { optional } => {
                    trail = Some(HelpTrail { name, optional: *optional, help });
                },
                ArgDefKind::Subcommand { .. } => {
                    subcommands.push(HelpItem { name, help });
                },
                ArgDefKind::Flag { short } => {
                    options.push(HelpOption { name, short: *short, kind: HelpOptKind::Flag, help });
                },
                ArgDefKind::Count { short } => {
                    options.push(HelpOption { name, short: *short, kind: HelpOptKind::Count, help });
                },
                ArgDefKind::OptArg { short, param } => {
                    options.push(
                        HelpOption {
                            name,
                            short: *short,
                            kind: HelpOptKind::Setting(clone_opt(param)),
                            help,
                        },
                    );
                },
                ArgDefKind::Collect { short, param } => {
                    options.push(
                        HelpOption {
                            name,
                            short: *short,
                            kind: HelpOptKind::Collect(clone_opt(param)),
                            help,
                        },
                    );
                },
                ArgDefKind::Interrupt { short } => {
                    if def.name == "help".to_owned() {
                        help_defined = true;
                    }
                    options.push(
                        HelpOption { name, short: *short, kind: HelpOptKind::Interrupt, help },
                    );
                },
            }
            proof {
                let new_positional = item_models(positional@);
                let new_options = option_models(options@);
                if def@.kind is Positional {
                    assert(new_positional =~= old_positional.push(help_item()(def@)));
                } else {
                    assert(new_positional =~= old_positional);
                }
                let new_subcommands = item_models(subcommands@);
                if def@.kind is Subcommand {
                    assert(new_subcommands =~= old_subcommands.push(help_item()(def@)));
                } else {
                    assert(new_subcommands =~= old_subcommands);
                }
                if def@.kind.is_option() {
                    assert(new_options =~= old_options.push(help_option()(def@)));
                } else {
                    assert(new_options =~= old_options);
                }
            }
            i += 1;
        }
        proof {
            assert(defs.take(i as int) =~= defs);
        }
        Help { program, positional, trail, subcommands, options, help_defined }
    }

    /// The alias under which help is asked for, where help is defined.
    fn get_help_short(&self) -> (r: Option<char>)
        ensures
            r == help_short(self@),
    {
        if !self.help_defined {
            return None;
        }
        let ghost models = self@.options;
        let help = "help".to_owned();
        let mut i: usize = 0;
        assert(models.skip(0) =~= models);
        while i < self.options.len()
            invariant
                i <= self.options.len(),
                models == self@.options,
                help@ == help_name(),
                self.help_defined,
                first_help_short(models) == first_help_short(models.skip(i as int)),
            decreases self.options.len() - i,
        {
            assert(models.skip(i as int)[0] == self.options@[i as int]@);
            if self.options[i].name == help {
                return self.options[i].short;
            }
            proof {
                assert(models.skip(i as int).skip(1) =~= models.skip(i + 1));
            }
            i += 1;
        }
        None
    }

    /// Writes what a usage line says of the options.
    fn write_options_usage(&self, s: &mut String)
        ensures
            final(s)@ == old(s)@ + options_usage(self@),
    {
        if self.options.len() > 0 {
            if self.help_defined {
                match self.get_help_short() {
                    Some(c) => {
                        s.append(" [-");
                        push_char(s, c);
                    },
                    None => {
                        s.append(" [--help");
                    },
                }
                if self.options.len() > 1 {
                    s.append(", OPTS...");
                }
                s.append("]");
            } else {
                s.append(" [opts...]");
            }
        }
        assert(s@ =~= old(s)@ + options_usage(self@));
    }

    /// Writes what a usage line says of the positional arguments.
    fn write_positional_usage(&self, s: &mut String)
        ensures
            final(s)@ == old(s)@ + positional_usage(self@.positional),
    {
        let ghost models = self@.positional;
        let mut i: usize = 0;
        assert(s@ =~= old(s)@ + positional_usage(models.take(0)));
        while i < self.positional.len()
            invariant
                i <= self.positional.len(),
                models == self@.positional,
                s@ == old(s)@ + positional_usage(models.take(i as int)),
            decreases self.positional.len() - i,
        {
            s.append(" ");
            s.append(self.positional[i].name.as_str());
            proof {
                assert(models.take(i + 1).drop_last() =~= models.take(i as int));
                assert(models.take(i + 1).last() == self.positional@[i as int]@);
                assert(s@ =~= old(s)@ + positional_usage(models.take(i + 1)));
            }
            i += 1;
        }
        proof {
            assert(models.take(i as int) =~= models);
        }
    }

    /// Writes what a usage line says of the subcommands.
    fn write_subcommands_usage(&self, s: &mut String)
        ensures
            final(s)@ == old(s)@ + subcommands_usage(self@.subcommands),
    {
        if self.subcommands.len() > 0 {
            let ghost models = self@.subcommands;
            s.append(" { ");
            s.append(self.subcommands[0].name.as_str());
            let mut i: usize = 1;
            assert(s@ =~= old(s)@ + " { "@ + subcommand_list(models.take(1)));
            while i < self.subcommands.len()
                invariant
                    1 <= i <= self.subcommands.len(),
                    models == self@.subcommands,
                    s@ == old(s)@ + " { "@ + subcommand_list(models.take(i as int)),
                decreases self.subcommands.len() - i,
            {
                s.append(" | ");
                s.append(self.subcommands[i].name.as_str());
                proof {
                    assert(models.take(i + 1).drop_last() =~= models.take(i as int));
                    assert(models.take(i + 1).last() == self.subcommands@[i as int]@);
                    assert(s@ =~= old(s)@ + " { "@ + subcommand_list(models.take(i + 1)));
                }
                i += 1;
            }
            s.append(" } ...");
            proof {
                assert(models.take(i as int) =~= models);
                assert(s@ =~= old(s)@ + subcommands_usage(models));
            }
        } else {
            assert(s@ =~= old(s)@ + subcommands_usage(self@.subcommands));
        }
    }

    /// Writes the usage line.
    fn write_usage_into(&self, s: &mut String)
        ensures
            final(s)@ == old(s)@ + usage_text(self@),
    {
        s.append(self.program.as_str());
        self.write_options_usage(s);
        self.write_positional_usage(s);
        if let Some(trail) = &self.trail {
            s.append(" ");
            write_trail_text(s, trail);
        }
        assert(s@ =~= old(s)@ + (self@.program + options_usage(self@) + positional_usage(
            self@.positional,
        ) + trail_usage(self@.trail)));
        self.write_subcommands_usage(s);
        assert(s@ =~= old(s)@ + usage_text(self@));
    }

    /// The usage line of the program.
    pub fn usage_message(&self) -> (r: String)
        ensures
            r@ == usage_text(self@),
    {
        let mut s = String::new();
        self.write_usage_into(&mut s);
        assert(s@ =~= usage_text(self@));
        s
    }

    /// Whether one of the options can be given many times.
    fn has_repeatable(&self) -> (r: bool)
        ensures
            r == has_repeatable(self@.options),
    {
        let mut i: usize = 0;
        while i < self.options.len()
            invariant
                i <= self.options.len(),
                forall|j: int| 0 <= j < i ==> !can_repeat((#[trigger] self@.options[j]).kind),
            decreases self.options.len() - i,
        {
            let found = match &self.options[i].kind {
                HelpOptKind::Count => true,
                HelpOptKind::Collect(_) => true,
                _ => false,
            };
            if found {
                assert(can_repeat(self@.options[i as int].kind));
                return true;
            }
            i += 1;
        }
        false
    }

    /// Whether one of the options is an interrupt.
    fn has_interrupt(&self) -> (r: bool)
        ensures
            r == has_interrupt(self@.options),
    {
        let mut i: usize = 0;
        while i < self.options.len()
            invariant
                i <= self.options.len(),
                forall|j: int| 0 <= j < i ==> !((#[trigger] self@.options[j]).kind is Interrupt),
            decreases self.options.len() - i,
        {
            let found = match &self.options[i].kind {
                HelpOptKind::Interrupt => true,
                _ => false,
            };
            if found {
                assert(self@.options[i as int].kind is Interrupt);
                return true;
            }
            i += 1;
        }
        false
    }

    /// Writes the legend of the marks that the options carry.
    fn write_legend(&self, s: &mut String)
        ensures
            final(s)@ == old(s)@ + legend(self@.options),
    {
        let repeatable = self.has_repeatable();
        let interrupt = self.has_interrupt();
        if repeatable {
            s.append("  ( * ) This option can be given multiple times.\n");
        }
        if interrupt {
            s.append("  ( X ) This option interrupts normal parsing.\n");
        }
        if repeatable || interrupt {
            s.append("\n");
        }
        assert(s@ =~= old(s)@ + legend(self@.options));
    }

    /// Writes what a help message says of the options.
    fn write_options_help(&self, s: &mut String)
        ensures
            final(s)@ == old(s)@ + options_help(self@.options),
    {
        let ghost models = self@.options;
        let mut i: usize = 0;
        assert(s@ =~= old(s)@ + options_help(models.take(0)));
        while i < self.options.len()
            invariant
                i <= self.options.len(),
                models == self@.options,
                s@ == old(s)@ + options_help(models.take(i as int)),
            decreases self.options.len() - i,
        {
            write_option_help(s, &self.options[i]);
            proof {
                assert(models.take(i + 1).drop_last() =~= models.take(i as int));
                assert(models.take(i + 1).last() == self.options@[i as int]@);
                assert(s@ =~= old(s)@ + options_help(models.take(i + 1)));
            }
            i += 1;
        }
        proof {
            assert(models.take(i as int) =~= models);
        }
    }

    /// Writes the part of a help message on the options.
    fn write_options_section(&self, s: &mut String)
        ensures
            final(s)@ == old(s)@ + options_section(self@),
    {
        if self.options.len() > 0 {
            if !(self.positional.len() > 0 || self.trail.is_some() || self.subcommands.len() > 0) {
                s.append("\n");
            }
            s.append("Optional arguments:\n");
            self.write_legend(s);
            self.write_options_help(s);
        }
        assert(s@ =~= old(s)@ + options_section(self@));
    }

    /// Writes the part of a help message on the positional arguments and
    /// the trail.
    fn write_positional_section(&self, s: &mut String)
        ensures
            final(s)@ == old(s)@ + positional_section(self@),
    {
        if self.positional.len() > 0 || self.trail.is_some() {
            s.append("\nPositional arguments:\n");
            write_items_help(s, &self.positional);
            if let Some(trail) = &self.trail {
                s.append("  ");
                write_trail_text(s, trail);
                s.append("\n");
                write_description(s, "    ", &trail.help);
                s.append("\n");
            }
        }
        assert(s@ =~= old(s)@ + positional_section(self@));
    }

    /// The help message of the program, with the given description of the
    /// program, which may be empty.
    pub fn help_message(&self, description: &str) -> (r: String)
        ensures
            r@ == help_text(self@, description@),
    {
        let mut s = "Usage:\n  ".to_owned();
        self.write_usage_into(&mut s);
        let has_description = !description.is_empty();
        let has_positional = self.positional.len() > 0 || self.trail.is_some();
        let has_optional = self.options.len() > 0;
        let has_subcommands = self.subcommands.len() > 0;
        if has_positional || has_optional || has_description || has_subcommands {
            s.append("\n\n");
        }
        if has_description {
            s.append("Description:\n");
            write_trimmed_n(&mut s, "  ", description);
        }
        assert(s@ =~= "Usage:\n  "@ + usage_text(self@) + usage_gap(self@, description@)
            + description_section(description@));
        self.write_positional_section(&mut s);
        if has_subcommands {
            s.append("\nSubcommands:\n");
            write_items_help(&mut s, &self.subcommands);
        }
        assert(s@ =~= "Usage:\n  "@ + usage_text(self@) + usage_gap(self@, description@)
            + description_section(description@) + positional_section(self@) + subcommands_section(
            self@,
        ));
        self.write_options_section(&mut s);
        s
    }
}

} // verus!
