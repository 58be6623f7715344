//! Descriptions of the arguments a program expects.

use vstd::prelude::*;
use vstd::string::*;

verus! {

/// The kind of an expected argument, with the data particular to the kind.
#[derive(Debug, Clone)]
pub enum ArgDefKind {
    /// A required value identified by its position.
    Positional,
    /// A named token that hands all remaining tokens to a handler.
    Subcommand { handler: usize },
    /// The values that follow the positional ones.
    Trail { optional: bool },
    /// A switch that is either given or not.
    Flag { short: Option<char> },
    /// A switch whose occurrences are counted.
    Count { short: Option<char> },
    /// An option with one parameter, which may be given many times.
    Collect { short: Option<char>, param: Option<String> },
    /// An option with one parameter.
    OptArg { short: Option<char>, param: Option<String> },
    /// A switch that cuts the parse short, such as `--help`.
    Interrupt { short: Option<char> },
}

/// The description of an expected argument.
#[derive(Debug, Clone)]
pub struct ArgDef {
    pub name: String,
    pub kind: ArgDefKind,
    pub help_desc: Option<String>,
}

/// The mathematical model of an optional string.
pub open spec fn opt_str(s: Option<String>) -> Option<Seq<char>> {
    match s {
        Some(s) => Some(s@),
        None => None,
    }
}

/// The mathematical model of an [`ArgDefKind`].
pub enum KindModel {
    Positional,
    Subcommand { handler: usize },
    Trail { optional: bool },
    Flag { short: Option<char> },
    Count { short: Option<char> },
    Collect { short: Option<char>, param: Option<Seq<char>> },
    OptArg { short: Option<char>, param: Option<Seq<char>> },
    Interrupt { short: Option<char> },
}

impl KindModel {
    /// Whether the kind is looked up by a long name and an optional alias.
    pub open spec fn is_option(self) -> bool {
        !(self is Positional || self is Subcommand || self is Trail)
    }

    /// Whether the kind takes one parameter.
    pub open spec fn takes_param(self) -> bool {
        self is Collect || self is OptArg
    }

    /// The alias of the kind, if it has one.
    pub open spec fn short(self) -> Option<char> {
        match self {
            KindModel::Flag { short } => short,
            KindModel::Count { short } => short,
            KindModel::Collect { short, .. } => short,
            KindModel::OptArg { short, .. } => short,
            KindModel::Interrupt { short } => short,
            _ => None,
        }
    }

    /// The parameter's display name, if the kind has one.
    pub open spec fn param(self) -> Option<Seq<char>> {
        match self {
            KindModel::Collect { param, .. } => param,
            KindModel::OptArg { param, .. } => param,
            _ => None,
        }
    }

    /// The kind with its alias replaced, where the kind can have one.
    pub open spec fn with_short(self, c: char) -> KindModel {
        match self {
            KindModel::Flag { .. } => KindModel::Flag { short: Some(c) },
            KindModel::Count { .. } => KindModel::Count { short: Some(c) },
            KindModel::Collect { param, .. } => KindModel::Collect { short: Some(c), param },
            KindModel::OptArg { param, .. } => KindModel::OptArg { short: Some(c), param },
            KindModel::Interrupt { .. } => KindModel::Interrupt { short: Some(c) },
            other => other,
        }
    }

    /// The kind with its parameter name replaced, where the kind takes a parameter.
    pub open spec fn with_param(self, p: Seq<char>) -> KindModel {
        match self {
            KindModel::Collect { short, .. } => KindModel::Collect { short, param: Some(p) },
            KindModel::OptArg { short, .. } => KindModel::OptArg { short, param: Some(p) },
            other => other,
        }
    }
}

impl View for ArgDefKind {
    type V = KindModel;

    open spec fn view(&self) -> KindModel {
        match *self {
            ArgDefKind::Positional => KindModel::Positional,
            ArgDefKind::Subcommand { handler } => KindModel::Subcommand { handler },
            ArgDefKind::Trail { optional } => KindModel::Trail { optional },
            ArgDefKind::Flag { short } => KindModel::Flag { short },
            ArgDefKind::Count { short } => KindModel::Count { short },
            ArgDefKind::Collect { short, param } => KindModel::Collect {
                short,
                param: opt_str(param),
            },
            ArgDefKind::OptArg { short, param } => KindModel::OptArg {
                short,
                param: opt_str(param),
            },
            ArgDefKind::Interrupt { short } => KindModel::Interrupt { short },
        }
    }
}

/// The mathematical model of an [`ArgDef`].
pub struct DefModel {
    pub name: Seq<char>,
    pub kind: KindModel,
    pub help: Option<Seq<char>>,
}

impl View for ArgDef {
    type V = DefModel;

    open spec fn view(&self) -> DefModel {
        DefModel { name: self.name@, kind: self.kind@, help: opt_str(self.help_desc) }
    }
}

/// The models of a list of definitions, in order.
pub open spec fn def_models(defs: Seq<ArgDef>) -> Seq<DefModel> {
    Seq::new(defs.len(), |i: int| defs[i]@)
}

impl ArgDef {
    fn new(name: &str, kind: ArgDefKind) -> (r: ArgDef)
        ensures
            r@ == (DefModel { name: name@, kind: kind@, help: None }),
    {
        ArgDef { name: name.to_owned(), kind, help_desc: None }
    }

    /// Describes a required positional argument.
    pub fn pos(name: &str) -> (r: ArgDef)
        ensures
            r@ == (DefModel { name: name@, kind: KindModel::Positional, help: None }),
    {
        ArgDef::new(name, ArgDefKind::Positional)
    }

    /// Describes the trail: the values that remain once every positional
    /// argument has been given. A trail that is not optional needs at least
    /// one value.
    pub fn trail(name: &str, optional: bool) -> (r: ArgDef)
        ensures
            r@ == (DefModel { name: name@, kind: KindModel::Trail { optional }, help: None }),
    {
        ArgDef::new(name, ArgDefKind::Trail { optional })
    }

    /// Describes a subcommand. `handler` identifies what the caller runs on
    /// the remaining tokens once the subcommand has been recognized.
    pub fn cmd(name: &str, handler: usize) -> (r: ArgDef)
        ensures
            r@ == (DefModel { name: name@, kind: KindModel::Subcommand { handler }, help: None }),
    {
        ArgDef::new(name, ArgDefKind::Subcommand { handler })
    }

    /// Describes an interrupt: a switch such as `--help` or `--version`
    /// that ends the parse as soon as it is recognized.
    pub fn interrupt(name: &str) -> (r: ArgDef)
        ensures
            r@ == (DefModel {
                name: name@,
                kind: KindModel::Interrupt { short: None },
                help: None,
            }),
    {
        ArgDef::new(name, ArgDefKind::Interrupt { short: None })
    }

    /// Describes an option that takes one parameter.
    pub fn option(name: &str) -> (r: ArgDef)
        ensures
            r@ == (DefModel {
                name: name@,
                kind: KindModel::OptArg { short: None, param: None },
                help: None,
            }),
    {
        ArgDef::new(name, ArgDefKind::OptArg { short: None, param: None })
    }

    /// Describes a flag: a switch that is either given or not.
    pub fn flag(name: &str) -> (r: ArgDef)
        ensures
            r@ == (DefModel { name: name@, kind: KindModel::Flag { short: None }, help: None }),
    {
        ArgDef::new(name, ArgDefKind::Flag { short: None })
    }

    /// Describes a switch whose occurrences are counted.
    pub fn count(name: &str) -> (r: ArgDef)
        ensures
            r@ == (DefModel { name: name@, kind: KindModel::Count { short: None }, help: None }),
    {
        ArgDef::new(name, ArgDefKind::Count { short: None })
    }

    /// Describes an option that takes one parameter and may be given many
    /// times: `-i foo.h -i bar.h`.
    pub fn collect(name: &str) -> (r: ArgDef)
        ensures
            r@ == (DefModel {
                name: name@,
                kind: KindModel::Collect { short: None, param: None },
                help: None,
            }),
    {
        ArgDef::new(name, ArgDefKind::Collect { short: None, param: None })
    }

    /// Gives the argument a one-character alias, like `-h` for `--help`.
    /// Positional arguments, trails and subcommands have no alias and are
    /// returned unchanged.
    pub fn short(self, short: char) -> (r: ArgDef)
        ensures
            r@ == (DefModel { kind: self@.kind.with_short(short), ..self@ }),
    {
        let ArgDef { name, kind, help_desc } = self;
        let kind = match kind {
            ArgDefKind::Flag { .. } => ArgDefKind::Flag { short: Some(short) },
            ArgDefKind::Count { .. } => ArgDefKind::Count { short: Some(short) },
            ArgDefKind::Collect { param, .. } => ArgDefKind::Collect { short: Some(short), param },
            ArgDefKind::OptArg { param, .. } => ArgDefKind::OptArg { short: Some(short), param },
            ArgDefKind::Interrupt { .. } => ArgDefKind::Interrupt { short: Some(short) },
            other => other,
        };
        ArgDef { name, kind, help_desc }
    }

    /// Sets the name under which help messages show the parameter of an
    /// argument that takes one. Other arguments are returned unchanged.
    pub fn param(self, parameter_name: &str) -> (r: ArgDef)
        ensures
            r@ == (DefModel { kind: self@.kind.with_param(parameter_name@), ..self@ }),
    {
        let ArgDef { name, kind, help_desc } = self;
        let kind = match kind {
            ArgDefKind::Collect { short, .. } => ArgDefKind::Collect {
                short,
                param: Some(parameter_name.to_owned()),
            },
            ArgDefKind::OptArg { short, .. } => ArgDefKind::OptArg {
                short,
                param: Some(parameter_name.to_owned()),
            },
            other => other,
        };
        ArgDef { name, kind, help_desc }
    }

    /// Sets the description that help messages show for the argument.
    pub fn help(self, help: &str) -> (r: ArgDef)
        ensures
            r@ == (DefModel { help: Some(help@), ..self@ }),
    {
        let ArgDef { name, kind, help_desc: _ } = self;
        ArgDef { name, kind, help_desc: Some(help.to_owned()) }
    }
}

} // verus!
