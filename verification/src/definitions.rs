//! Compiling a list of argument definitions into a checked lookup structure.

use crate::argdef::{def_models, ArgDef, ArgDefKind, DefModel, KindModel};
use vstd::prelude::*;
use vstd::string::*;

verus! {

/// What recognizing an option means to whoever consumes the events.
#[derive(Debug, Clone, Copy, PartialEq, Eq, Structural)]
pub enum TargetRef {
    /// A switch that is either given or not.
    Flag,
    /// A switch whose occurrences are counted.
    Count,
    /// An option with one parameter.
    Setting,
    /// A switch that cuts the parse short.
    Interrupt,
    /// An option with one parameter, which may be given many times.
    Collect,
}

impl TargetRef {
    /// Whether the option claims the following token as its parameter.
    pub open spec fn takes_param(self) -> bool {
        self is Setting || self is Collect
    }

    /// Whether the option claims the following token as its parameter.
    #[verifier::when_used_as_spec(takes_param)]
    pub fn needs_param(self) -> (r: bool)
        ensures
            r == self.takes_param(),
    {
        match self {
            TargetRef::Setting => true,
            TargetRef::Collect => true,
            _ => false,
        }
    }
}

/// An argument that is looked up by its long name or its alias.
#[derive(Debug, Clone)]
pub struct OptionEntry {
    pub name: String,
    pub short: Option<char>,
    pub target: TargetRef,
}

/// The mathematical model of an [`OptionEntry`].
pub struct OptionModel {
    pub name: Seq<char>,
    pub short: Option<char>,
    pub target: TargetRef,
}

impl View for OptionEntry {
    type V = OptionModel;

    open spec fn view(&self) -> OptionModel {
        OptionModel { name: self.name@, short: self.short, target: self.target }
    }
}

/// The trail of a definition set.
#[derive(Debug, Clone)]
pub struct TrailEntry {
    pub name: String,
    pub optional: bool,
}

/// The mathematical model of a [`TrailEntry`].
pub struct TrailModel {
    pub name: Seq<char>,
    pub optional: bool,
}

impl View for TrailEntry {
    type V = TrailModel;

    open spec fn view(&self) -> TrailModel {
        TrailModel { name: self.name@, optional: self.optional }
    }
}

/// A subcommand of a definition set.
#[derive(Debug, Clone)]
pub struct SubcommandEntry {
    pub name: String,
    pub handler: usize,
}

/// The mathematical model of a [`SubcommandEntry`].
pub struct SubcommandModel {
    pub name: Seq<char>,
    pub handler: usize,
}

impl View for SubcommandEntry {
    type V = SubcommandModel;

    open spec fn view(&self) -> SubcommandModel {
        SubcommandModel { name: self.name@, handler: self.handler }
    }
}

/// Why a list of definitions is not a valid definition set. Each of these
/// is a mistake in the program that wrote the definitions.
#[derive(Debug, Clone, PartialEq, Eq)]
pub enum DefinitionError {
    /// Two options, switches or interrupts have this long name.
    OptionDefinedTwice(String),
    /// Two positional arguments have this name.
    PositionalDefinedTwice(String),
    /// The first name's alias already belongs to the second name.
    SameShortName(String, String),
    /// There is more than one trail.
    TwoTrailsDefined,
    /// Two subcommands have this name.
    SubcommandDefinedTwice(String),
    /// Positional arguments or a trail stand beside subcommands.
    PositionalAndSubcommandMixed,
}

/// The mathematical model of a [`DefinitionError`].
pub enum DefinitionErrorModel {
    OptionDefinedTwice(Seq<char>),
    PositionalDefinedTwice(Seq<char>),
    SameShortName(Seq<char>, Seq<char>),
    TwoTrailsDefined,
    SubcommandDefinedTwice(Seq<char>),
    PositionalAndSubcommandMixed,
}

impl View for DefinitionError {
    type V = DefinitionErrorModel;

    open spec fn view(&self) -> DefinitionErrorModel {
        match *self {
            DefinitionError::OptionDefinedTwice(n) => DefinitionErrorModel::OptionDefinedTwice(n@),
            DefinitionError::PositionalDefinedTwice(n) => {
                DefinitionErrorModel::PositionalDefinedTwice(n@)
            },
            DefinitionError::SameShortName(n, m) => DefinitionErrorModel::SameShortName(n@, m@),
            DefinitionError::TwoTrailsDefined => DefinitionErrorModel::TwoTrailsDefined,
            DefinitionError::SubcommandDefinedTwice(n) => {
                DefinitionErrorModel::SubcommandDefinedTwice(n@)
            },
            DefinitionError::PositionalAndSubcommandMixed => {
                DefinitionErrorModel::PositionalAndSubcommandMixed
            },
        }
    }
}

/// What [`DefinitionError::message`] says of an error.
pub open spec fn definition_error_text(e: DefinitionErrorModel) -> Seq<char> {
    match e {
        DefinitionErrorModel::OptionDefinedTwice(name) => "Option '"@ + name + "' defined twice."@,
        DefinitionErrorModel::PositionalDefinedTwice(name) => "Positional argument '"@ + name
            + "' defined twice."@,
        DefinitionErrorModel::SameShortName(name, other) => "Options '"@ + name + "' and '"@ + other
            + "' have the same short name."@,
        DefinitionErrorModel::TwoTrailsDefined => "Two trails defined."@,
        DefinitionErrorModel::SubcommandDefinedTwice(name) => "Subcommand '"@ + name
            + "' defined twice."@,
        DefinitionErrorModel::PositionalAndSubcommandMixed => {
            "Positional (+trail) and subcommand definitions cannot be used together."@
        },
    }
}

impl DefinitionError {
    /// The error in words, for the author of the definitions.
    pub fn message(&self) -> (r: String)
        ensures
            r@ == definition_error_text(self@),
    {
        let mut s = String::new();
        match self {
            DefinitionError::OptionDefinedTwice(name) => {
                s.append("Option '");
                s.append(name.as_str());
                s.append("' defined twice.");
            },
            DefinitionError::PositionalDefinedTwice(name) => {
                s.append("Positional argument '");
                s.append(name.as_str());
                s.append("' defined twice.");
            },
            DefinitionError::SameShortName(name, other) => {
                s.append("Options '");
                s.append(name.as_str());
                s.append("' and '");
                s.append(other.as_str());
                s.append("' have the same short name.");
            },
            DefinitionError::TwoTrailsDefined => {
                s.append("Two trails defined.");
            },
            DefinitionError::SubcommandDefinedTwice(name) => {
                s.append("Subcommand '");
                s.append(name.as_str());
                s.append("' defined twice.");
            },
            DefinitionError::PositionalAndSubcommandMixed => {
                s.append("Positional (+trail) and subcommand definitions cannot be used together.");
            },
        }
        assert(s@ =~= definition_error_text(self@));
        s
    }
}

/// The mathematical model of a compiled definition set.
pub struct DefinitionSet {
    /// The names of the positional slots, in the order they are filled.
    pub positional: Seq<Seq<char>>,
    /// The trail, if one is defined.
    pub trail: Option<TrailModel>,
    /// The arguments that are looked up by long name or alias.
    pub options: Seq<OptionModel>,
    /// The subcommands.
    pub subcommands: Seq<SubcommandModel>,
    /// Whether an interrupt named `help` is defined.
    pub help_defined: bool,
}

/// The name that marks an interrupt as the one that shows help.
pub open spec fn help_name() -> Seq<char> {
    "help"@
}

/// The target of an argument kind that is looked up by name.
pub open spec fn target_of(kind: KindModel) -> TargetRef {
    match kind {
        KindModel::Count { .. } => TargetRef::Count,
        KindModel::Collect { .. } => TargetRef::Collect,
        KindModel::OptArg { .. } => TargetRef::Setting,
        KindModel::Interrupt { .. } => TargetRef::Interrupt,
        _ => TargetRef::Flag,
    }
}

impl DefinitionSet {
    /// The set without any definition.
    pub open spec fn empty() -> DefinitionSet {
        DefinitionSet {
            positional: Seq::empty(),
            trail: None,
            options: Seq::empty(),
            subcommands: Seq::empty(),
            help_defined: false,
        }
    }

    /// The long names of the options, in the order of `options`.
    pub open spec fn long_names(self) -> Seq<Seq<char>> {
        Seq::new(self.options.len(), |i: int| self.options[i].name)
    }

    /// The aliases of the options, in the order of `options`.
    pub open spec fn aliases(self) -> Seq<Option<char>> {
        Seq::new(self.options.len(), |i: int| self.options[i].short)
    }

    /// The names of the subcommands, in the order of `subcommands`.
    pub open spec fn subcommand_names(self) -> Seq<Seq<char>> {
        Seq::new(self.subcommands.len(), |i: int| self.subcommands[i].name)
    }

    /// The index of the option with the given long name.
    pub open spec fn find_long(self, name: Seq<char>) -> Option<int> {
        self.long_names().index_of_first(name)
    }

    /// The index of the option with the given alias.
    pub open spec fn find_short(self, alias: char) -> Option<int> {
        self.aliases().index_of_first(Some(alias))
    }

    /// The index of the subcommand with the given name.
    pub open spec fn find_subcommand(self, name: Seq<char>) -> Option<int> {
        self.subcommand_names().index_of_first(name)
    }

    /// The invariant of a compiled set: no name and no alias is defined
    /// twice, and positional arguments do not stand beside subcommands.
    pub open spec fn wf(self) -> bool {
        &&& self.positional.no_duplicates()
        &&& self.long_names().no_duplicates()
        &&& self.subcommand_names().no_duplicates()
        &&& forall|i: int, j: int|
            0 <= i < j < self.options.len() && self.options[i].short is Some ==> (
            #[trigger] self.options[i]).short != (#[trigger] self.options[j]).short
        &&& (self.positional.len() > 0 || self.trail is Some) ==> self.subcommands.len() == 0
    }

    /// The error, if there is one, that adding `d` to the set runs into.
    pub open spec fn violation(self, d: DefModel) -> Option<DefinitionErrorModel> {
        match d.kind {
            KindModel::Positional => {
                if self.subcommands.len() > 0 {
                    Some(DefinitionErrorModel::PositionalAndSubcommandMixed)
                } else if self.positional.contains(d.name) {
                    Some(DefinitionErrorModel::PositionalDefinedTwice(d.name))
                } else {
                    None
                }
            },
            KindModel::Trail { .. } => {
                if self.subcommands.len() > 0 {
                    Some(DefinitionErrorModel::PositionalAndSubcommandMixed)
                } else if self.trail is Some {
                    Some(DefinitionErrorModel::TwoTrailsDefined)
                } else {
                    None
                }
            },
            KindModel::Subcommand { .. } => {
                if self.positional.len() > 0 || self.trail is Some {
                    Some(DefinitionErrorModel::PositionalAndSubcommandMixed)
                } else if self.subcommand_names().contains(d.name) {
                    Some(DefinitionErrorModel::SubcommandDefinedTwice(d.name))
                } else {
                    None
                }
            },
            _ => {
                if self.long_names().contains(d.name) {
                    Some(DefinitionErrorModel::OptionDefinedTwice(d.name))
                } else {
                    match d.kind.short() {
                        Some(c) => match self.find_short(c) {
                            Some(i) => Some(
                                DefinitionErrorModel::SameShortName(d.name, self.options[i].name),
                            ),
                            None => None,
                        },
                        None => None,
                    }
                }
            },
        }
    }

    /// The set with `d` added.
    pub open spec fn extend(self, d: DefModel) -> DefinitionSet {
        match d.kind {
            KindModel::Positional => DefinitionSet {
                positional: self.positional.push(d.name),
                ..self
            },
            KindModel::Trail { optional } => DefinitionSet {
                trail: Some(TrailModel { name: d.name, optional }),
                ..self
            },
            KindModel::Subcommand { handler } => DefinitionSet {
                subcommands: self.subcommands.push(SubcommandModel { name: d.name, handler }),
                ..self
            },
            _ => DefinitionSet {
                options: self.options.push(
                    OptionModel { name: d.name, short: d.kind.short(), target: target_of(d.kind) },
                ),
                help_defined: self.help_defined || (d.kind is Interrupt && d.name == help_name()),
                ..self
            },
        }
    }
}

/// What compiling a list of definitions gives: the definitions are added
/// one by one, in order, and the first one that cannot be added decides the
/// error.
pub open spec fn compile(defs: Seq<DefModel>) -> Result<DefinitionSet, DefinitionErrorModel>
    decreases defs.len(),
{
    if defs.len() == 0 {
        Ok(DefinitionSet::empty())
    } else {
        match compile(defs.drop_last()) {
            Err(e) => Err(e),
            Ok(set) => match set.violation(defs.last()) {
                Some(e) => Err(e),
                None => Ok(set.extend(defs.last())),
            },
        }
    }
}

/// The models of a list of strings, in order.
pub open spec fn str_models(v: Seq<String>) -> Seq<Seq<char>> {
    Seq::new(v.len(), |i: int| v[i]@)
}

/// A compiled definition set: the definitions sorted by kind, with the
/// invariant that no name or alias is defined twice.
#[derive(Debug, Clone)]
pub struct ParseState {
    positional: Vec<String>,
    trail: Option<TrailEntry>,
    options: Vec<OptionEntry>,
    subcommands: Vec<SubcommandEntry>,
    help_defined: bool,
}

impl View for ParseState {
    type V = DefinitionSet;

    closed spec fn view(&self) -> DefinitionSet {
        DefinitionSet {
            positional: str_models(self.positional@),
            trail: match self.trail {
                Some(t) => Some(t@),
                None => None,
            },
            options: Seq::new(self.options@.len(), |i: int| self.options@[i]@),
            subcommands: Seq::new(self.subcommands@.len(), |i: int| self.subcommands@[i]@),
            help_defined: self.help_defined,
        }
    }
}

impl ParseState {
    /// The set without any definition.
    fn empty() -> (r: ParseState)
        ensures
            r@ == DefinitionSet::empty(),
    {
        let r = ParseState {
            positional: Vec::new(),
            trail: None,
            options: Vec::new(),
            subcommands: Vec::new(),
            help_defined: false,
        };
        assert(r@.positional =~= Seq::empty());
        assert(r@.options =~= Seq::empty());
        assert(r@.subcommands =~= Seq::empty());
        r
    }

    /// Adds an option, switch or interrupt, unless its long name or its
    /// alias is taken.
    fn add_option(&mut self, def: &ArgDef, short: Option<char>, target: TargetRef) -> (r: Result<
        (),
        DefinitionError,
    >)
        requires
            def@.kind.is_option(),
            short == def@.kind.short(),
            target == target_of(def@.kind),
        ensures
            match r {
                Ok(_) => old(self)@.violation(def@) is None && final(self)@ == old(self)@.extend(
                    def@,
                ),
                Err(e) => old(self)@.violation(def@) == Some(e@) && final(self)@ == old(self)@,
            },
    {
        proof {
            self@.long_names().index_of_first_ensures(def@.name);
        }
        if self.find_long(&def.name).is_some() {
            return Err(DefinitionError::OptionDefinedTwice(def.name.clone()));
        }
        if let Some(c) = short {
            if let Some(i) = self.find_short(c) {
                return Err(
                    DefinitionError::SameShortName(def.name.clone(), self.options[i].name.clone()),
                );
            }
        }
        let is_help = match target {
            TargetRef::Interrupt => def.name == "help".to_owned(),
            _ => false,
        };
        self.options.push(OptionEntry { name: def.name.clone(), short, target });
        if is_help {
            self.help_defined = true;
        }
        assert(self@.options =~= old(self)@.options.push(
            OptionModel { name: def@.name, short, target },
        ));
        assert(self@.positional =~= old(self)@.positional);
        assert(self@.subcommands =~= old(self)@.subcommands);
        Ok(())
    }

    /// Adds one definition, unless it cannot stand beside those already in
    /// the set.
    fn add(&mut self, def: &ArgDef) -> (r: Result<(), DefinitionError>)
        ensures
            match r {
                Ok(_) => old(self)@.violation(def@) is None && final(self)@ == old(self)@.extend(
                    def@,
                ),
                Err(e) => old(self)@.violation(def@) == Some(e@) && final(self)@ == old(self)@,
            },
    {
        match &def.kind {
            ArgDefKind::Positional => {
                if self.subcommands.len() > 0 {
                    return Err(DefinitionError::PositionalAndSubcommandMixed);
                }
                if self.has_positional(&def.name) {
                    return Err(DefinitionError::PositionalDefinedTwice(def.name.clone()));
                }
                self.positional.push(def.name.clone());
                assert(self@.positional =~= old(self)@.positional.push(def@.name));
                assert(self@.options =~= old(self)@.options);
                assert(self@.subcommands =~= old(self)@.subcommands);
                Ok(())
            },
            ArgDefKind::Trail { optional } => {
                if self.subcommands.len() > 0 {
                    return Err(DefinitionError::PositionalAndSubcommandMixed);
                }
                if self.trail.is_some() {
                    return Err(DefinitionError::TwoTrailsDefined);
                }
                self.trail = Some(TrailEntry { name: def.name.clone(), optional: *optional });
                assert(self@.positional =~= old(self)@.positional);
                assert(self@.options =~= old(self)@.options);
                assert(self@.subcommands =~= old(self)@.subcommands);
                Ok(())
            },
            ArgDefKind::Subcommand { handler } => {
                if self.positional.len() > 0 || self.trail.is_some() {
                    return Err(DefinitionError::PositionalAndSubcommandMixed);
                }
                proof {
                    self@.subcommand_names().index_of_first_ensures(def@.name);
                }
                if self.find_subcommand(&def.name).is_some() {
                    return Err(DefinitionError::SubcommandDefinedTwice(def.name.clone()));
                }
                self.subcommands.push(
                    SubcommandEntry { name: def.name.clone(), handler: *handler },
                );
                assert(self@.subcommands =~= old(self)@.subcommands.push(
                    SubcommandModel { name: def@.name, handler: *handler },
                ));
                assert(self@.positional =~= old(self)@.positional);
                assert(self@.options =~= old(self)@.options);
                Ok(())
            },
            ArgDefKind::Flag { short } => self.add_option(def, *short, TargetRef::Flag),
            ArgDefKind::Count { short } => self.add_option(def, *short, TargetRef::Count),
            ArgDefKind::Collect { short, .. } => self.add_option(def, *short, TargetRef::Collect),
            ArgDefKind::OptArg { short, .. } => self.add_option(def, *short, TargetRef::Setting),
            ArgDefKind::Interrupt { short } => self.add_option(def, *short, TargetRef::Interrupt),
        }
    }

    /// The number of positional slots.
    pub fn positional_len(&self) -> (r: usize)
        ensures
            r == self@.positional.len(),
    {
        self.positional.len()
    }

    /// The name of the positional slot at `index`.
    pub fn positional_name(&self, index: usize) -> (r: &String)
        requires
            index < self@.positional.len(),
        ensures
            r@ == self@.positional[index as int],
    {
        &self.positional[index]
    }

    /// The trail, if one is defined.
    pub fn trail(&self) -> (r: Option<&TrailEntry>)
        ensures
            match r {
                Some(t) => self@.trail == Some(t@),
                None => self@.trail is None,
            },
    {
        self.trail.as_ref()
    }

    /// The number of options, switches and interrupts.
    pub fn options_len(&self) -> (r: usize)
        ensures
            r == self@.options.len(),
    {
        self.options.len()
    }

    /// The option at `index`.
    pub fn option_at(&self, index: usize) -> (r: &OptionEntry)
        requires
            index < self@.options.len(),
        ensures
            r@ == self@.options[index as int],
    {
        &self.options[index]
    }

    /// The number of subcommands.
    pub fn subcommands_len(&self) -> (r: usize)
        ensures
            r == self@.subcommands.len(),
    {
        self.subcommands.len()
    }

    /// The subcommand at `index`.
    pub fn subcommand_at(&self, index: usize) -> (r: &SubcommandEntry)
        requires
            index < self@.subcommands.len(),
        ensures
            r@ == self@.subcommands[index as int],
    {
        &self.subcommands[index]
    }

    /// Whether an interrupt named `help` is defined.
    pub fn help_defined(&self) -> (r: bool)
        ensures
            r == self@.help_defined,
    {
        self.help_defined
    }

    /// Whether a positional slot has the given name.
    pub fn has_positional(&self, name: &String) -> (r: bool)
        ensures
            r == self@.positional.contains(name@),
    {
        let mut i: usize = 0;
        while i < self.positional.len()
            invariant
                i <= self.positional.len(),
                forall|j: int| 0 <= j < i ==> self@.positional[j] != name@,
            decreases self.positional.len() - i,
        {
            if self.positional[i] == *name {
                assert(self@.positional[i as int] == name@);
                return true;
            }
            i += 1;
        }
        false
    }

    /// The index of the option with the given long name.
    pub fn find_long(&self, name: &String) -> (r: Option<usize>)
        ensures
            match r {
                Some(i) => self@.find_long(name@) == Some(i as int) && i < self@.options.len(),
                None => self@.find_long(name@) is None,
            },
    {
        let ghost names = self@.long_names();
        let mut i: usize = 0;
        while i < self.options.len()
            invariant
                i <= self.options.len(),
                names == self@.long_names(),
                forall|j: int| 0 <= j < i ==> names[j] != name@,
            decreases self.options.len() - i,
        {
            if self.options[i].name == *name {
                proof {
                    assert(names[i as int] == name@);
                    names.index_of_first_ensures(name@);
                }
                return Some(i);
            }
            i += 1;
        }
        proof {
            names.index_of_first_ensures(name@);
        }
        None
    }

    /// The index of the option with the given alias.
    pub fn find_short(&self, alias: char) -> (r: Option<usize>)
        ensures
            match r {
                Some(i) => self@.find_short(alias) == Some(i as int) && i < self@.options.len(),
                None => self@.find_short(alias) is None,
            },
    {
        let ghost aliases = self@.aliases();
        let mut i: usize = 0;
        while i < self.options.len()
            invariant
                i <= self.options.len(),
                aliases == self@.aliases(),
                forall|j: int| 0 <= j < i ==> aliases[j] != Some(alias),
            decreases self.options.len() - i,
        {
            match self.options[i].short {
                Some(c) => {
                    if c == alias {
                        proof {
                            assert(aliases[i as int] == Some(alias));
                            aliases.index_of_first_ensures(Some(alias));
                        }
                        return Some(i);
                    }
                },
                None => {},
            }
            i += 1;
        }
        proof {
            aliases.index_of_first_ensures(Some(alias));
        }
        None
    }

    /// The index of the subcommand with the given name.
    pub fn find_subcommand(&self, name: &String) -> (r: Option<usize>)
        ensures
            match r {
                Some(i) => self@.find_subcommand(name@) == Some(i as int) && i
                    < self@.subcommands.len(),
                None => self@.find_subcommand(name@) is None,
            },
    {
        let ghost names = self@.subcommand_names();
        let mut i: usize = 0;
        while i < self.subcommands.len()
            invariant
                i <= self.subcommands.len(),
                names == self@.subcommand_names(),
                forall|j: int| 0 <= j < i ==> names[j] != name@,
            decreases self.subcommands.len() - i,
        {
            if self.subcommands[i].name == *name {
                proof {
                    assert(names[i as int] == name@);
                    names.index_of_first_ensures(name@);
                }
                return Some(i);
            }
            i += 1;
        }
        proof {
            names.index_of_first_ensures(name@);
        }
        None
    }
}

/// Sorts the definitions by kind and checks that they can stand together.
///
/// The result is the set that holds every definition, each kind in the
/// order given, or the error of the first definition, in the order given,
/// that cannot be added to those before it. No set is returned beside an
/// error.
pub fn parse_definitions(defs: Vec<ArgDef>) -> (r: Result<ParseState, DefinitionError>)
    ensures
        match r {
            Ok(state) => {
                &&& compile(def_models(defs@)) == Ok::<DefinitionSet, DefinitionErrorModel>(state@)
                &&& state@.wf()
                &&& holds(state@, def_models(defs@))
            },
            Err(e) => compile(def_models(defs@)) == Err::<DefinitionSet, DefinitionErrorModel>(e@),
        },
{
    let ghost models = def_models(defs@);
    let mut state = ParseState::empty();
    let mut i: usize = 0;
    while i < defs.len()
        invariant
            i <= defs.len(),
            models == def_models(defs@),
            compile(models.take(i as int)) == Ok::<DefinitionSet, DefinitionErrorModel>(state@),
        decreases defs.len() - i,
    {
        let added = state.add(&defs[i]);
        proof {
            assert(models.take(i + 1).drop_last() =~= models.take(i as int));
            assert(models.take(i + 1).last() == defs@[i as int]@);
        }
        match added {
            Ok(_) => {},
            Err(e) => {
                proof {
                    lemma_compile_error_stays(models, i + 1);
                }
                return Err(e);
            },
        }
        i += 1;
    }
    proof {
        assert(models.take(i as int) =~= models);
        lemma_compile_wf(models);
        lemma_compile_holds(models);
    }
    Ok(state)
}

/// An error among the first `n` definitions is the error of the whole list.
pub proof fn lemma_compile_error_stays(defs: Seq<DefModel>, n: int)
    requires
        0 <= n <= defs.len(),
        compile(defs.take(n)) is Err,
    ensures
        compile(defs) == compile(defs.take(n)),
    decreases defs.len(),
{
    if n == defs.len() {
        assert(defs.take(n) =~= defs);
    } else {
        assert(defs.drop_last().take(n) =~= defs.take(n));
        lemma_compile_error_stays(defs.drop_last(), n);
    }
}

/// Where a list of definitions compiles, so does each of its beginnings.
pub proof fn lemma_compile_prefix(defs: Seq<DefModel>, n: int)
    requires
        0 <= n <= defs.len(),
        compile(defs) is Ok,
    ensures
        compile(defs.take(n)) is Ok,
{
    if compile(defs.take(n)) is Err {
        lemma_compile_error_stays(defs, n);
    }
}

/// A compiled set meets the invariant of definition sets.
pub proof fn lemma_compile_wf(defs: Seq<DefModel>)
    ensures
        match compile(defs) {
            Ok(set) => set.wf(),
            Err(_) => true,
        },
    decreases defs.len(),
{
    if defs.len() > 0 {
        lemma_compile_wf(defs.drop_last());
        match compile(defs.drop_last()) {
            Ok(set) => {
                let d = defs.last();
                if set.violation(d) is None {
                    let next = set.extend(d);
                    set.aliases().index_of_first_ensures(d.kind.short());
                    assert(next.wf()) by {
                        assert forall|i: int, j: int|
                            0 <= i < j < next.long_names().len() implies next.long_names()[i]
                            != next.long_names()[j] by {
                            if j < set.long_names().len() {
                                assert(set.long_names()[i] != set.long_names()[j]);
                            } else if d.kind.is_option() {
                                assert(set.long_names()[i] == next.long_names()[i]);
                            }
                        }
                        assert forall|i: int, j: int|
                            0 <= i < j < next.subcommand_names().len() implies 
                            next.subcommand_names()[i] != next.subcommand_names()[j] by {
                            if j < set.subcommand_names().len() {
                                assert(set.subcommand_names()[i] != set.subcommand_names()[j]);
                            } else if d.kind is Subcommand {
                                assert(set.subcommand_names()[i] == next.subcommand_names()[i]);
                            }
                        }
                        assert forall|i: int, j: int|
                            0 <= i < j < next.options.len() && next.options[i].short is Some implies (
                        #[trigger] next.options[i]).short != (#[trigger] next.options[j]).short by {
                            if j < set.options.len() {
                                assert(set.options[i].short != set.options[j].short);
                            } else if d.kind.is_option() {
                                assert(set.aliases()[i] == set.options[i].short);
                            }
                        }
                    }
                }
            },
            Err(_) => {},
        }
    }
}

/// The test for a positional definition.
pub open spec fn is_positional() -> spec_fn(DefModel) -> bool {
    |d: DefModel| d.kind is Positional
}

/// The test for a subcommand definition.
pub open spec fn is_subcommand() -> spec_fn(DefModel) -> bool {
    |d: DefModel| d.kind is Subcommand
}

/// The test for a definition that is looked up by long name or alias.
pub open spec fn is_option() -> spec_fn(DefModel) -> bool {
    |d: DefModel| d.kind.is_option()
}

/// The entry that a set holds for a definition looked up by name.
pub open spec fn option_entry() -> spec_fn(DefModel) -> OptionModel {
    |d: DefModel| OptionModel { name: d.name, short: d.kind.short(), target: target_of(d.kind) }
}

/// The entry that a set holds for a subcommand definition.
pub open spec fn subcommand_entry() -> spec_fn(DefModel) -> SubcommandModel {
    |d: DefModel|
        SubcommandModel {
            name: d.name,
            handler: match d.kind {
                KindModel::Subcommand { handler } => handler,
                _ => 0,
            },
        }
}

/// The name of a definition.
pub open spec fn def_name() -> spec_fn(DefModel) -> Seq<char> {
    |d: DefModel| d.name
}

/// Whether the set holds exactly what the definitions describe: the
/// positional names, the options and the subcommands, each in the order of
/// the definitions, and a trail where one is defined.
pub open spec fn holds(set: DefinitionSet, defs: Seq<DefModel>) -> bool {
    &&& set.positional == defs.filter(is_positional()).map_values(def_name())
    &&& set.options == defs.filter(is_option()).map_values(option_entry())
    &&& set.subcommands == defs.filter(is_subcommand()).map_values(subcommand_entry())
    &&& match set.trail {
        Some(t) => defines_trail(defs, t),
        None => forall|i: int| 0 <= i < defs.len() ==> !((#[trigger] defs[i]).kind is Trail),
    }
    &&& set.help_defined == defines_help(defs)
}

/// Whether one of the definitions is this trail.
pub open spec fn defines_trail(defs: Seq<DefModel>, t: TrailModel) -> bool {
    exists|i: int|
        0 <= i < defs.len() && (#[trigger] defs[i]).kind == (KindModel::Trail {
            optional: t.optional,
        }) && defs[i].name == t.name
}

/// Whether one of the definitions is an interrupt named `help`.
pub open spec fn defines_help(defs: Seq<DefModel>) -> bool {
    exists|i: int|
        0 <= i < defs.len() && (#[trigger] defs[i]).kind is Interrupt && defs[i].name == help_name()
}

/// Whether the definitions can stand together: no two of one namespace
/// (positional arguments; subcommands; options, switches and interrupts)
/// share a name, no two share an alias, there is at most one trail, and no
/// positional argument or trail stands beside a subcommand.
pub open spec fn compatible(defs: Seq<DefModel>) -> bool {
    &&& forall|i: int, j: int|
        0 <= i < j < defs.len() && same_namespace((#[trigger] defs[i]).kind, (#[trigger] defs[j]).kind)
            ==> defs[i].name != defs[j].name
    &&& forall|i: int, j: int|
        0 <= i < j < defs.len() && (#[trigger] defs[i]).kind.short() is Some ==> defs[i].kind.short()
            != (#[trigger] defs[j]).kind.short()
    &&& forall|i: int, j: int|
        0 <= i < j < defs.len() ==> !((#[trigger] defs[i]).kind is Trail && (#[trigger] defs[j]).kind is Trail)
    &&& forall|i: int, j: int|
        0 <= i < defs.len() && 0 <= j < defs.len() ==> !(((#[trigger] defs[i]).kind is Positional
            || defs[i].kind is Trail) && (#[trigger] defs[j]).kind is Subcommand)
}

/// Whether two kinds draw their names from the same namespace.
pub open spec fn same_namespace(a: KindModel, b: KindModel) -> bool {
    ||| a is Positional && b is Positional
    ||| a is Subcommand && b is Subcommand
    ||| a.is_option() && b.is_option()
}

/// A definition is among the filtered ones exactly if it is among the
/// definitions and passes the test.
proof fn lemma_filter_member(defs: Seq<DefModel>, pred: spec_fn(DefModel) -> bool, d: DefModel)
    ensures
        defs.filter(pred).contains(d) <==> defs.contains(d) && pred(d),
{
    if defs.filter(pred).contains(d) {
        defs.lemma_filter_contains_rev(pred, d);
        let k = choose|k: int| 0 <= k < defs.filter(pred).len() && defs.filter(pred)[k] == d;
        defs.lemma_filter_pred(pred, k);
    }
    if defs.contains(d) && pred(d) {
        let i = choose|i: int| 0 <= i < defs.len() && defs[i] == d;
        defs.lemma_filter_contains(pred, i);
    }
}

/// Each of the filtered definitions is one of the definitions: the result
/// is the index of one that equals the filtered definition at `k`.
proof fn lemma_filter_source(defs: Seq<DefModel>, pred: spec_fn(DefModel) -> bool, k: int) -> (i:
    int)
    requires
        0 <= k < defs.filter(pred).len(),
    ensures
        0 <= i < defs.len(),
        defs[i] == defs.filter(pred)[k],
        pred(defs[i]),
{
    let e = defs.filter(pred)[k];
    assert(defs.filter(pred).contains(e));
    lemma_filter_member(defs, pred, e);
    choose|i: int| 0 <= i < defs.len() && defs[i] == e
}

/// The set that a list of definitions compiles to holds exactly what the
/// definitions describe.
pub proof fn lemma_compile_holds(defs: Seq<DefModel>)
    ensures
        match compile(defs) {
            Ok(set) => holds(set, defs),
            Err(_) => true,
        },
    decreases defs.len(),
{
    if defs.len() == 0 {
        assert(defs.filter(is_positional()) =~= Seq::empty()) by {
            defs.lemma_filter_len(is_positional());
        }
        assert(defs.filter(is_option()) =~= Seq::empty()) by {
            defs.lemma_filter_len(is_option());
        }
        assert(defs.filter(is_subcommand()) =~= Seq::empty()) by {
            defs.lemma_filter_len(is_subcommand());
        }
        assert(DefinitionSet::empty().positional =~= defs.filter(is_positional()).map_values(
            def_name(),
        ));
        assert(DefinitionSet::empty().options =~= defs.filter(is_option()).map_values(
            option_entry(),
        ));
        assert(DefinitionSet::empty().subcommands =~= defs.filter(is_subcommand()).map_values(
            subcommand_entry(),
        ));
    } else {
        let prev = defs.drop_last();
        let d = defs.last();
        lemma_compile_holds(prev);
        match compile(defs) {
            Ok(set) => {
                let before = compile(prev)->Ok_0;
                assert(defs =~= prev.push(d));
                prev.lemma_filter_push(d, is_positional());
                prev.lemma_filter_push(d, is_option());
                prev.lemma_filter_push(d, is_subcommand());
                assert(set.positional =~= defs.filter(is_positional()).map_values(def_name()));
                assert(set.options =~= defs.filter(is_option()).map_values(option_entry()));
                assert(set.subcommands =~= defs.filter(is_subcommand()).map_values(
                    subcommand_entry(),
                ));
                assert forall|i: int| 0 <= i < prev.len() implies #[trigger] prev[i] == defs[i] by {}
                assert(defs[defs.len() - 1] == d);
                match before.trail {
                    Some(t) => {
                        let i = choose|i: int|
                            0 <= i < prev.len() && (#[trigger] prev[i]).kind == (KindModel::Trail {
                                optional: t.optional,
                            }) && prev[i].name == t.name;
                        assert(defs[i] == prev[i]);
                    },
                    None => {},
                }
                if defines_help(prev) {
                    let i = choose|i: int|
                        0 <= i < prev.len() && (#[trigger] prev[i]).kind is Interrupt && prev[i].name
                            == help_name();
                    assert(defs[i] == prev[i]);
                }
                if defines_help(defs) && !(d.kind is Interrupt && d.name == help_name()) {
                    let i = choose|i: int|
                        0 <= i < defs.len() && (#[trigger] defs[i]).kind is Interrupt && defs[i].name
                            == help_name();
                    assert(prev[i] == defs[i]);
                }
            },
            Err(_) => {},
        }
    }
}

/// Definitions that can stand together compile, and the set holds exactly
/// what they describe; in particular its positional slots are the
/// positional definitions' names in the order given.
pub proof fn lemma_compatible_compiles(defs: Seq<DefModel>)
    requires
        compatible(defs),
    ensures
        compile(defs) is Ok,
        holds(compile(defs)->Ok_0, defs),
        compile(defs)->Ok_0.positional == defs.filter(is_positional()).map_values(def_name()),
    decreases defs.len(),
{
    lemma_compile_holds(defs);
    if defs.len() > 0 {
        let prev = defs.drop_last();
        let d = defs.last();
        let n = defs.len() - 1;
        assert(compatible(prev)) by {
            assert forall|i: int| 0 <= i < prev.len() implies #[trigger] prev[i] == defs[i] by {}
        }
        lemma_compatible_compiles(prev);
        let set = compile(prev)->Ok_0;
        assert(d == defs[n]);
        assert forall|i: int| 0 <= i < prev.len() implies #[trigger] prev[i] == defs[i] by {}
        match set.trail {
            Some(t) => {
                let i = choose|i: int|
                    0 <= i < prev.len() && (#[trigger] prev[i]).kind == (KindModel::Trail {
                        optional: t.optional,
                    }) && prev[i].name == t.name;
                assert(defs[i].kind is Trail);
            },
            None => {},
        }
        if set.subcommands.len() > 0 {
            let i = lemma_filter_source(prev, is_subcommand(), 0);
            assert(defs[i].kind is Subcommand);
        }
        if set.positional.len() > 0 {
            let i = lemma_filter_source(prev, is_positional(), 0);
            assert(defs[i].kind is Positional);
        }
        if set.positional.contains(d.name) {
            let k = choose|k: int| 0 <= k < set.positional.len() && set.positional[k] == d.name;
            let i = lemma_filter_source(prev, is_positional(), k);
            assert(defs[i].name == d.name);
        }
        if set.subcommand_names().contains(d.name) {
            let k = choose|k: int|
                0 <= k < set.subcommand_names().len() && set.subcommand_names()[k] == d.name;
            let i = lemma_filter_source(prev, is_subcommand(), k);
            assert(defs[i].name == d.name);
        }
        if set.long_names().contains(d.name) {
            let k = choose|k: int| 0 <= k < set.long_names().len() && set.long_names()[k] == d.name;
            let i = lemma_filter_source(prev, is_option(), k);
            assert(defs[i].name == d.name);
        }
        if d.kind.short() is Some {
            set.aliases().index_of_first_ensures(d.kind.short());
            if set.find_short(d.kind.short()->0) is Some {
                let k = set.find_short(d.kind.short()->0)->0;
                assert(set.aliases()[k] == d.kind.short());
                let i = lemma_filter_source(prev, is_option(), k);
                assert(defs[i].kind.short() == d.kind.short());
            }
        }
        assert(set.violation(d) is None);
        lemma_compile_holds(defs);
    }
}

/// Two options, switches or interrupts with one long name do not compile.
/// Where the definitions before the second of them compile, the error
/// names the long name.
pub proof fn lemma_duplicate_long_name(defs: Seq<DefModel>, i: int, j: int)
    requires
        0 <= i < j < defs.len(),
        defs[i].kind.is_option(),
        defs[j].kind.is_option(),
        defs[i].name == defs[j].name,
    ensures
        compile(defs) is Err,
        compile(defs.take(j)) is Ok ==> compile(defs) == Err::<DefinitionSet, DefinitionErrorModel>(
            DefinitionErrorModel::OptionDefinedTwice(defs[j].name),
        ),
{
    let prev = defs.take(j);
    let upto = defs.take(j + 1);
    assert(upto.drop_last() =~= prev);
    assert(upto.last() == defs[j]);
    if compile(prev) is Ok {
        let set = compile(prev)->Ok_0;
        lemma_compile_holds(prev);
        lemma_option_is_held(prev, i);
        let k = choose|k: int| 0 <= k < set.options.len() && set.options[k] == option_entry()(prev[i]);
        assert(set.long_names()[k] == defs[j].name);
        assert(compile(upto) == Err::<DefinitionSet, DefinitionErrorModel>(
            DefinitionErrorModel::OptionDefinedTwice(defs[j].name),
        ));
        lemma_compile_error_stays(defs, j + 1);
    } else {
        lemma_compile_error_stays(defs, j);
    }
}

/// Two options, switches or interrupts with one alias do not compile.
/// Where the definitions before the second of them compile and none of
/// them has its long name, the error names both long names, the later
/// definition's first.
pub proof fn lemma_duplicate_alias(defs: Seq<DefModel>, i: int, j: int)
    requires
        0 <= i < j < defs.len(),
        defs[i].kind.is_option(),
        defs[j].kind.is_option(),
        defs[i].kind.short() is Some,
        defs[i].kind.short() == defs[j].kind.short(),
    ensures
        compile(defs) is Err,
        compile(defs.take(j)) is Ok && (forall|k: int|
            0 <= k < j && (#[trigger] defs[k]).kind.is_option() ==> defs[k].name != defs[j].name)
            ==> compile(defs) == Err::<DefinitionSet, DefinitionErrorModel>(
            DefinitionErrorModel::SameShortName(defs[j].name, defs[i].name),
        ),
{
    let prev = defs.take(j);
    let upto = defs.take(j + 1);
    assert(upto.drop_last() =~= prev);
    assert(upto.last() == defs[j]);
    if compile(prev) is Ok {
        let set = compile(prev)->Ok_0;
        let alias = defs[j].kind.short();
        lemma_compile_holds(prev);
        lemma_compile_wf(prev);
        lemma_option_is_held(prev, i);
        let k = choose|k: int| 0 <= k < set.options.len() && set.options[k] == option_entry()(prev[i]);
        assert(set.aliases()[k] == alias);
        set.aliases().index_of_first_ensures(alias);
        let first = set.find_short(alias->0)->0;
        assert(set.aliases()[first] == alias);
        assert(set.options[first].short == set.options[k].short);
        assert(first == k);
        assert(set.violation(defs[j]) is Some);
        lemma_compile_error_stays(defs, j + 1);
        if forall|k: int| 0 <= k < j && (#[trigger] defs[k]).kind.is_option() ==> defs[k].name != defs[j].name {
            if set.long_names().contains(defs[j].name) {
                let m = choose|m: int|
                    0 <= m < set.long_names().len() && set.long_names()[m] == defs[j].name;
                let n = lemma_filter_source(prev, is_option(), m);
                assert(defs[n] == prev[n]);
                assert(false);
            }
        }
    } else {
        lemma_compile_error_stays(defs, j);
    }
}

/// A set that holds what the definitions describe has an entry for each
/// definition that is looked up by name.
proof fn lemma_option_is_held(defs: Seq<DefModel>, i: int)
    requires
        0 <= i < defs.len(),
        defs[i].kind.is_option(),
    ensures
        exists|k: int|
            0 <= k < defs.filter(is_option()).len() && #[trigger] defs.filter(is_option()).map_values(
                option_entry(),
            )[k] == option_entry()(defs[i]),
{
    lemma_filter_member(defs, is_option(), defs[i]);
    let held = defs.filter(is_option());
    let k = choose|k: int| 0 <= k < held.len() && held[k] == defs[i];
    assert(held.map_values(option_entry())[k] == option_entry()(defs[i]));
}

} // verus!
