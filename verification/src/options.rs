use vstd::prelude::*;

use crate::text::str_eq;

verus! {

/// The value a user gave a slash-command option.
pub enum OptionValue {
    Text(String),
    User(u64),
    Other,
}

/// A resolved option of a slash command: its name and value.
pub struct CommandOption {
    pub name: String,
    pub value: OptionValue,
}

/// The kinds of command options the bot declares.
#[derive(Clone, Copy, Debug, PartialEq, Eq, Structural)]
pub enum OptionKind {
    Text,
    User,
}

/// A declared option of a slash command.
pub struct OptionSpec {
    pub kind: OptionKind,
    pub name: String,
    pub description: String,
    pub required: bool,
    /// The offered choices, each a shown name and the value it sends.
    pub choices: Vec<(String, String)>,
}

/// A slash command as the bot registers it.
pub struct CommandSpec {
    pub name: String,
    pub description: String,
    pub options: Vec<OptionSpec>,
}

pub struct OptionSpecView {
    pub kind: OptionKind,
    pub name: Seq<char>,
    pub description: Seq<char>,
    pub required: bool,
    pub choices: Seq<(Seq<char>, Seq<char>)>,
}

pub struct CommandSpecView {
    pub name: Seq<char>,
    pub description: Seq<char>,
    pub options: Seq<OptionSpecView>,
}

/// The choices of an option, by their texts.
pub open spec fn choices_view(cs: Seq<(String, String)>) -> Seq<(Seq<char>, Seq<char>)> {
    cs.map_values(|c: (String, String)| (c.0@, c.1@))
}

impl View for OptionSpec {
    type V = OptionSpecView;

    open spec fn view(&self) -> OptionSpecView {
        OptionSpecView {
            kind: self.kind,
            name: self.name@,
            description: self.description@,
            required: self.required,
            choices: choices_view(self.choices@),
        }
    }
}

impl View for CommandSpec {
    type V = CommandSpecView;

    open spec fn view(&self) -> CommandSpecView {
        CommandSpecView {
            name: self.name@,
            description: self.description@,
            options: self.options@.map_values(|o: OptionSpec| o@),
        }
    }
}

/// A choice whose shown name is also the value it sends.
pub fn same_choice(s: &str) -> (r: (String, String))
    ensures
        r.0@ == s@,
        r.1@ == s@,
{
    (String::from_str(s), String::from_str(s))
}

/// Whether `i` is the position of the first option called `name`.
pub open spec fn is_first_named(opts: Seq<CommandOption>, name: Seq<char>, i: int) -> bool {
    &&& 0 <= i < opts.len()
    &&& opts[i].name@ == name
    &&& forall|j: int| 0 <= j < i ==> opts[j].name@ != name
}

/// Whether no option is called `name`.
pub open spec fn none_named(opts: Seq<CommandOption>, name: Seq<char>) -> bool {
    forall|j: int| 0 <= j < opts.len() ==> opts[j].name@ != name
}

/// The position of the first option called `name`, if any.
pub fn find_option(opts: &Vec<CommandOption>, name: &str) -> (r: Option<usize>)
    ensures
        match r {
            Some(i) => is_first_named(opts@, name@, i as int),
            None => none_named(opts@, name@),
        },
{
    let mut i: usize = 0;
    while i < opts.len()
        invariant
            i <= opts.len(),
            forall|j: int| 0 <= j < i ==> opts@[j].name@ != name@,
        decreases opts.len() - i,
    {
        if str_eq(opts[i].name.as_str(), name) {
            return Some(i);
        }
        i = i + 1;
    }
    None
}

} // verus!
