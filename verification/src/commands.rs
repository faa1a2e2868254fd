//! The commands of the management tool and the names they answer to.

use vstd::prelude::*;
use crate::help_central::{all_help_lines, first_help, help_lines, no_help_line, HelpCentral};
use crate::text::{str_eq, texts};

verus! {

/// A command of the management tool.
#[derive(Clone, Copy, PartialEq, Eq, Structural, Debug)]
pub enum CommandKind {
    Help,
    List,
    Install,
    Wrap,
    Fix,
    Drop,
}

/// The names a command answers to, the primary one first.
pub open spec fn kind_names(kind: CommandKind) -> Seq<Seq<char>> {
    match kind {
        CommandKind::Help => seq!["/help"@, "/h"@],
        CommandKind::List => seq!["/list"@, "/l"@],
        CommandKind::Install => seq!["/install"@, "/i"@],
        CommandKind::Wrap => seq!["/wrap"@, "/w"@],
        CommandKind::Fix => seq!["/fix"@],
        CommandKind::Drop => seq!["/drop"@, "/delete"@, "/rm"@, "/del"@],
    }
}

/// The text of each name.
pub open spec fn name_texts(names: Seq<&'static str>) -> Seq<Seq<char>> {
    names.map_values(|name: &'static str| name@)
}

/// The names a command answers to: see [`kind_names`].
pub fn names_of(kind: CommandKind) -> (r: Vec<&'static str>)
    ensures
        name_texts(r@) == kind_names(kind),
{
    let mut r: Vec<&'static str> = Vec::new();
    match kind {
        CommandKind::Help => {
            r.push("/help");
            r.push("/h");
        },
        CommandKind::List => {
            r.push("/list");
            r.push("/l");
        },
        CommandKind::Install => {
            r.push("/install");
            r.push("/i");
        },
        CommandKind::Wrap => {
            r.push("/wrap");
            r.push("/w");
        },
        CommandKind::Fix => {
            r.push("/fix");
        },
        CommandKind::Drop => {
            r.push("/drop");
            r.push("/delete");
            r.push("/rm");
            r.push("/del");
        },
    }
    assert(name_texts(r@) =~= kind_names(kind));
    r
}

/// No name belongs to two commands.
pub proof fn lemma_names_belong_to_one(a: CommandKind, b: CommandKind, name: Seq<char>)
    requires
        kind_names(a).contains(name),
        kind_names(b).contains(name),
    ensures
        a == b,
{
    reveal_strlit("/help");
    reveal_strlit("/h");
    reveal_strlit("/list");
    reveal_strlit("/l");
    reveal_strlit("/install");
    reveal_strlit("/i");
    reveal_strlit("/wrap");
    reveal_strlit("/w");
    reveal_strlit("/fix");
    reveal_strlit("/drop");
    reveal_strlit("/delete");
    reveal_strlit("/rm");
    reveal_strlit("/del");
    let i = choose|i: int| 0 <= i < kind_names(a).len() && kind_names(a)[i] == name;
    let j = choose|j: int| 0 <= j < kind_names(b).len() && kind_names(b)[j] == name;
    assert(kind_names(a)[i] == kind_names(b)[j]);
    if a != b {
        let x = kind_names(a)[i];
        let y = kind_names(b)[j];
        assert(x.len() == y.len());
        assert(x[1] == y[1]);
        if x.len() > 2 {
            assert(x[2] == y[2]);
            assert(x[3] == y[3]);
        }
    }
}

/// What every command has: the names it answers to, the primary one first.
pub trait Command {
    /// Which command this is.
    spec fn kind(&self) -> CommandKind;

    /// Every name of the command, the primary one first.
    fn name_and_aliases(&self) -> (r: &Vec<&'static str>)
        ensures
            name_texts(r@) == kind_names(self.kind()),
    ;

    /// The primary name of the command.
    fn name(&self) -> (r: &'static str)
        ensures
            r@ == kind_names(self.kind())[0],
    ;
}

/// The commands that were registered, with the help of the tool.
pub struct CommandCollection {
    commands: Vec<CommandKind>,
    help_central: HelpCentral,
}

impl CommandCollection {
    /// The commands in the order in which they were registered.
    pub closed spec fn registered(&self) -> Seq<CommandKind> {
        self.commands@
    }

    /// The help of the tool.
    pub closed spec fn help(&self) -> HelpCentral {
        self.help_central
    }

    /// No command yet, and the help that the tool starts with.
    pub fn new() -> (r: CommandCollection)
        ensures
            r.registered() == Seq::<CommandKind>::empty(),
            r.help().topics() == crate::help_central::initial_help(),
    {
        CommandCollection { commands: Vec::new(), help_central: HelpCentral::new() }
    }

    /// Registers a command.
    pub fn add_command(&mut self, command: CommandKind)
        ensures
            final(self).registered() == old(self).registered().push(command),
            final(self).help() == old(self).help(),
    {
        self.commands.push(command);
    }

    /// The registered command that answers to a name, primary or alias.
    pub fn get_command(&self, name: &str) -> (r: Option<CommandKind>)
        ensures
            match r {
                Some(kind) => self.registered().contains(kind) && kind_names(kind).contains(name@),
                None => forall|kind: CommandKind|
                    self.registered().contains(kind) ==> !(#[trigger] kind_names(kind)).contains(
                        name@,
                    ),
            },
    {
        let mut i: usize = 0;
        while i < self.commands.len()
            invariant
                i <= self.commands.len(),
                forall|j: int|
                    0 <= j < i ==> !(#[trigger] kind_names(self.commands@[j])).contains(name@),
            decreases self.commands.len() - i,
        {
            let kind = self.commands[i];
            let names = names_of(kind);
            let mut k: usize = 0;
            while k < names.len()
                invariant
                    k <= names.len(),
                    i < self.commands.len(),
                    self.commands@[i as int] == kind,
                    name_texts(names@) == kind_names(kind),
                    forall|m: int| 0 <= m < k ==> kind_names(kind)[m] != name@,
                decreases names.len() - k,
            {
                assert(name_texts(names@)[k as int] == names@[k as int]@);
                if str_eq(names[k], name) {
                    assert(kind_names(kind)[k as int] == name@);
                    return Some(kind);
                }
                k = k + 1;
            }
            i = i + 1;
        }
        assert forall|kind: CommandKind| self.registered().contains(kind) implies !(
        #[trigger] kind_names(kind)).contains(name@) by {
            let j = choose|j: int| 0 <= j < self.commands@.len() && self.commands@[j] == kind;
            assert(!kind_names(self.commands@[j]).contains(name@));
        }
        None
    }

    /// What to print as the help for every command.
    pub fn print_all_help(&self) -> (r: Vec<String>)
        ensures
            texts(r@) == all_help_lines(self.help().topics()),
    {
        self.help_central.print_all_help()
    }

    /// What to print as the help for one command.
    pub fn print_help_for(&self, command: &str) -> (r: Vec<String>)
        ensures
            texts(r@) == match first_help(self.help().topics(), command@) {
                Some(i) => help_lines(self.help().topics()[i]),
                None => seq![no_help_line(command@)],
            },
    {
        self.help_central.print_help_for(command)
    }
}

/// The commands that the tool answers to: help, list, install, wrap and
/// fix, registered in this order.
pub fn setup_commands() -> (r: CommandCollection)
    ensures
        r.registered() == seq![
            CommandKind::Help,
            CommandKind::List,
            CommandKind::Install,
            CommandKind::Wrap,
            CommandKind::Fix,
        ],
        r.help().topics() == crate::help_central::initial_help(),
{
    let mut commands = CommandCollection::new();
    commands.add_command(CommandKind::Help);
    commands.add_command(CommandKind::List);
    commands.add_command(CommandKind::Install);
    commands.add_command(CommandKind::Wrap);
    commands.add_command(CommandKind::Fix);
    assert(commands.registered() =~= seq![
        CommandKind::Help,
        CommandKind::List,
        CommandKind::Install,
        CommandKind::Wrap,
        CommandKind::Fix,
    ]);
    commands
}

/// What the tool does with its command line: the command that the first
/// word names, or the reason why there is none.
#[derive(Clone, Copy, PartialEq, Eq, Structural, Debug)]
pub enum Dispatch {
    /// The first word names this command; the words after it are its
    /// arguments.
    Run(CommandKind),
    /// The first word names no command.
    UnknownCommand,
    /// There is no first word.
    NoCommand,
}

/// Chooses the command for a command line. The first word is consumed
/// where there is one.
pub fn dispatch(commands: &CommandCollection, args: &mut crate::args_buffer::ArgumentsBuffer) -> (r:
    Dispatch)
    ensures
        old(args)@.len() == 0 ==> r == Dispatch::NoCommand && final(args)@ == old(args)@,
        old(args)@.len() > 0 ==> final(args)@ == old(args)@.skip(1),
        old(args)@.len() > 0 ==> match r {
            Dispatch::Run(kind) => commands.registered().contains(kind) && kind_names(
                kind,
            ).contains(old(args)@[0]),
            Dispatch::UnknownCommand => forall|kind: CommandKind|
                commands.registered().contains(kind) ==> !(#[trigger] kind_names(kind)).contains(
                    old(args)@[0],
                ),
            Dispatch::NoCommand => false,
        },
{
    let found = match args.peek() {
        Some(name) => commands.get_command(name),
        None => {
            return Dispatch::NoCommand;
        },
    };
    args.skip(1);
    match found {
        Some(kind) => Dispatch::Run(kind),
        None => Dispatch::UnknownCommand,
    }
}

} // verus!
