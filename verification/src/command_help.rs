//! The `help` command, which prints the help for every command.

use vstd::prelude::*;
use crate::commands::{kind_names, name_texts, names_of, Command, CommandKind};

verus! {

/// The `help` command.
pub struct HelpCommand {
    names: Vec<&'static str>,
}

impl HelpCommand {
    #[verifier::type_invariant]
    spec fn holds_its_names(&self) -> bool {
        name_texts(self.names@) == kind_names(CommandKind::Help)
    }

    /// The command under its names.
    pub fn new() -> (r: HelpCommand)
        ensures
            r.names() == kind_names(CommandKind::Help),
    {
        HelpCommand { names: names_of(CommandKind::Help) }
    }

    /// The names that the command holds, the primary one first.
    pub closed spec fn names(&self) -> Seq<Seq<char>> {
        name_texts(self.names@)
    }
}

impl Command for HelpCommand {
    open spec fn kind(&self) -> CommandKind {
        CommandKind::Help
    }

    fn name_and_aliases(&self) -> (r: &Vec<&'static str>) {
        proof {
            use_type_invariant(self);
        }
        &self.names
    }

    fn name(&self) -> (r: &'static str) {
        proof {
            use_type_invariant(self);
            assert(kind_names(CommandKind::Help).len() > 0);
            assert(name_texts(self.names@)[0] == self.names@[0]@);
        }
        self.names[0]
    }
}

} // verus!
