//! The help texts of the management tool, by command.

use vstd::prelude::*;
use vstd::string::*;
use crate::text::{str_eq, texts};

verus! {

/// What switches the colour of the program's name on.
pub const NAME_COLOUR: &'static str = "\u{1b}[33m";

/// What switches every colour and style off.
pub const RESET: &'static str = "\u{1b}[0m";

/// The program's name as it stands before a synopsis.
pub const PROGRAM: &'static str = "wexecfg ";

/// What stands before every line but the first.
pub const INDENT: &'static str = "    ";

/// The start of the line for a command that has no help.
pub const NO_HELP: &'static str = "\u{1b}[33mNo help available for command\u{1b}[0m '\u{1b}[93m";

/// The end of the line for a command that has no help.
pub const NO_HELP_END: &'static str = "\u{1b}[0m'.";

pub const HELP_COMMAND: &'static str = "/help";

pub const HELP_SYNOPSIS: &'static str = "\u{1b}[93m/help\u{1b}[0m";

pub const HELP_DESCRIPTION: &'static str =
    "Show help for all commands";

pub const LIST_COMMAND: &'static str = "/list";

pub const LIST_SYNOPSIS: &'static str = "\u{1b}[93m/list\u{1b}[0m [\u{1b}[92m-m \u{1b}[96m\u{1b}[3mfilter\u{1b}[0m]";

pub const LIST_DESCRIPTION: &'static str =
    "List all configured applications";

pub const LIST_OPTION_1: &'static str =
    "\u{1b}[92m-m \u{1b}[96m\u{1b}[3mfilter\u{1b}[0m       If given, only list applications with the \u{1b}[96m\u{1b}[3mfilter\u{1b}[0m string in their name.";

pub const WRAP_COMMAND: &'static str = "/wrap";

pub const WRAP_SYNOPSIS: &'static str = "\u{1b}[93m/wrap \u{1b}[92m-x \u{1b}[96m\u{1b}[3mtarget.exe\u{1b}[0m [\u{1b}[92m-n \u{1b}[96m\u{1b}[3mname\u{1b}[0m] {\u{1b}[92m-a \u{1b}[96m\u{1b}[3margument\u{1b}[0m} {\u{1b}[92m-p \u{1b}[96m\u{1b}[3mpath\u{1b}[0m} [\u{1b}[92m-F\u{1b}[0m]";

pub const WRAP_DESCRIPTION: &'static str =
    "Create a new application for the target executable. Creates a configuration file and a stub executable.\n    \u{1b}[37m\u{2022} \u{1b}[3mIf the application configuration already exists, a candidate configuration file (\u{1b}[33mapp.toml.tmp\u{1b}[37m)\n      is created instead, unless \u{1b}[92m-F\u{1b}[37m is specified\u{1b}[0m.\n    \u{1b}[37m\u{2022} \u{1b}[3mIf the stub executable already exists, it is not replaced.\u{1b}[0m.";

pub const WRAP_OPTION_1: &'static str =
    "\u{1b}[92m-x \u{1b}[96m\u{1b}[3mtarget.exe\u{1b}[0m   The path to the target executable. Also implies the name of the application, unless \u{1b}[92m-n\u{1b}[0m is given.";

pub const WRAP_OPTION_2: &'static str =
    "\u{1b}[92m-n \u{1b}[96m\u{1b}[3mname\u{1b}[0m         If given, overrides the name of the application.";

pub const WRAP_OPTION_3: &'static str =
    "\u{1b}[92m-a \u{1b}[96m\u{1b}[3margument\u{1b}[0m     (\u{1b}[3mrepeatable\u{1b}[0m) Extra command-line argument to prepend.";

pub const WRAP_OPTION_4: &'static str =
    "\u{1b}[92m-p \u{1b}[96m\u{1b}[3mpath\u{1b}[0m         (\u{1b}[3mrepeatable\u{1b}[0m) Extra path to prepend to PATH.";

pub const WRAP_OPTION_5: &'static str =
    "\u{1b}[92m-F\u{1b}[0m              ('\u{1b}[3mForce\u{1b}[0m') If the configuration file already exists, overwrite it instead of creating a candidate.";

pub const FIX_COMMAND: &'static str = "/fix";

pub const FIX_SYNOPSIS: &'static str = "\u{1b}[93m/fix\u{1b}[37m [\u{1b}[92m-all\u{1b}[37m|\u{1b}[96m\u{1b}[3mapp-name\u{1b}[0m]";

pub const FIX_DESCRIPTION: &'static str =
    "Recreate the application stub for the specified application or all applications.";

pub const FIX_OPTION_1: &'static str =
    "\u{1b}[92m-all\u{1b}[37m            Update all application stubs.";

pub const FIX_OPTION_2: &'static str =
    "\u{1b}[96m\u{1b}[3mapp-name\u{1b}[0m        Update \u{1b}[96m\u{1b}[3mapp-name\u{1b}[0m only.";

pub const INSTALL_COMMAND: &'static str = "/install";

pub const INSTALL_SYNOPSIS: &'static str = "\u{1b}[93m/install\u{1b}[0m [\u{1b}[92m-wexe\u{1b}[0m]";

pub const INSTALL_DESCRIPTION: &'static str =
    "Install the currently running \u{1b}[33mwexecfg\u{1b}[0m executable (and optionally the associated \u{1b}[33mwexe\u{1b}[0m\n    executable) into the wexe install folder.\n    \u{1b}[37m\u{2022} \u{1b}[3mFails if invoked on the installed \u{1b}[33mwexecfg\u{1b}[37m executable. Use the debug or release build output instead\u{1b}[0m.\n    \u{1b}[37m\u{2022} \u{1b}[3mDoes not replace stub executables (copies of \u{1b}[33mwexe\u{1b}[37m); use \u{1b}[33mwexecfg \u{1b}[93m/fix\u{1b}[37m for that\u{1b}[0m.";

pub const INSTALL_OPTION_1: &'static str =
    "\u{1b}[92m-wexe\u{1b}[0m           If given, also copies \u{1b}[33mwexe.exe\u{1b}[0m to the installation folder.";

/// The help for one command.
pub struct CommandHelp {
    pub command: String,
    pub synopsis: String,
    pub description: String,
    pub options: Vec<String>,
}

pub struct CommandHelpView {
    pub command: Seq<char>,
    pub synopsis: Seq<char>,
    pub description: Seq<char>,
    pub options: Seq<Seq<char>>,
}

impl View for CommandHelp {
    type V = CommandHelpView;

    open spec fn view(&self) -> CommandHelpView {
        CommandHelpView {
            command: self.command@,
            synopsis: self.synopsis@,
            description: self.description@,
            options: texts(self.options@),
        }
    }
}

/// One line of help below the synopsis.
pub open spec fn indented(text: Seq<char>) -> Seq<char> {
    INDENT@ + text + RESET@
}

/// The lines of the help for one command: the synopsis behind the program's
/// name, the description, and one line for each option.
pub open spec fn help_lines(help: CommandHelpView) -> Seq<Seq<char>> {
    seq![NAME_COLOUR@ + PROGRAM@ + help.synopsis + RESET@, indented(help.description)]
        + help.options.map_values(|option: Seq<char>| indented(option))
}

/// The lines of the help for every command, in order.
pub open spec fn all_help_lines(topics: Seq<CommandHelpView>) -> Seq<Seq<char>>
    decreases topics.len(),
{
    if topics.len() == 0 {
        Seq::empty()
    } else {
        all_help_lines(topics.drop_last()) + help_lines(topics.last())
    }
}

/// The help that the tool starts with.
pub open spec fn initial_help() -> Seq<CommandHelpView> {
    seq![
        CommandHelpView {
            command: HELP_COMMAND@,
            synopsis: HELP_SYNOPSIS@,
            description: HELP_DESCRIPTION@,
            options: seq![],
        },
        CommandHelpView {
            command: LIST_COMMAND@,
            synopsis: LIST_SYNOPSIS@,
            description: LIST_DESCRIPTION@,
            options: seq![LIST_OPTION_1@],
        },
        CommandHelpView {
            command: WRAP_COMMAND@,
            synopsis: WRAP_SYNOPSIS@,
            description: WRAP_DESCRIPTION@,
            options: seq![WRAP_OPTION_1@, WRAP_OPTION_2@, WRAP_OPTION_3@, WRAP_OPTION_4@, WRAP_OPTION_5@],
        },
        CommandHelpView {
            command: FIX_COMMAND@,
            synopsis: FIX_SYNOPSIS@,
            description: FIX_DESCRIPTION@,
            options: seq![FIX_OPTION_1@, FIX_OPTION_2@],
        },
        CommandHelpView {
            command: INSTALL_COMMAND@,
            synopsis: INSTALL_SYNOPSIS@,
            description: INSTALL_DESCRIPTION@,
            options: seq![INSTALL_OPTION_1@],
        },
    ]
}

/// The position of the first help for a command, if there is one.
pub open spec fn first_help(topics: Seq<CommandHelpView>, command: Seq<char>) -> Option<int> {
    if exists|i: int| 0 <= i < topics.len() && (#[trigger] topics[i]).command == command {
        let i = choose|i: int|
            0 <= i < topics.len() && (#[trigger] topics[i]).command == command && forall|j: int|
                0 <= j < i ==> (#[trigger] topics[j]).command != command;
        Some(i)
    } else {
        None
    }
}

/// The line that says that a command has no help.
pub open spec fn no_help_line(command: Seq<char>) -> Seq<char> {
    NO_HELP@ + command + NO_HELP_END@
}

fn indented_line(text: &str) -> (r: String)
    ensures
        r@ == indented(text@),
{
    let mut line = INDENT.to_owned();
    line.append(text);
    line.append(RESET);
    line
}

impl CommandHelp {
    /// What to print as this help, line by line: see [`help_lines`].
    pub fn print(&self) -> (r: Vec<String>)
        ensures
            texts(r@) == help_lines(self@),
    {
        let mut first = NAME_COLOUR.to_owned();
        first.append(PROGRAM);
        first.append(self.synopsis.as_str());
        first.append(RESET);
        let mut r: Vec<String> = Vec::new();
        r.push(first);
        r.push(indented_line(self.description.as_str()));
        let ghost head = texts(r@);
        let ghost tail = texts(self.options@).map_values(|option: Seq<char>| indented(option));
        assert(head =~= seq![
            NAME_COLOUR@ + PROGRAM@ + self.synopsis@ + RESET@,
            indented(self.description@),
        ]);
        let mut i: usize = 0;
        assert(texts(r@) =~= head + tail.take(0));
        while i < self.options.len()
            invariant
                i <= self.options.len(),
                tail == texts(self.options@).map_values(|option: Seq<char>| indented(option)),
                texts(r@) == head + tail.take(i as int),
            decreases self.options.len() - i,
        {
            let ghost before = r@;
            let line = indented_line(self.options[i].as_str());
            r.push(line);
            proof {
                assert(r@ == before.push(line));
                assert(tail[i as int] == line@);
                assert(texts(r@) =~= texts(before).push(line@));
                assert(tail.take(i + 1) =~= tail.take(i as int).push(line@));
                assert(texts(r@) =~= head + tail.take(i + 1));
            }
            i = i + 1;
        }
        assert(tail.take(self.options.len() as int) =~= tail);
        r
    }
}

/// The help of the tool, by command.
pub struct HelpCentral {
    commands: Vec<CommandHelp>,
}

fn init_help() -> (help: Vec<CommandHelp>)
    ensures
        help@.map_values(|h: CommandHelp| h@) == initial_help(),
{
    let mut help: Vec<CommandHelp> = Vec::new();
    let mut options: Vec<String> = Vec::new();
    assert(texts(options@) =~= seq![]);
    help.push(
        CommandHelp {
            command: HELP_COMMAND.to_owned(),
            synopsis: HELP_SYNOPSIS.to_owned(),
            description: HELP_DESCRIPTION.to_owned(),
            options,
        },
    );
    let mut options: Vec<String> = Vec::new();
    options.push(LIST_OPTION_1.to_owned());
    assert(texts(options@) =~= seq![LIST_OPTION_1@]);
    help.push(
        CommandHelp {
            command: LIST_COMMAND.to_owned(),
            synopsis: LIST_SYNOPSIS.to_owned(),
            description: LIST_DESCRIPTION.to_owned(),
            options,
        },
    );
    let mut options: Vec<String> = Vec::new();
    options.push(WRAP_OPTION_1.to_owned());
    options.push(WRAP_OPTION_2.to_owned());
    options.push(WRAP_OPTION_3.to_owned());
    options.push(WRAP_OPTION_4.to_owned());
    options.push(WRAP_OPTION_5.to_owned());
    assert(texts(options@) =~= seq![WRAP_OPTION_1@, WRAP_OPTION_2@, WRAP_OPTION_3@, WRAP_OPTION_4@, WRAP_OPTION_5@]);
    help.push(
        CommandHelp {
            command: WRAP_COMMAND.to_owned(),
            synopsis: WRAP_SYNOPSIS.to_owned(),
            description: WRAP_DESCRIPTION.to_owned(),
            options,
        },
    );
    let mut options: Vec<String> = Vec::new();
    options.push(FIX_OPTION_1.to_owned());
    options.push(FIX_OPTION_2.to_owned());
    assert(texts(options@) =~= seq![FIX_OPTION_1@, FIX_OPTION_2@]);
    help.push(
        CommandHelp {
            command: FIX_COMMAND.to_owned(),
            synopsis: FIX_SYNOPSIS.to_owned(),
            description: FIX_DESCRIPTION.to_owned(),
            options,
        },
    );
    let mut options: Vec<String> = Vec::new();
    options.push(INSTALL_OPTION_1.to_owned());
    assert(texts(options@) =~= seq![INSTALL_OPTION_1@]);
    help.push(
        CommandHelp {
            command: INSTALL_COMMAND.to_owned(),
            synopsis: INSTALL_SYNOPSIS.to_owned(),
            description: INSTALL_DESCRIPTION.to_owned(),
            options,
        },
    );
    assert(help@.map_values(|h: CommandHelp| h@) =~= initial_help());
    help
}

impl HelpCentral {
    /// The help held, in the order in which it was added.
    pub closed spec fn topics(&self) -> Seq<CommandHelpView> {
        self.commands@.map_values(|h: CommandHelp| h@)
    }

    /// The help that the tool starts with: see [`initial_help`].
    pub fn new() -> (r: HelpCentral)
        ensures
            r.topics() == initial_help(),
    {
        HelpCentral { commands: init_help() }
    }

    /// Adds the help for one more command, behind what is there.
    pub fn add_help(&mut self, command: CommandHelp)
        ensures
            final(self).topics() == old(self).topics().push(command@),
    {
        self.commands.push(command);
        assert(self.topics() =~= old(self).topics().push(command@));
    }

    /// The first help that was added for the command, if any was.
    pub fn get_help(&self, command: &str) -> (r: Option<&CommandHelp>)
        ensures
            match r {
                Some(help) => first_help(self.topics(), command@) matches Some(i) && 0 <= i
                    < self.topics().len() && self.topics()[i] == help@,
                None => first_help(self.topics(), command@) is None,
            },
    {
        let mut i: usize = 0;
        while i < self.commands.len()
            invariant
                i <= self.commands.len(),
                forall|j: int| 0 <= j < i ==> (#[trigger] self.topics()[j]).command != command@,
            decreases self.commands.len() - i,
        {
            assert(self.topics()[i as int] == self.commands@[i as int]@);
            if str_eq(self.commands[i].command.as_str(), command) {
                proof {
                    let topics = self.topics();
                    let found = choose|k: int|
                        0 <= k < topics.len() && (#[trigger] topics[k]).command == command@
                            && forall|j: int|
                            0 <= j < k ==> (#[trigger] topics[j]).command != command@;
                    if found < i {
                        assert(topics[found].command != command@);
                    } else if i < found {
                        assert(topics[i as int].command != command@);
                    }
                }
                return Some(&self.commands[i]);
            }
            i = i + 1;
        }
        None
    }

    /// What to print as the help for one command: its lines, or one line
    /// that says that there is none.
    pub fn print_help_for(&self, command: &str) -> (r: Vec<String>)
        ensures
            texts(r@) == match first_help(self.topics(), command@) {
                Some(i) => help_lines(self.topics()[i]),
                None => seq![no_help_line(command@)],
            },
    {
        match self.get_help(command) {
            Some(help) => help.print(),
            None => {
                let mut line = NO_HELP.to_owned();
                line.append(command);
                line.append(NO_HELP_END);
                let mut r: Vec<String> = Vec::new();
                r.push(line);
                assert(texts(r@) =~= seq![no_help_line(command@)]);
                r
            },
        }
    }

    /// What to print as the help for every command: the lines of each, in
    /// the order in which the help was added.
    pub fn print_all_help(&self) -> (r: Vec<String>)
        ensures
            texts(r@) == all_help_lines(self.topics()),
    {
        let mut r: Vec<String> = Vec::new();
        let mut i: usize = 0;
        assert(self.topics().take(0) =~= Seq::empty());
        assert(texts(r@) =~= Seq::empty());
        while i < self.commands.len()
            invariant
                i <= self.commands.len(),
                texts(r@) == all_help_lines(self.topics().take(i as int)),
            decreases self.commands.len() - i,
        {
            let lines = self.commands[i].print();
            proof {
                let next = self.topics().take(i + 1);
                assert(next.drop_last() =~= self.topics().take(i as int));
                assert(next.last() == self.commands@[i as int]@);
            }
            let mut k: usize = 0;
            let ghost start = texts(r@);
            assert(texts(r@) =~= start + texts(lines@).take(0));
            while k < lines.len()
                invariant
                    k <= lines.len(),
                    texts(r@) == start + texts(lines@).take(k as int),
                decreases lines.len() - k,
            {
                let ghost before = r@;
                let line = lines[k].clone();
                r.push(line);
                proof {
                    assert(r@ == before.push(line));
                    assert(texts(r@) =~= texts(before).push(line@));
                    assert(texts(lines@).take(k + 1) =~= texts(lines@).take(k as int).push(
                        lines@[k as int]@,
                    ));
                    assert(texts(r@) =~= start + texts(lines@).take(k + 1));
                }
                k = k + 1;
            }
            assert(texts(lines@).take(lines.len() as int) =~= texts(lines@));
            i = i + 1;
        }
        assert(self.topics().take(self.commands.len() as int) =~= self.topics());
        r
    }
}

} // verus!
