//! The `install` command: copying the tools into the configuration
//! directory.

use vstd::prelude::*;
use crate::args_buffer::ArgumentsBuffer;
use crate::commands::{kind_names, name_texts, names_of, Command, CommandKind};
use crate::text::str_eq;
use crate::wexe_repository::{stale, target_missing_or_older, FileStamp};

verus! {

/// The long form of the option that asks for the launcher too.
pub const WITH_LAUNCHER: &'static str = "-wexe";

/// The short form of the option that asks for the launcher too.
pub const WITH_LAUNCHER_SHORT: &'static str = "-w";

/// The `install` command.
pub struct InstallCommand {
    names: Vec<&'static str>,
}

impl InstallCommand {
    #[verifier::type_invariant]
    spec fn holds_its_names(&self) -> bool {
        name_texts(self.names@) == kind_names(CommandKind::Install)
    }

    /// The command under its names.
    pub fn new() -> (r: InstallCommand)
        ensures
            r.names() == kind_names(CommandKind::Install),
    {
        InstallCommand { names: names_of(CommandKind::Install) }
    }

    /// The names that the command holds, the primary one first.
    pub closed spec fn names(&self) -> Seq<Seq<char>> {
        name_texts(self.names@)
    }
}

impl Command for InstallCommand {
    open spec fn kind(&self) -> CommandKind {
        CommandKind::Install
    }

    fn name_and_aliases(&self) -> (r: &Vec<&'static str>) {
        proof {
            use_type_invariant(self);
        }
        &self.names
    }

    fn name(&self) -> (r: &'static str) {
        proof {
            use_type_invariant(self);
            assert(kind_names(CommandKind::Install).len() > 0);
            assert(name_texts(self.names@)[0] == self.names@[0]@);
        }
        self.names[0]
    }
}

/// The options of the `install` command.
pub struct InstallCommandOptions {
    /// Whether the launcher is installed along with the management tool.
    pub include_wexe: bool,
}

/// Why the arguments of `install` are refused. The argument in question is
/// the next one in the buffer.
#[derive(Clone, Copy, PartialEq, Eq, Structural, Debug)]
pub enum InstallArgError {
    /// The argument is no known option.
    UnrecognizedOption,
}

/// Whether an argument is the option that asks for the launcher.
pub open spec fn asks_for_launcher(arg: Seq<char>) -> bool {
    arg == WITH_LAUNCHER@ || arg == WITH_LAUNCHER_SHORT@
}

/// The number of leading arguments that ask for the launcher.
pub open spec fn install_args_accepted(args: Seq<Seq<char>>) -> int
    decreases args.len(),
{
    if args.len() > 0 && asks_for_launcher(args[0]) {
        1 + install_args_accepted(args.skip(1))
    } else {
        0
    }
}

impl InstallCommandOptions {
    /// The management tool alone.
    pub fn new() -> (r: InstallCommandOptions)
        ensures
            !r.include_wexe,
    {
        InstallCommandOptions { include_wexe: false }
    }

    /// Reads the arguments of the command from the buffer. Reading stops at
    /// the first argument that is no option of the command, which stays in
    /// the buffer with all that follow it.
    pub fn parse_args(&mut self, args: &mut ArgumentsBuffer) -> (r: Result<(), InstallArgError>)
        ensures
            ({
                let accepted = install_args_accepted(old(args)@);
                &&& 0 <= accepted <= old(args)@.len()
                &&& final(args)@ == old(args)@.skip(accepted)
                &&& final(self).include_wexe == (old(self).include_wexe || accepted > 0)
                &&& r is Ok <==> accepted == old(args)@.len()
            }),
    {
        let ghost all = args@;
        let ghost mut done: int = 0;
        assert(all.skip(0) =~= all);
        loop
            invariant
                0 <= done <= all.len(),
                all == old(args)@,
                args@ == all.skip(done),
                install_args_accepted(all) == done + install_args_accepted(args@),
                self.include_wexe == (old(self).include_wexe || done > 0),
            decreases all.len() - done,
        {
            let arg = match args.peek() {
                Some(arg) => arg,
                None => {
                    return Ok(());
                },
            };
            if str_eq(arg, WITH_LAUNCHER) || str_eq(arg, WITH_LAUNCHER_SHORT) {
                self.include_wexe = true;
            } else {
                return Err(InstallArgError::UnrecognizedOption);
            }
            args.skip(1);
            proof {
                assert(all.skip(done).skip(1) =~= all.skip(done + 1));
                done = done + 1;
            }
        }
    }
}

/// What the file system says at the moment of an installation.
#[derive(Clone, Copy)]
pub struct InstallProbe {
    /// Whether the running tool stands in the configuration directory
    /// itself.
    pub same_folder: bool,
    /// When the running tool was modified.
    pub running_tool: Option<FileStamp>,
    /// When the installed tool was modified, if there is one.
    pub installed_tool: Option<FileStamp>,
    /// When the launcher beside the running tool was modified, if there is
    /// one.
    pub launcher_beside: Option<FileStamp>,
    /// When the installed launcher was modified, if there is one.
    pub installed_launcher: Option<FileStamp>,
}

/// What is done about one of the two files.
#[derive(Clone, Copy, PartialEq, Eq, Structural, Debug)]
pub enum InstallStep {
    /// The file is copied into the configuration directory.
    Copy,
    /// The installed file is as new as its source: it is said to be up to
    /// date.
    UpToDate,
    /// The installed launcher is missing or old and was not asked for: it
    /// is said how to ask for it.
    Hint,
    /// Nothing is done and nothing said.
    Silent,
}

/// What an installation does.
#[derive(Clone, Copy, PartialEq, Eq, Structural, Debug)]
pub struct InstallPlan {
    /// What is done about the management tool: a copy, or nothing.
    pub tool: InstallStep,
    /// What is done about the launcher.
    pub launcher: InstallStep,
}

/// Why nothing is installed.
#[derive(Clone, Copy, PartialEq, Eq, Structural, Debug)]
pub enum InstallError {
    /// The running tool is the installed one: there is nothing to copy from.
    SameFolder,
}

/// What an installation does. The tool is copied where the installed one
/// is missing or older. The launcher, where it was asked for, is copied
/// from beside the running tool under the same rule; where it was not
/// asked for, a hint is given if the installed launcher is missing or
/// older than the running tool.
pub open spec fn install_plan(include_launcher: bool, probe: InstallProbe) -> Result<
    InstallPlan,
    InstallError,
> {
    if probe.same_folder {
        Err(InstallError::SameFolder)
    } else {
        Ok(
            InstallPlan {
                tool: if stale(probe.running_tool, probe.installed_tool) {
                    InstallStep::Copy
                } else {
                    InstallStep::UpToDate
                },
                launcher: if include_launcher {
                    if stale(probe.launcher_beside, probe.installed_launcher) {
                        InstallStep::Copy
                    } else {
                        InstallStep::UpToDate
                    }
                } else if stale(probe.running_tool, probe.installed_launcher) {
                    InstallStep::Hint
                } else {
                    InstallStep::Silent
                },
            },
        )
    }
}

/// Plans an installation: see [`install_plan`].
pub fn plan_install(options: &InstallCommandOptions, probe: &InstallProbe) -> (r: Result<
    InstallPlan,
    InstallError,
>)
    ensures
        r == install_plan(options.include_wexe, *probe),
{
    if probe.same_folder {
        return Err(InstallError::SameFolder);
    }
    let tool = if target_missing_or_older(probe.running_tool, probe.installed_tool) {
        InstallStep::Copy
    } else {
        InstallStep::UpToDate
    };
    let launcher = if options.include_wexe {
        if target_missing_or_older(probe.launcher_beside, probe.installed_launcher) {
            InstallStep::Copy
        } else {
            InstallStep::UpToDate
        }
    } else if target_missing_or_older(probe.running_tool, probe.installed_launcher) {
        InstallStep::Hint
    } else {
        InstallStep::Silent
    };
    Ok(InstallPlan { tool, launcher })
}

} // verus!
