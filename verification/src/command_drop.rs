//! The `drop` command: taking a registration away.

use vstd::prelude::*;
use vstd::string::*;
use crate::args_buffer::ArgumentsBuffer;
use crate::commands::{kind_names, name_texts, names_of, Command, CommandKind};
use crate::paths::{joined_path, BACKUP_SUFFIX};
use crate::tag::{is_app_tag, is_reserved, is_reserved_tag, is_valid_app_tag};
use crate::text::texts;
use crate::wexe_repository::{config_name, stub_name, WexeRepository};

verus! {

/// The `drop` command.
pub struct DropCommand {
    names: Vec<&'static str>,
}

impl DropCommand {
    #[verifier::type_invariant]
    spec fn holds_its_names(&self) -> bool {
        name_texts(self.names@) == kind_names(CommandKind::Drop)
    }

    /// The command under its names.
    pub fn new() -> (r: DropCommand)
        ensures
            r.names() == kind_names(CommandKind::Drop),
    {
        DropCommand { names: names_of(CommandKind::Drop) }
    }

    /// The names that the command holds, the primary one first.
    pub closed spec fn names(&self) -> Seq<Seq<char>> {
        name_texts(self.names@)
    }
}

impl Command for DropCommand {
    open spec fn kind(&self) -> CommandKind {
        CommandKind::Drop
    }

    fn name_and_aliases(&self) -> (r: &Vec<&'static str>) {
        proof {
            use_type_invariant(self);
        }
        &self.names
    }

    fn name(&self) -> (r: &'static str) {
        proof {
            use_type_invariant(self);
            assert(kind_names(CommandKind::Drop).len() > 0);
            assert(name_texts(self.names@)[0] == self.names@[0]@);
        }
        self.names[0]
    }
}

/// The options of the `drop` command.
pub struct DropCommandOptions {
    /// The tags to drop, in the order given.
    pub targets: Vec<String>,
}

/// Why the arguments of `drop` are refused.
#[derive(Clone, Copy, PartialEq, Eq, Structural, Debug)]
pub enum DropArgError {
    /// The next argument in the buffer is no tag.
    NotATag,
    /// There is no argument at all.
    NoTargets,
}

/// The number of leading arguments that are tags.
pub open spec fn drop_args_accepted(args: Seq<Seq<char>>) -> int
    decreases args.len(),
{
    if args.len() > 0 && is_app_tag(args[0]) {
        1 + drop_args_accepted(args.skip(1))
    } else {
        0
    }
}

impl DropCommandOptions {
    /// No tag yet.
    pub fn new() -> (r: DropCommandOptions)
        ensures
            r.targets@.len() == 0,
    {
        DropCommandOptions { targets: Vec::new() }
    }

    /// Reads the arguments of the command from the buffer: tags, at least
    /// one over all. Reading stops at the first argument that is no tag,
    /// which stays in the buffer with all that follow it.
    pub fn parse_args(&mut self, args: &mut ArgumentsBuffer) -> (r: Result<(), DropArgError>)
        ensures
            ({
                let accepted = drop_args_accepted(old(args)@);
                &&& 0 <= accepted <= old(args)@.len()
                &&& final(args)@ == old(args)@.skip(accepted)
                &&& texts(final(self).targets@) == texts(old(self).targets@) + old(args)@.take(
                    accepted,
                )
                &&& match r {
                    Ok(()) => accepted == old(args)@.len() && final(self).targets@.len() > 0,
                    Err(DropArgError::NotATag) => accepted < old(args)@.len(),
                    Err(DropArgError::NoTargets) => accepted == old(args)@.len()
                        && final(self).targets@.len() == 0,
                }
            }),
    {
        let ghost all = args@;
        let ghost mut done: int = 0;
        assert(all.skip(0) =~= all);
        assert(texts(self.targets@) =~= texts(old(self).targets@) + all.take(0));
        loop
            invariant
                0 <= done <= all.len(),
                all == old(args)@,
                args@ == all.skip(done),
                drop_args_accepted(all) == done + drop_args_accepted(args@),
                texts(self.targets@) == texts(old(self).targets@) + all.take(done),
            decreases all.len() - done,
        {
            let arg = match args.peek() {
                Some(arg) => arg,
                None => {
                    assert(texts(self.targets@).len() == self.targets@.len());
                    if self.targets.len() == 0 {
                        return Err(DropArgError::NoTargets);
                    }
                    return Ok(());
                },
            };
            if !is_valid_app_tag(arg) {
                return Err(DropArgError::NotATag);
            }
            let ghost before = texts(self.targets@);
            self.targets.push(arg.to_owned());
            args.skip(1);
            proof {
                assert(texts(self.targets@) =~= before.push(arg@));
                assert(all.take(done + 1) =~= all.take(done).push(all[done]));
                assert(all.skip(done).skip(1) =~= all.skip(done + 1));
                assert(texts(self.targets@) =~= texts(old(self).targets@) + all.take(done + 1));
                done = done + 1;
            }
        }
    }
}

/// What dropping one tag does.
pub struct DropPlan {
    /// Where the configuration file of the tag stands.
    pub config_path: String,
    /// Where the configuration file is moved to, where there is one.
    pub backup_path: Option<String>,
    /// Where the stub of the tag stands.
    pub stub_path: String,
    /// Whether the stub is removed: whether there is one.
    pub remove_stub: bool,
}

/// Why a tag is not dropped.
#[derive(Clone, Copy, PartialEq, Eq, Structural, Debug)]
pub enum DropError {
    /// The tag is malformed.
    InvalidTag,
    /// The tag is one of the two reserved ones.
    ReservedTag,
    /// Neither a configuration nor a stub exists for the tag.
    UnknownApplication,
}

/// Whether a tag is dropped, from the tag and from whether its
/// configuration file and its stub are on disk.
pub open spec fn drop_outcome(tag: Seq<char>, config_on_disk: bool, stub_on_disk: bool) -> Result<
    (),
    DropError,
> {
    if !is_app_tag(tag) {
        Err(DropError::InvalidTag)
    } else if is_reserved(tag) {
        Err(DropError::ReservedTag)
    } else if !config_on_disk && !stub_on_disk {
        Err(DropError::UnknownApplication)
    } else {
        Ok(())
    }
}

/// Plans the dropping of one tag: a configuration file that is on disk is
/// set aside under its name with `.bak` behind it, and a stub that is on
/// disk is removed.
pub fn plan_drop(repo: &WexeRepository, tag: &str, config_on_disk: bool, stub_on_disk: bool) -> (r:
    Result<DropPlan, DropError>)
    ensures
        match r {
            Ok(plan) => {
                &&& drop_outcome(tag@, config_on_disk, stub_on_disk) is Ok
                &&& plan.config_path@ == joined_path(repo.folder(), config_name(tag@))
                &&& plan.stub_path@ == joined_path(repo.folder(), stub_name(tag@, repo.suffix()))
                &&& plan.remove_stub == stub_on_disk
                &&& match plan.backup_path {
                    Some(path) => config_on_disk && path@ == joined_path(
                        repo.folder(),
                        config_name(tag@) + BACKUP_SUFFIX@,
                    ),
                    None => !config_on_disk,
                }
            },
            Err(e) => drop_outcome(tag@, config_on_disk, stub_on_disk) == Err::<(), DropError>(e),
        },
{
    if !is_valid_app_tag(tag) {
        return Err(DropError::InvalidTag);
    }
    if is_reserved_tag(tag) {
        return Err(DropError::ReservedTag);
    }
    if !config_on_disk && !stub_on_disk {
        return Err(DropError::UnknownApplication);
    }
    let backup_path = if config_on_disk {
        let mut name = crate::wexe_repository::config_file_name(tag);
        name.append(BACKUP_SUFFIX);
        Some(crate::paths::path_join(repo.get_config_folder().as_str(), name.as_str()))
    } else {
        None
    };
    Ok(
        DropPlan {
            config_path: repo.get_config_path(tag),
            backup_path,
            stub_path: repo.get_stub_path(tag),
            remove_stub: stub_on_disk,
        },
    )
}

} // verus!
