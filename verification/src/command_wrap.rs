//! The `wrap` command: registering an application for a target.

use vstd::prelude::*;
use vstd::string::*;
use crate::args_buffer::ArgumentsBuffer;
use crate::commands::{kind_names, name_texts, names_of, Command, CommandKind};
use crate::paths::{file_stem_of, joined_path, path_file_stem, path_join, BACKUP_SUFFIX};
use crate::tag::{is_app_tag, is_registrable, is_reserved, is_reserved_tag, is_valid_app_tag};
use crate::text::{ascii_lowercase, lowercase_of, str_eq, texts, to_ascii_lowercase, to_lowercase};
use crate::wexe_repository::{config_file_name, config_name, stub_name, WexeRepository};

verus! {

/// What is put behind the name of a configuration file for a candidate.
pub const CANDIDATE_SUFFIX: &'static str = ".tmp";

/// The extension of executables where one is required.
pub const EXECUTABLE_EXTENSION: &'static str = "exe";

/// The `wrap` command.
pub struct WrapCommand {
    names: Vec<&'static str>,
}

impl WrapCommand {
    #[verifier::type_invariant]
    spec fn holds_its_names(&self) -> bool {
        name_texts(self.names@) == kind_names(CommandKind::Wrap)
    }

    /// The command under its names.
    pub fn new() -> (r: WrapCommand)
        ensures
            r.names() == kind_names(CommandKind::Wrap),
    {
        WrapCommand { names: names_of(CommandKind::Wrap) }
    }

    /// The names that the command holds, the primary one first.
    pub closed spec fn names(&self) -> Seq<Seq<char>> {
        name_texts(self.names@)
    }
}

impl Command for WrapCommand {
    open spec fn kind(&self) -> CommandKind {
        CommandKind::Wrap
    }

    fn name_and_aliases(&self) -> (r: &Vec<&'static str>) {
        proof {
            use_type_invariant(self);
        }
        &self.names
    }

    fn name(&self) -> (r: &'static str) {
        proof {
            use_type_invariant(self);
            assert(kind_names(CommandKind::Wrap).len() > 0);
            assert(name_texts(self.names@)[0] == self.names@[0]@);
        }
        self.names[0]
    }
}

/// The options of the `wrap` command.
pub struct WrapCommandOptions {
    target_path: Option<String>,
    tag: Option<String>,
    /// Whether an existing configuration is overwritten.
    pub force: bool,
    pre_args: Vec<String>,
    pre_path: Vec<String>,
}

pub struct WrapOptionsView {
    pub target_path: Option<Seq<char>>,
    pub tag: Option<Seq<char>>,
    pub force: bool,
    pub pre_args: Seq<Seq<char>>,
    pub pre_path: Seq<Seq<char>>,
}

impl View for WrapCommandOptions {
    type V = WrapOptionsView;

    closed spec fn view(&self) -> WrapOptionsView {
        WrapOptionsView {
            target_path: match self.target_path {
                Some(path) => Some(path@),
                None => None,
            },
            tag: match self.tag {
                Some(tag) => Some(tag@),
                None => None,
            },
            force: self.force,
            pre_args: texts(self.pre_args@),
            pre_path: texts(self.pre_path@),
        }
    }
}

/// The kinds of option that the command knows.
#[derive(Clone, Copy, PartialEq, Eq, Structural, Debug)]
pub enum WrapOption {
    /// The tag to register under; followed by the tag.
    Name,
    /// The target; followed by its path.
    Target,
    /// An argument to put before those of the user; followed by it.
    PreArg,
    /// A directory to put before the search path; followed by its path.
    PrePath,
    /// Overwrite an existing configuration.
    Force,
}

/// The option that an argument stands for, if it stands for one.
pub open spec fn wrap_option(arg: Seq<char>) -> Option<WrapOption> {
    if arg == "-n"@ || arg == "-name"@ || arg == "-tag"@ {
        Some(WrapOption::Name)
    } else if arg == "-x"@ || arg == "-exe"@ || arg == "-target"@ {
        Some(WrapOption::Target)
    } else if arg == "-a"@ || arg == "-arg"@ || arg == "-preargs"@ {
        Some(WrapOption::PreArg)
    } else if arg == "-p"@ || arg == "-path"@ || arg == "-prepath"@ {
        Some(WrapOption::PrePath)
    } else if arg == "-F"@ || arg == "-force"@ || arg == "--force"@ {
        Some(WrapOption::Force)
    } else {
        None
    }
}

/// The option that an argument stands for: see [`wrap_option`].
pub fn option_of(arg: &str) -> (r: Option<WrapOption>)
    ensures
        r == wrap_option(arg@),
{
    if str_eq(arg, "-n") || str_eq(arg, "-name") || str_eq(arg, "-tag") {
        Some(WrapOption::Name)
    } else if str_eq(arg, "-x") || str_eq(arg, "-exe") || str_eq(arg, "-target") {
        Some(WrapOption::Target)
    } else if str_eq(arg, "-a") || str_eq(arg, "-arg") || str_eq(arg, "-preargs") {
        Some(WrapOption::PreArg)
    } else if str_eq(arg, "-p") || str_eq(arg, "-path") || str_eq(arg, "-prepath") {
        Some(WrapOption::PrePath)
    } else if str_eq(arg, "-F") || str_eq(arg, "-force") || str_eq(arg, "--force") {
        Some(WrapOption::Force)
    } else {
        None
    }
}

/// Why the arguments of `wrap` are refused.
#[derive(Clone, Copy, PartialEq, Eq, Structural, Debug)]
pub enum WrapArgError {
    /// The option is the last argument: what follows it is missing.
    MissingValue,
    /// What follows the name option is no tag.
    InvalidTag,
    /// The argument is no known option.
    UnrecognizedOption,
    /// The arguments are read and name no target.
    NoTarget,
    /// The path of the target cannot be made absolute.
    TargetUnresolved,
    /// An executable needs the extension of executables here, and the
    /// target has another or none.
    TargetNotExecutable,
    /// The target does not exist or is no file.
    TargetNotAFile,
    /// The path of the directory cannot be made absolute.
    PathUnresolved,
    /// The directory does not exist.
    PathMissing,
    /// The path exists and is no directory.
    PathNotADirectory,
}

/// What reading one option leaves to do.
pub enum WrapStep {
    /// Every argument is read, and a target is named.
    Finished,
    /// An option was read and taken over.
    Consumed,
    /// The target option was read: its path is to be made absolute and
    /// looked up, and handed to `accept_target`.
    Target { raw: String },
    /// The path option was read: its path is to be made absolute and looked
    /// up, and handed to `accept_pre_path`.
    PrePath { raw: String },
}

pub enum WrapStepView {
    Finished,
    Consumed,
    Target { raw: Seq<char> },
    PrePath { raw: Seq<char> },
}

impl View for WrapStep {
    type V = WrapStepView;

    open spec fn view(&self) -> WrapStepView {
        match *self {
            WrapStep::Finished => WrapStepView::Finished,
            WrapStep::Consumed => WrapStepView::Consumed,
            WrapStep::Target { raw } => WrapStepView::Target { raw: raw@ },
            WrapStep::PrePath { raw } => WrapStepView::PrePath { raw: raw@ },
        }
    }
}

/// What reading one option gives: the options after it, the number of
/// arguments consumed, and what is left to do or why the arguments are
/// refused.
pub struct WrapRead {
    pub options: WrapOptionsView,
    pub consumed: int,
    pub step: Result<WrapStepView, WrapArgError>,
}

/// Reading one option from the front of the arguments. An option that is
/// refused changes nothing and consumes nothing.
pub open spec fn wrap_read(options: WrapOptionsView, args: Seq<Seq<char>>) -> WrapRead {
    let refused = |e: WrapArgError| WrapRead { options, consumed: 0, step: Err(e) };
    if args.len() == 0 {
        if options.target_path is Some {
            WrapRead { options, consumed: 0, step: Ok(WrapStepView::Finished) }
        } else {
            refused(WrapArgError::NoTarget)
        }
    } else {
        match wrap_option(args[0]) {
            None => refused(WrapArgError::UnrecognizedOption),
            Some(WrapOption::Force) => WrapRead {
                options: WrapOptionsView { force: true, ..options },
                consumed: 1,
                step: Ok(WrapStepView::Consumed),
            },
            Some(option) => if args.len() < 2 {
                refused(WrapArgError::MissingValue)
            } else {
                match option {
                    WrapOption::Name => if is_app_tag(args[1]) {
                        WrapRead {
                            options: WrapOptionsView { tag: Some(args[1]), ..options },
                            consumed: 2,
                            step: Ok(WrapStepView::Consumed),
                        }
                    } else {
                        refused(WrapArgError::InvalidTag)
                    },
                    WrapOption::PreArg => WrapRead {
                        options: WrapOptionsView {
                            pre_args: options.pre_args.push(args[1]),
                            ..options
                        },
                        consumed: 2,
                        step: Ok(WrapStepView::Consumed),
                    },
                    WrapOption::Target => WrapRead {
                        options,
                        consumed: 2,
                        step: Ok(WrapStepView::Target { raw: args[1] }),
                    },
                    _ => WrapRead {
                        options,
                        consumed: 2,
                        step: Ok(WrapStepView::PrePath { raw: args[1] }),
                    },
                }
            },
        }
    }
}

/// Reading options from the front of the arguments for as long as each is
/// read and taken over: up to the first that leaves something to do, or is
/// refused, or up to the end.
pub open spec fn wrap_args_read(options: WrapOptionsView, args: Seq<Seq<char>>) -> WrapRead
    decreases args.len(),
{
    let one = wrap_read(options, args);
    if one.step == Ok::<WrapStepView, WrapArgError>(WrapStepView::Consumed) && 1 <= one.consumed
        <= args.len() {
        let rest = wrap_args_read(one.options, args.skip(one.consumed));
        WrapRead { options: rest.options, consumed: one.consumed + rest.consumed, step: rest.step }
    } else {
        one
    }
}

/// What was found out about the path given as the target.
pub struct TargetProbe {
    /// The path made absolute; `None` where that failed.
    pub resolved: Option<String>,
    /// The extension of the file's name, if it has one.
    pub extension: Option<String>,
    /// Whether the path names a file that exists.
    pub is_file: bool,
}

/// What was found out about a path given for the search path.
pub struct DirProbe {
    /// The path made absolute; `None` where that failed.
    pub resolved: Option<String>,
    /// Whether the path exists.
    pub exists: bool,
    /// Whether the path names a directory that exists.
    pub is_dir: bool,
}

/// Whether a target with the given extension passes for an executable:
/// where executables need an extension it must be theirs, in any case.
pub open spec fn passes_for_executable(extension: Option<Seq<char>>, required: bool) -> bool {
    required ==> (extension matches Some(e) && ascii_lowercase(e) == EXECUTABLE_EXTENSION@)
}

/// What a probed target is taken for: its absolute path, or the reason why
/// it is refused.
pub open spec fn target_accepted(
    resolved: Option<Seq<char>>,
    extension: Option<Seq<char>>,
    is_file: bool,
    extension_required: bool,
) -> Result<Seq<char>, WrapArgError> {
    match resolved {
        None => Err(WrapArgError::TargetUnresolved),
        Some(path) => if !passes_for_executable(extension, extension_required) {
            Err(WrapArgError::TargetNotExecutable)
        } else if !is_file {
            Err(WrapArgError::TargetNotAFile)
        } else {
            Ok(path)
        },
    }
}

/// What a probed directory is taken for: its absolute path, or the reason
/// why it is refused.
pub open spec fn pre_path_accepted(resolved: Option<Seq<char>>, exists: bool, is_dir: bool) -> Result<
    Seq<char>,
    WrapArgError,
> {
    match resolved {
        None => Err(WrapArgError::PathUnresolved),
        Some(path) => if is_dir {
            Ok(path)
        } else if !exists {
            Err(WrapArgError::PathMissing)
        } else {
            Err(WrapArgError::PathNotADirectory)
        },
    }
}

/// Why no tag can be had for the application.
#[derive(Clone, Copy, PartialEq, Eq, Structural, Debug)]
pub enum WrapTagError {
    /// The tag that was given is one of the two reserved ones.
    ReservedTag,
    /// The target's path ends in no file name to take a tag from.
    NoFileName,
    /// The name of the target's file is no tag.
    InvalidDerivedTag,
    /// The name of the target's file is one of the two reserved tags.
    ReservedDerivedTag,
}

/// The tag taken from the name of the target's file, already in lower
/// case: the name itself where it is a tag that may be registered.
pub open spec fn derived_tag(name: Seq<char>) -> Result<Seq<char>, WrapTagError> {
    if !is_app_tag(name) {
        Err(WrapTagError::InvalidDerivedTag)
    } else if is_reserved(name) {
        Err(WrapTagError::ReservedDerivedTag)
    } else {
        Ok(name)
    }
}

/// The tag of the application: the one that was given, or else the name of
/// the target's file without its extension, in lower case.
pub open spec fn wrap_tag(options: WrapOptionsView) -> Result<Seq<char>, WrapTagError> {
    match options.tag {
        Some(tag) => if is_reserved(tag) {
            Err(WrapTagError::ReservedTag)
        } else {
            Ok(tag)
        },
        None => match file_stem_of(options.target_path->0) {
            None => Err(WrapTagError::NoFileName),
            Some(stem) => derived_tag(lowercase_of(stem)),
        },
    }
}

/// Takes a name for a tag: see [`derived_tag`].
pub fn check_derived_tag(name: String) -> (r: Result<String, WrapTagError>)
    ensures
        match r {
            Ok(tag) => derived_tag(name@) == Ok::<Seq<char>, WrapTagError>(tag@),
            Err(e) => derived_tag(name@) == Err::<Seq<char>, WrapTagError>(e),
        },
{
    if !is_valid_app_tag(name.as_str()) {
        Err(WrapTagError::InvalidDerivedTag)
    } else if is_reserved_tag(name.as_str()) {
        Err(WrapTagError::ReservedDerivedTag)
    } else {
        Ok(name)
    }
}

impl WrapCommandOptions {
    /// Nothing given yet.
    pub fn new() -> (r: WrapCommandOptions)
        ensures
            r@ == (WrapOptionsView {
                target_path: None,
                tag: None,
                force: false,
                pre_args: Seq::empty(),
                pre_path: Seq::empty(),
            }),
    {
        let r = WrapCommandOptions {
            target_path: None,
            tag: None,
            force: false,
            pre_args: Vec::new(),
            pre_path: Vec::new(),
        };
        assert(texts(r.pre_args@) =~= Seq::empty());
        assert(texts(r.pre_path@) =~= Seq::empty());
        r
    }

    /// Reads one option from the buffer: see [`wrap_read`]. What follows
    /// the target option and the path option is handed back to be looked up
    /// on disk.
    pub fn parse_next(&mut self, args: &mut ArgumentsBuffer) -> (r: Result<WrapStep, WrapArgError>)
        ensures
            ({
                let read = wrap_read(old(self)@, old(args)@);
                &&& final(self)@ == read.options
                &&& final(args)@ == old(args)@.skip(read.consumed)
                &&& match r {
                    Ok(step) => read.step == Ok::<WrapStepView, WrapArgError>(step@),
                    Err(e) => read.step == Err::<WrapStepView, WrapArgError>(e),
                }
            }),
    {
        assert(args@.skip(0) =~= args@);
        let arg = match args.peek() {
            Some(arg) => arg,
            None => {
                if self.target_path.is_some() {
                    return Ok(WrapStep::Finished);
                }
                return Err(WrapArgError::NoTarget);
            },
        };
        let option = match option_of(arg) {
            Some(option) => option,
            None => {
                return Err(WrapArgError::UnrecognizedOption);
            },
        };
        if option == WrapOption::Force {
            self.force = true;
            args.skip(1);
            return Ok(WrapStep::Consumed);
        }
        let value = match args.peek_at(1) {
            Some(value) => value.to_owned(),
            None => {
                return Err(WrapArgError::MissingValue);
            },
        };
        match option {
            WrapOption::Name => {
                if !is_valid_app_tag(value.as_str()) {
                    return Err(WrapArgError::InvalidTag);
                }
                self.tag = Some(value);
                args.skip(2);
                Ok(WrapStep::Consumed)
            },
            WrapOption::PreArg => {
                let ghost before = texts(self.pre_args@);
                self.pre_args.push(value);
                assert(texts(self.pre_args@) =~= before.push(value@));
                args.skip(2);
                Ok(WrapStep::Consumed)
            },
            WrapOption::Target => {
                args.skip(2);
                Ok(WrapStep::Target { raw: value })
            },
            _ => {
                args.skip(2);
                Ok(WrapStep::PrePath { raw: value })
            },
        }
    }

    /// Reads options from the buffer up to the first that needs a look at
    /// the disk, which is handed back, or up to the end: see
    /// [`wrap_args_read`]. It is called again after each path that was
    /// handed back and accepted, until it says that it has finished.
    pub fn parse_args(&mut self, args: &mut ArgumentsBuffer) -> (r: Result<WrapStep, WrapArgError>)
        ensures
            ({
                let read = wrap_args_read(old(self)@, old(args)@);
                &&& final(self)@ == read.options
                &&& final(args)@ == old(args)@.skip(read.consumed)
                &&& match r {
                    Ok(step) => read.step == Ok::<WrapStepView, WrapArgError>(step@) && !(step
                        is Consumed),
                    Err(e) => read.step == Err::<WrapStepView, WrapArgError>(e),
                }
            }),
    {
        let ghost all = args@;
        let ghost start = self@;
        let ghost mut done: int = 0;
        assert(all.skip(0) =~= all);
        loop
            invariant
                0 <= done <= all.len(),
                all == old(args)@,
                start == old(self)@,
                args@ == all.skip(done),
                wrap_args_read(start, all).options == wrap_args_read(self@, args@).options,
                wrap_args_read(start, all).consumed == wrap_args_read(self@, args@).consumed + done,
                wrap_args_read(start, all).step == wrap_args_read(self@, args@).step,
            decreases all.len() - done,
        {
            let ghost before = self@;
            let ghost rest = args@;
            let step = self.parse_next(args);
            proof {
                let one = wrap_read(before, rest);
                assert(rest.skip(one.consumed) =~= all.skip(done + one.consumed));
            }
            match step {
                Ok(WrapStep::Consumed) => {
                    proof {
                        done = done + wrap_read(before, rest).consumed;
                    }
                },
                Ok(other) => {
                    return Ok(other);
                },
                Err(e) => {
                    return Err(e);
                },
            }
        }
    }

    /// Takes a target after it was looked up: see [`target_accepted`].
    pub fn accept_target(&mut self, probe: &TargetProbe, extension_required: bool) -> (r: Result<
        (),
        WrapArgError,
    >)
        ensures
            ({
                let accepted = target_accepted(
                    match probe.resolved {
                        Some(path) => Some(path@),
                        None => None,
                    },
                    match probe.extension {
                        Some(e) => Some(e@),
                        None => None,
                    },
                    probe.is_file,
                    extension_required,
                );
                match r {
                    Ok(()) => accepted is Ok && final(self)@ == (WrapOptionsView {
                        target_path: Some(accepted->Ok_0),
                        ..old(self)@
                    }),
                    Err(e) => accepted == Err::<Seq<char>, WrapArgError>(e) && final(self)@ == old(
                        self,
                    )@,
                }
            }),
    {
        let path = match &probe.resolved {
            Some(path) => path,
            None => {
                return Err(WrapArgError::TargetUnresolved);
            },
        };
        if extension_required {
            let fits = match &probe.extension {
                Some(e) => str_eq(to_ascii_lowercase(e.as_str()).as_str(), EXECUTABLE_EXTENSION),
                None => false,
            };
            if !fits {
                return Err(WrapArgError::TargetNotExecutable);
            }
        }
        if !probe.is_file {
            return Err(WrapArgError::TargetNotAFile);
        }
        self.target_path = Some(path.clone());
        Ok(())
    }

    /// Takes a directory for the search path after it was looked up: see
    /// [`pre_path_accepted`].
    pub fn accept_pre_path(&mut self, probe: &DirProbe) -> (r: Result<(), WrapArgError>)
        ensures
            ({
                let accepted = pre_path_accepted(
                    match probe.resolved {
                        Some(path) => Some(path@),
                        None => None,
                    },
                    probe.exists,
                    probe.is_dir,
                );
                match r {
                    Ok(()) => accepted is Ok && final(self)@ == (WrapOptionsView {
                        pre_path: old(self)@.pre_path.push(accepted->Ok_0),
                        ..old(self)@
                    }),
                    Err(e) => accepted == Err::<Seq<char>, WrapArgError>(e) && final(self)@ == old(
                        self,
                    )@,
                }
            }),
    {
        let path = match &probe.resolved {
            Some(path) => path,
            None => {
                return Err(WrapArgError::PathUnresolved);
            },
        };
        if !probe.is_dir {
            if !probe.exists {
                return Err(WrapArgError::PathMissing);
            }
            return Err(WrapArgError::PathNotADirectory);
        }
        let ghost before = texts(self.pre_path@);
        self.pre_path.push(path.clone());
        assert(texts(self.pre_path@) =~= before.push(path@));
        Ok(())
    }

    /// The target, which must have been given.
    pub fn get_target_path(&self) -> (r: &String)
        requires
            self@.target_path is Some,
        ensures
            self@.target_path == Some(r@),
    {
        self.target_path.as_ref().unwrap()
    }

    /// The arguments to put before those of the user.
    pub fn get_pre_args(&self) -> (r: &Vec<String>)
        ensures
            texts(r@) == self@.pre_args,
    {
        &self.pre_args
    }

    /// The directories to put before the search path.
    pub fn get_pre_path(&self) -> (r: &Vec<String>)
        ensures
            texts(r@) == self@.pre_path,
    {
        &self.pre_path
    }

    /// The tag of the application: see [`wrap_tag`]. A tag or a target must
    /// have been given.
    pub fn get_tag(&self) -> (r: Result<String, WrapTagError>)
        requires
            self@.tag is Some || self@.target_path is Some,
        ensures
            match r {
                Ok(tag) => wrap_tag(self@) == Ok::<Seq<char>, WrapTagError>(tag@),
                Err(e) => wrap_tag(self@) == Err::<Seq<char>, WrapTagError>(e),
            },
    {
        match &self.tag {
            Some(tag) => {
                if is_reserved_tag(tag.as_str()) {
                    Err(WrapTagError::ReservedTag)
                } else {
                    Ok(tag.clone())
                }
            },
            None => {
                let target = self.get_target_path();
                match path_file_stem(target.as_str()) {
                    Some(stem) => check_derived_tag(to_lowercase(stem.as_str())),
                    None => Err(WrapTagError::NoFileName),
                }
            },
        }
    }
}

/// What is done with the configuration that was written as a candidate.
#[derive(Clone, Copy, PartialEq, Eq, Structural, Debug)]
pub enum ConfigStep {
    /// No application is registered under the tag: the candidate becomes
    /// the configuration.
    Install,
    /// An application is registered and overwriting was asked for: its
    /// configuration is set aside and the candidate takes its place.
    BackupAndReplace,
    /// An application is registered: the candidate is left beside its
    /// configuration.
    KeepCandidate,
}

/// What is done about the stub.
#[derive(Clone, Copy, PartialEq, Eq, Structural, Debug)]
pub enum StubStep {
    /// There is no installed launcher to copy: nothing can be done.
    LauncherMissing,
    /// There is a stub: it is left as it is.
    KeepExisting,
    /// The launcher is copied to the stub's path.
    Create,
}

/// What wrapping does once the configuration is written as a candidate.
pub struct WrapPlan {
    /// Where the configuration of the tag stands.
    pub config_path: String,
    /// Where the configuration is written first.
    pub candidate_path: String,
    /// Where an earlier configuration is set aside.
    pub backup_path: String,
    /// Where the stub of the tag stands.
    pub stub_path: String,
    pub config_step: ConfigStep,
    pub stub_step: StubStep,
}

/// What is done with the candidate.
pub open spec fn config_step(registered: bool, force: bool) -> ConfigStep {
    if !registered {
        ConfigStep::Install
    } else if force {
        ConfigStep::BackupAndReplace
    } else {
        ConfigStep::KeepCandidate
    }
}

/// What is done about the stub.
pub open spec fn stub_step(launcher_on_disk: bool, stub_on_disk: bool) -> StubStep {
    if !launcher_on_disk {
        StubStep::LauncherMissing
    } else if stub_on_disk {
        StubStep::KeepExisting
    } else {
        StubStep::Create
    }
}

/// Why nothing is wrapped.
#[derive(Clone, Copy, PartialEq, Eq, Structural, Debug)]
pub enum WrapError {
    /// The tag is malformed or reserved.
    InvalidTag,
}

/// Plans the wrapping of a target under a tag that may be registered: the
/// paths of the files, what is done with the candidate configuration, and
/// what is done about the stub.
pub fn plan_wrap(
    repo: &WexeRepository,
    tag: &str,
    force: bool,
    launcher_on_disk: bool,
    stub_on_disk: bool,
) -> (r: Result<WrapPlan, WrapError>)
    ensures
        r is Ok <==> is_registrable(tag@),
        r matches Ok(plan) ==> {
            &&& plan.config_path@ == joined_path(repo.folder(), config_name(tag@))
            &&& plan.candidate_path@ == joined_path(
                repo.folder(),
                config_name(tag@) + CANDIDATE_SUFFIX@,
            )
            &&& plan.backup_path@ == joined_path(repo.folder(), config_name(tag@) + BACKUP_SUFFIX@)
            &&& plan.stub_path@ == joined_path(repo.folder(), stub_name(tag@, repo.suffix()))
            &&& plan.config_step == config_step(repo@.contains_key(tag@), force)
            &&& plan.stub_step == stub_step(launcher_on_disk, stub_on_disk)
        },
{
    if !is_valid_app_tag(tag) || is_reserved_tag(tag) {
        return Err(WrapError::InvalidTag);
    }
    let folder = repo.get_config_folder();
    let mut candidate = config_file_name(tag);
    candidate.append(CANDIDATE_SUFFIX);
    let mut backup = config_file_name(tag);
    backup.append(BACKUP_SUFFIX);
    let registered = repo.find_entry(tag).is_some();
    let config = if !registered {
        ConfigStep::Install
    } else if force {
        ConfigStep::BackupAndReplace
    } else {
        ConfigStep::KeepCandidate
    };
    let stub = if !launcher_on_disk {
        StubStep::LauncherMissing
    } else if stub_on_disk {
        StubStep::KeepExisting
    } else {
        StubStep::Create
    };
    Ok(
        WrapPlan {
            config_path: repo.get_config_path(tag),
            candidate_path: path_join(folder.as_str(), candidate.as_str()),
            backup_path: path_join(folder.as_str(), backup.as_str()),
            stub_path: repo.get_stub_path(tag),
            config_step: config,
            stub_step: stub,
        },
    )
}

} // verus!
