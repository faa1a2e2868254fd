//! The `list` command: one row for each registered application.

use std::fmt::Write;
use vstd::prelude::*;
use crate::args_buffer::ArgumentsBuffer;
use crate::commands::{kind_names, name_texts, names_of, Command, CommandKind};
use crate::text::{seq_contains, str_contains, str_eq};
use crate::wexe_repository::{FileStamp, WexeEntry, WexeEntryView};

verus! {

/// The option that is followed by the text to filter by.
pub const FILTER_OPTION: &'static str = "-m";

/// How the modification time of a stub is written: year, month, day, a
/// hyphen, hour, minute, second, all in digits.
pub const STAMP_FORMAT: &'static str = "%Y%m%d-%H%M%S";

/// The `list` command.
pub struct ListCommand {
    names: Vec<&'static str>,
}

impl ListCommand {
    #[verifier::type_invariant]
    spec fn holds_its_names(&self) -> bool {
        name_texts(self.names@) == kind_names(CommandKind::List)
    }

    /// The command under its names.
    pub fn new() -> (r: ListCommand)
        ensures
            r.names() == kind_names(CommandKind::List),
    {
        ListCommand { names: names_of(CommandKind::List) }
    }

    /// The names that the command holds, the primary one first.
    pub closed spec fn names(&self) -> Seq<Seq<char>> {
        name_texts(self.names@)
    }
}

impl Command for ListCommand {
    open spec fn kind(&self) -> CommandKind {
        CommandKind::List
    }

    fn name_and_aliases(&self) -> (r: &Vec<&'static str>) {
        proof {
            use_type_invariant(self);
        }
        &self.names
    }

    fn name(&self) -> (r: &'static str) {
        proof {
            use_type_invariant(self);
            assert(kind_names(CommandKind::List).len() > 0);
            assert(name_texts(self.names@)[0] == self.names@[0]@);
        }
        self.names[0]
    }
}

/// The options of the `list` command.
pub struct ListCommandOptions {
    /// Only tags that hold this text are listed.
    pub filter: Option<String>,
}

/// Why the arguments of `list` are refused. The argument in question is the
/// next one in the buffer.
#[derive(Clone, Copy, PartialEq, Eq, Structural, Debug)]
pub enum ListArgError {
    /// The filter option is the last argument: its text is missing.
    MissingFilter,
    /// The argument is no known option.
    UnrecognizedOption,
}

/// What reading arguments gave: the filter, the number of arguments
/// consumed, and the error that stopped the reading, if one did.
pub struct ListArgsRead {
    pub filter: Option<Seq<char>>,
    pub consumed: int,
    pub error: Option<ListArgError>,
}

/// Reading the arguments from the front until one is refused: each filter
/// option takes the argument behind it as the filter, a later one in the
/// place of an earlier one.
pub open spec fn list_args_read(filter: Option<Seq<char>>, args: Seq<Seq<char>>) -> ListArgsRead
    decreases args.len(),
{
    if args.len() == 0 {
        ListArgsRead { filter, consumed: 0, error: None }
    } else if args[0] != FILTER_OPTION@ {
        ListArgsRead { filter, consumed: 0, error: Some(ListArgError::UnrecognizedOption) }
    } else if args.len() < 2 {
        ListArgsRead { filter, consumed: 0, error: Some(ListArgError::MissingFilter) }
    } else {
        let rest = list_args_read(Some(args[1]), args.skip(2));
        ListArgsRead { filter: rest.filter, consumed: rest.consumed + 2, error: rest.error }
    }
}

impl ListCommandOptions {
    /// The filter of the options as a plain value.
    pub open spec fn filter_text(&self) -> Option<Seq<char>> {
        match self.filter {
            Some(text) => Some(text@),
            None => None,
        }
    }

    /// No filter.
    pub fn new() -> (r: ListCommandOptions)
        ensures
            r.filter is None,
    {
        ListCommandOptions { filter: None }
    }

    /// Reads the arguments of the command from the buffer. Reading stops at
    /// the first argument that is refused, which stays in the buffer with
    /// all that follow it.
    pub fn parse_args(&mut self, args: &mut ArgumentsBuffer) -> (r: Result<(), ListArgError>)
        ensures
            ({
                let read = list_args_read(old(self).filter_text(), old(args)@);
                &&& final(self).filter_text() == read.filter
                &&& final(args)@ == old(args)@.skip(read.consumed)
                &&& match r {
                    Ok(()) => read.error is None,
                    Err(e) => read.error == Some(e),
                }
            }),
    {
        let ghost all = args@;
        let ghost start = self.filter_text();
        let ghost mut done: int = 0;
        assert(all.skip(0) =~= all);
        loop
            invariant
                0 <= done <= all.len(),
                all == old(args)@,
                start == old(self).filter_text(),
                args@ == all.skip(done),
                list_args_read(start, all).filter == list_args_read(self.filter_text(), args@).filter,
                list_args_read(start, all).consumed == list_args_read(
                    self.filter_text(),
                    args@,
                ).consumed + done,
                list_args_read(start, all).error == list_args_read(self.filter_text(), args@).error,
            decreases all.len() - done,
        {
            let arg = match args.peek() {
                Some(arg) => arg,
                None => {
                    return Ok(());
                },
            };
            if !str_eq(arg, FILTER_OPTION) {
                return Err(ListArgError::UnrecognizedOption);
            }
            let value = match args.peek_at(1) {
                Some(value) => value,
                None => {
                    return Err(ListArgError::MissingFilter);
                },
            };
            self.filter = Some(value.to_owned());
            args.skip(2);
            proof {
                assert(all.skip(done).skip(2) =~= all.skip(done + 2));
                done = done + 2;
            }
        }
    }
}

/// What can be said of the target of an application.
#[derive(Clone, Copy, PartialEq, Eq, Structural, Debug)]
pub enum TargetState {
    /// The configuration loaded and the target is on disk.
    Ready,
    /// The configuration loaded and the target is not on disk.
    Missing,
    /// The configuration did not load.
    LoadError,
}

/// What can be said of the stub of an application.
pub enum StubState {
    /// There is a stub; when it was modified.
    Stamped(String),
    /// There is a stub, and its time cannot be written as a date.
    Undated,
    /// There is no stub.
    Missing,
}

/// One row of the listing.
pub struct ListRow {
    pub tag: String,
    pub target: TargetState,
    /// The target, or the message of the load error.
    pub target_text: String,
    pub stub: StubState,
}

/// What `chrono` writes for a moment under a pattern: the moment given in
/// seconds since the start of 1970 and nanoseconds, in universal time.
/// `None` where the moment is out of its range or the pattern is not one.
pub uninterp spec fn timestamp_text(secs: i64, nanos: u32, pattern: Seq<char>) -> Option<Seq<char>>;

/// `chrono::DateTime::from_timestamp`, which makes the moment in universal
/// time, then `DateTime::format` with the pattern, written out. `None`
/// where the first gives none or the writing fails, as it does for a
/// pattern with an unknown specifier. The text depends on the three
/// arguments alone.
#[verifier::external_body]
fn format_timestamp(secs: i64, nanos: u32, pattern: &str) -> (r: Option<String>)
    ensures
        match r {
            Some(text) => timestamp_text(secs, nanos, pattern@) == Some(text@),
            None => timestamp_text(secs, nanos, pattern@) is None,
        },
{
    let moment = chrono::DateTime::from_timestamp(secs, nanos)?;
    let mut text = String::new();
    match write!(text, "{}", moment.format(pattern)) {
        Ok(()) => Some(text),
        Err(_) => None,
    }
}

/// The state of the target of an entry.
pub open spec fn target_state(entry: WexeEntryView, target_on_disk: bool) -> TargetState {
    if entry.target_exe_path is None {
        TargetState::LoadError
    } else if !target_on_disk {
        TargetState::Missing
    } else {
        TargetState::Ready
    }
}

/// The text that goes with the target's state: the target where there is
/// one, else the load error.
pub open spec fn target_text(entry: WexeEntryView) -> Seq<char> {
    match (entry.target_exe_path, entry.load_error) {
        (Some(target), _) => target,
        (None, Some(message)) => message,
        (None, None) => Seq::empty(),
    }
}

/// Whether an entry is listed under a filter: there is no filter, or the
/// tag holds the filter's text.
pub open spec fn listed(entry: WexeEntryView, filter: Option<Seq<char>>) -> bool {
    match filter {
        Some(text) => seq_contains(entry.tag, text),
        None => true,
    }
}

/// Whether an entry is listed under the options: see [`listed`].
pub fn is_listed(entry: &WexeEntry, options: &ListCommandOptions) -> (r: bool)
    ensures
        r == listed(entry@, options.filter_text()),
{
    match &options.filter {
        Some(text) => str_contains(entry.get_tag(), text.as_str()),
        None => true,
    }
}

/// The state of a stub, from its modification time, if there is a stub,
/// and that time written as a date, if it can be.
pub fn stub_state(stub: Option<FileStamp>, written: Option<String>) -> (r: StubState)
    ensures
        match r {
            StubState::Stamped(text) => stub is Some && written == Some(text),
            StubState::Undated => stub is Some && written is None,
            StubState::Missing => stub is None,
        },
{
    match stub {
        Some(_) => match written {
            Some(text) => StubState::Stamped(text),
            None => StubState::Undated,
        },
        None => StubState::Missing,
    }
}

/// The row of an entry, from the entry, from whether its target is on disk
/// and from the modification time of its stub, if there is a stub.
pub fn list_row(entry: &WexeEntry, target_on_disk: bool, stub: Option<FileStamp>) -> (r: ListRow)
    ensures
        r.tag@ == entry@.tag,
        r.target == target_state(entry@, target_on_disk),
        r.target_text@ == target_text(entry@),
        match r.stub {
            StubState::Stamped(text) => stub matches Some(stamp) && timestamp_text(
                stamp.secs,
                stamp.nanos,
                STAMP_FORMAT@,
            ) == Some(text@),
            StubState::Undated => stub matches Some(stamp) && timestamp_text(
                stamp.secs,
                stamp.nanos,
                STAMP_FORMAT@,
            ) is None,
            StubState::Missing => stub is None,
        },
{
    let target = if entry.get_target_exe_path().is_none() {
        TargetState::LoadError
    } else if !target_on_disk {
        TargetState::Missing
    } else {
        TargetState::Ready
    };
    let target_text = match entry.get_target_exe_path() {
        Some(path) => path.clone(),
        None => match entry.get_load_error() {
            Some(message) => message.clone(),
            None => String::new(),
        },
    };
    let written = match stub {
        Some(stamp) => format_timestamp(stamp.secs, stamp.nanos, STAMP_FORMAT),
        None => None,
    };
    ListRow { tag: entry.get_tag().to_owned(), target, target_text, stub: stub_state(stub, written) }
}

} // verus!
