//! The `fix` command: bringing the stub of a tag in line with the tag's
//! registration and with the installed launcher.

use vstd::prelude::*;
use crate::args_buffer::ArgumentsBuffer;
use crate::commands::{kind_names, name_texts, names_of, Command, CommandKind};
use crate::paths::{file_tag, joined_path, stem_of, stem_of_file_name, tag_of_file_name};
use crate::tag::{is_app_tag, is_reserved, is_reserved_tag, is_valid_app_tag};
use crate::text::{
    ascii_lowercase, chars_of, lemma_seq_lt_total, lemma_seq_lt_transitive, seq_lt, str_eq,
    str_lt, texts, to_ascii_lowercase,
};
use crate::wexe_repository::{
    stale, stub_name, target_missing_or_older, FileStamp, WexeEntryView, WexeRepository,
};

verus! {

/// The rows of the decision table, each named by what is done.
#[derive(Clone, Copy, PartialEq, Eq, Structural, Debug)]
pub enum FixRow {
    /// No registration, a stub: the stub is removed.
    RemoveOrphanedStub,
    /// No registration, no stub: nothing to do.
    NothingToDo,
    /// A configuration that did not load, a stub: the stub is removed and
    /// the load error reported.
    RemoveBrokenStub,
    /// A configuration that did not load, no stub: the load error is
    /// reported and no stub made.
    ReportLoadError,
    /// A target that is not on disk, a stub: the stub is removed and the
    /// missing target reported.
    RemoveStubOfMissingTarget,
    /// A target that is not on disk, no stub: the missing target is
    /// reported and no stub made.
    ReportTargetMissing,
    /// A target on disk, no stub: the launcher is copied to the stub's path.
    CreateStub,
    /// A target on disk, a stub older than the launcher: the launcher is
    /// copied over the stub.
    UpdateStub,
    /// A target on disk, a stub as new as the launcher: nothing to do.
    UpToDate,
}

/// What happens to the stub's file.
#[derive(Clone, Copy, PartialEq, Eq, Structural, Debug)]
pub enum StubOperation {
    /// The file is left as it is, or left absent.
    Keep,
    /// The file is removed.
    Remove,
    /// The launcher is copied to the stub's path.
    Copy,
}

/// The row for a tag, first match first: whether the tag is registered,
/// whether its configuration failed to load, whether its target is on disk,
/// whether a stub is on disk, and whether that stub is older than the
/// launcher. What the table marks as not looked at does not count: without
/// a stub the age of the stub decides nothing.
pub open spec fn stub_row(
    registered: bool,
    load_error: bool,
    target_on_disk: bool,
    stub_on_disk: bool,
    stub_is_old: bool,
) -> FixRow {
    if !registered {
        if stub_on_disk {
            FixRow::RemoveOrphanedStub
        } else {
            FixRow::NothingToDo
        }
    } else if load_error {
        if stub_on_disk {
            FixRow::RemoveBrokenStub
        } else {
            FixRow::ReportLoadError
        }
    } else if !target_on_disk {
        if stub_on_disk {
            FixRow::RemoveStubOfMissingTarget
        } else {
            FixRow::ReportTargetMissing
        }
    } else if !stub_on_disk {
        FixRow::CreateStub
    } else if stub_is_old {
        FixRow::UpdateStub
    } else {
        FixRow::UpToDate
    }
}

/// The table row by row: the facts under which each row applies.
pub open spec fn row_applies(
    row: FixRow,
    registered: bool,
    load_error: bool,
    target_on_disk: bool,
    stub_on_disk: bool,
    stub_is_old: bool,
) -> bool {
    match row {
        FixRow::RemoveOrphanedStub => !registered && stub_on_disk,
        FixRow::NothingToDo => !registered && !stub_on_disk,
        FixRow::RemoveBrokenStub => registered && load_error && stub_on_disk,
        FixRow::ReportLoadError => registered && load_error && !stub_on_disk,
        FixRow::RemoveStubOfMissingTarget => registered && !load_error && !target_on_disk
            && stub_on_disk,
        FixRow::ReportTargetMissing => registered && !load_error && !target_on_disk
            && !stub_on_disk,
        FixRow::CreateStub => registered && !load_error && target_on_disk && !stub_on_disk,
        FixRow::UpdateStub => registered && !load_error && target_on_disk && stub_on_disk
            && stub_is_old,
        FixRow::UpToDate => registered && !load_error && target_on_disk && stub_on_disk
            && !stub_is_old,
    }
}

/// What a row does to the stub's file.
pub open spec fn operation_of(row: FixRow) -> StubOperation {
    match row {
        FixRow::RemoveOrphanedStub | FixRow::RemoveBrokenStub | FixRow::RemoveStubOfMissingTarget => {
            StubOperation::Remove
        },
        FixRow::CreateStub | FixRow::UpdateStub => StubOperation::Copy,
        _ => StubOperation::Keep,
    }
}

/// Under every combination of the five facts exactly one row of the table
/// applies, and it is the row that is chosen.
pub proof fn lemma_decision_table(
    registered: bool,
    load_error: bool,
    target_on_disk: bool,
    stub_on_disk: bool,
    stub_is_old: bool,
)
    ensures
        row_applies(
            stub_row(registered, load_error, target_on_disk, stub_on_disk, stub_is_old),
            registered,
            load_error,
            target_on_disk,
            stub_on_disk,
            stub_is_old,
        ),
        forall|row: FixRow|
            #[trigger] row_applies(
                row,
                registered,
                load_error,
                target_on_disk,
                stub_on_disk,
                stub_is_old,
            ) ==> row == stub_row(
                registered,
                load_error,
                target_on_disk,
                stub_on_disk,
                stub_is_old,
            ),
{
}

/// A stub is copied only for a registration that loaded and whose target is
/// on disk; a stub that is on disk without such a registration is removed;
/// and where no stub is on disk, whether it counts as old changes nothing.
pub proof fn lemma_stub_operations(
    registered: bool,
    load_error: bool,
    target_on_disk: bool,
    stub_on_disk: bool,
    stub_is_old: bool,
)
    ensures
        ({
            let row = stub_row(registered, load_error, target_on_disk, stub_on_disk, stub_is_old);
            let sound = registered && !load_error && target_on_disk;
            &&& operation_of(row) == StubOperation::Copy <==> sound && (!stub_on_disk || stub_is_old)
            &&& operation_of(row) == StubOperation::Remove <==> !sound && stub_on_disk
            &&& !stub_on_disk ==> row == stub_row(
                registered,
                load_error,
                target_on_disk,
                false,
                !stub_is_old,
            )
        }),
{
}

/// A fix settles. Once what a row asks for is done, so that a stub that
/// was to be removed is gone and a stub that was to be copied is there and
/// as new as the launcher, the row for the same tag asks for nothing more.
pub proof fn lemma_fix_settles(
    registered: bool,
    load_error: bool,
    target_on_disk: bool,
    stub_on_disk: bool,
    stub_is_old: bool,
)
    ensures
        ({
            let done = operation_of(
                stub_row(registered, load_error, target_on_disk, stub_on_disk, stub_is_old),
            );
            let stub_then = match done {
                StubOperation::Remove => false,
                StubOperation::Copy => true,
                StubOperation::Keep => stub_on_disk,
            };
            let old_then = stub_is_old && done != StubOperation::Copy;
            operation_of(stub_row(registered, load_error, target_on_disk, stub_then, old_then))
                == StubOperation::Keep
        }),
{
}

/// The row for the given facts: see [`stub_row`].
pub fn decide(
    registered: bool,
    load_error: bool,
    target_on_disk: bool,
    stub_on_disk: bool,
    stub_is_old: bool,
) -> (r: FixRow)
    ensures
        r == stub_row(registered, load_error, target_on_disk, stub_on_disk, stub_is_old),
{
    if !registered {
        if stub_on_disk {
            FixRow::RemoveOrphanedStub
        } else {
            FixRow::NothingToDo
        }
    } else if load_error {
        if stub_on_disk {
            FixRow::RemoveBrokenStub
        } else {
            FixRow::ReportLoadError
        }
    } else if !target_on_disk {
        if stub_on_disk {
            FixRow::RemoveStubOfMissingTarget
        } else {
            FixRow::ReportTargetMissing
        }
    } else if !stub_on_disk {
        FixRow::CreateStub
    } else if stub_is_old {
        FixRow::UpdateStub
    } else {
        FixRow::UpToDate
    }
}

/// What the file system says about one tag at the moment of the fix.
#[derive(Clone, Copy)]
pub struct StubProbe {
    /// Whether the target of the tag's configuration is on disk; of no
    /// account where the tag has no target.
    pub target_on_disk: bool,
    /// When the installed launcher was modified; `None` where it cannot be
    /// read.
    pub launcher: Option<FileStamp>,
    /// When the stub was modified; `None` where there is no stub.
    pub stub: Option<FileStamp>,
}

/// Why a tag is not fixed.
#[derive(Clone, Copy, PartialEq, Eq, Structural, Debug)]
pub enum FixError {
    /// The tag is malformed.
    InvalidTag,
    /// The tag is one of the two reserved ones.
    ReservedTag,
    /// A stub is to be made and there is no installed launcher to copy.
    LauncherNotInstalled,
}

/// What to do for a tag, and what to report.
pub struct FixAction {
    /// The row of the decision table that applies.
    pub row: FixRow,
    /// Where the stub stands, or would stand.
    pub stub_path: String,
    /// The load error to report, for the two rows that report one.
    pub load_error: Option<String>,
}

/// The row for a tag in a repository under a probe, or the reason why the
/// tag is not fixed. A stub that is to be made needs an installed launcher.
pub open spec fn fix_outcome(
    repo: Map<Seq<char>, WexeEntryView>,
    tag: Seq<char>,
    probe: StubProbe,
) -> Result<FixRow, FixError> {
    if !is_app_tag(tag) {
        Err(FixError::InvalidTag)
    } else if is_reserved(tag) {
        Err(FixError::ReservedTag)
    } else {
        let registered = repo.contains_key(tag);
        let row = stub_row(
            registered,
            registered && repo[tag].load_error is Some,
            registered && repo[tag].target_exe_path is Some && probe.target_on_disk,
            probe.stub is Some,
            stale(probe.launcher, probe.stub),
        );
        if row == FixRow::CreateStub && probe.launcher is None {
            Err(FixError::LauncherNotInstalled)
        } else {
            Ok(row)
        }
    }
}

/// The load error that goes with a row: that of the tag's entry for the two
/// rows that report one.
pub open spec fn reported_error(
    repo: Map<Seq<char>, WexeEntryView>,
    tag: Seq<char>,
    row: FixRow,
) -> Option<Seq<char>> {
    if row == FixRow::RemoveBrokenStub || row == FixRow::ReportLoadError {
        repo[tag].load_error
    } else {
        None
    }
}

/// Whether a decision is the one for a tag in a repository under a probe:
/// the row or the error of [`fix_outcome`], with the path of the tag's stub
/// and the load error that goes with the row.
pub open spec fn is_fix_of(
    r: Result<FixAction, FixError>,
    repo: &WexeRepository,
    tag: Seq<char>,
    probe: StubProbe,
) -> bool {
    match r {
        Ok(action) => {
            &&& fix_outcome(repo@, tag, probe) == Ok::<FixRow, FixError>(action.row)
            &&& action.stub_path@ == joined_path(repo.folder(), stub_name(tag, repo.suffix()))
            &&& match action.load_error {
                Some(message) => reported_error(repo@, tag, action.row) == Some(message@),
                None => reported_error(repo@, tag, action.row) is None,
            }
        },
        Err(e) => fix_outcome(repo@, tag, probe) == Err::<FixRow, FixError>(e),
    }
}

/// Decides what to do for one tag: see [`fix_outcome`].
pub fn fix_tag(repo: &WexeRepository, tag: &str, probe: &StubProbe) -> (r: Result<
    FixAction,
    FixError,
>)
    ensures
        is_fix_of(r, repo, tag@, *probe),
{
    if !is_valid_app_tag(tag) {
        return Err(FixError::InvalidTag);
    }
    if is_reserved_tag(tag) {
        return Err(FixError::ReservedTag);
    }
    let stub_on_disk = probe.stub.is_some();
    let stub_is_old = target_missing_or_older(probe.launcher, probe.stub);
    let stub_path = repo.get_stub_path(tag);
    let (row, load_error) = match repo.find_entry(tag) {
        Some(entry) => {
            let failed = entry.get_load_error().is_some();
            let target = entry.target_exists(probe.target_on_disk);
            let row = decide(true, failed, target, stub_on_disk, stub_is_old);
            let message = if failed { entry.get_load_error().clone() } else { None };
            (row, message)
        },
        None => (decide(false, false, false, stub_on_disk, stub_is_old), None),
    };
    if row == FixRow::CreateStub && probe.launcher.is_none() {
        return Err(FixError::LauncherNotInstalled);
    }
    Ok(FixAction { row, stub_path, load_error })
}

/// A tag to fix, with what the file system says about it.
pub struct FixRequest {
    pub tag: String,
    pub probe: StubProbe,
}

/// Decides what to do for each tag of a batch, one by one and each for
/// itself: a tag that cannot be fixed does not stop the tags after it.
pub fn fix_tags(repo: &WexeRepository, requests: &Vec<FixRequest>) -> (r: Vec<
    Result<FixAction, FixError>,
>)
    ensures
        r.len() == requests.len(),
        forall|i: int|
            0 <= i < r.len() ==> is_fix_of(
                #[trigger] r[i],
                repo,
                requests[i].tag@,
                requests[i].probe,
            ),
{
    let mut r: Vec<Result<FixAction, FixError>> = Vec::new();
    let mut i: usize = 0;
    while i < requests.len()
        invariant
            i <= requests.len(),
            r.len() == i,
            forall|j: int|
                0 <= j < i ==> is_fix_of(
                    #[trigger] r[j],
                    repo,
                    requests[j].tag@,
                    requests[j].probe,
                ),
        decreases requests.len() - i,
    {
        let one = fix_tag(repo, requests[i].tag.as_str(), &requests[i].probe);
        r.push(one);
        i = i + 1;
    }
    r
}

/// A directory entry: its name, and whether it is a file.
pub struct DirFile {
    pub file_name: String,
    pub is_file: bool,
}

/// Whether a name is that of a stub but for upper-case letters before the
/// suffix: such a file is not looked at, and is worth a warning.
pub open spec fn upper_case_stub(name: Seq<char>, exe_suffix: Seq<char>) -> bool {
    stem_of(name, exe_suffix, true) matches Some(stem) && ascii_lowercase(stem) != stem
}

/// Whether a directory entry is a file named like a stub but for upper-case
/// letters: see [`upper_case_stub`].
pub fn is_upper_case_stub(file: &DirFile, exe_suffix: &str) -> (r: bool)
    ensures
        r == (file.is_file && upper_case_stub(file.file_name@, exe_suffix@)),
{
    if !file.is_file {
        return false;
    }
    match stem_of_file_name(file.file_name.as_str(), exe_suffix, true) {
        Some(stem) => !str_eq(to_ascii_lowercase(stem.as_str()).as_str(), stem.as_str()),
        None => false,
    }
}

/// Each comes before the next, so none occurs twice.
pub open spec fn strictly_ordered(tags: Seq<Seq<char>>) -> bool {
    forall|i: int, j: int| 0 <= i < j < tags.len() ==> seq_lt(#[trigger] tags[i], #[trigger] tags[j])
}

/// Some file of the listing is the stub of the tag: a file whose name is
/// the tag followed by the suffix of executables, in any case.
pub open spec fn has_stub_file(files: Seq<DirFile>, exe_suffix: Seq<char>, tag: Seq<char>) -> bool {
    exists|i: int|
        0 <= i < files.len() && (#[trigger] files[i]).is_file && file_tag(
            files[i].file_name@,
            exe_suffix,
            true,
        ) == Some(tag)
}

fn insert_tag(tags: &mut Vec<String>, tag: String)
    requires
        strictly_ordered(texts(old(tags)@)),
    ensures
        strictly_ordered(texts(final(tags)@)),
        forall|t: Seq<char>|
            texts(final(tags)@).contains(t) <==> texts(old(tags)@).contains(t) || t == tag@,
{
    let ghost before = texts(tags@);
    let mut at: usize = 0;
    while at < tags.len() && str_lt(tags[at].as_str(), tag.as_str())
        invariant
            at <= tags.len(),
            before == texts(tags@),
            forall|j: int| 0 <= j < at ==> seq_lt(#[trigger] before[j], tag@),
        decreases tags.len() - at,
    {
        assert(before[at as int] == tags@[at as int]@);
        at = at + 1;
    }
    if at < tags.len() {
        assert(before[at as int] == tags@[at as int]@);
        if str_eq(tags[at].as_str(), tag.as_str()) {
            assert forall|t: Seq<char>| before.contains(t) <==> before.contains(t) || t
                == tag@ by {
                if t == tag@ {
                    assert(before[at as int] == t);
                }
            }
            return ;
        }
    }
    proof {
        assert forall|j: int| at <= j < before.len() implies seq_lt(tag@, #[trigger] before[j]) by {
            lemma_seq_lt_total(tag@, before[j]);
            if j > at {
                assert(seq_lt(before[at as int], before[j]));
                if seq_lt(before[j], tag@) {
                    lemma_seq_lt_transitive(before[at as int], before[j], tag@);
                }
            }
        }
    }
    tags.insert(at, tag);
    proof {
        let after = texts(tags@);
        assert(after =~= before.insert(at as int, tag@));
        assert forall|a: int, b: int| 0 <= a < b < after.len() implies seq_lt(
            #[trigger] after[a],
            #[trigger] after[b],
        ) by {
            let a0 = if a < at { a } else { a - 1 };
            let b0 = if b < at { b } else { b - 1 };
            if a == at {
                assert(after[b] == before[b0]);
            } else if b == at {
                assert(after[a] == before[a0]);
            } else {
                assert(after[a] == before[a0] && after[b] == before[b0]);
            }
        }
        assert forall|t: Seq<char>| after.contains(t) <==> before.contains(t) || t == tag@ by {
            if after.contains(t) {
                let j = choose|j: int| 0 <= j < after.len() && after[j] == t;
                if j != at {
                    let j0 = if j < at { j } else { j - 1 };
                    assert(before[j0] == t);
                }
            }
            if before.contains(t) {
                let j = choose|j: int| 0 <= j < before.len() && before[j] == t;
                let j1 = if j < at { j } else { j + 1 };
                assert(after[j1] == t);
            }
            if t == tag@ {
                assert(after[at as int] == t);
            }
        }
    }
}

/// The tags that a fix of everything looks at: every registered tag, and
/// every tag whose stub stands in the listing of the configuration
/// directory, registered or not. They come in order, each once.
pub fn fix_all_tags(repo: &WexeRepository, files: &Vec<DirFile>) -> (r: Vec<String>)
    ensures
        strictly_ordered(texts(r@)),
        forall|t: Seq<char>|
            texts(r@).contains(t) <==> repo@.contains_key(t) || has_stub_file(
                files@,
                repo.suffix(),
                t,
            ),
{
    let mut r: Vec<String> = Vec::new();
    let entries = repo.get_entries();
    let suffix = repo.get_exe_suffix();
    proof {
        use_type_invariant(repo);
        repo.lemma_wf();
    }
    let mut i: usize = 0;
    while i < entries.len()
        invariant
            i <= entries.len(),
            entries.len() == repo.listing().len(),
            forall|k: int| 0 <= k < entries.len() ==> (#[trigger] entries[k])@ == repo.listing()[k],
            strictly_ordered(texts(r@)),
            forall|t: Seq<char>|
                texts(r@).contains(t) <==> exists|k: int|
                    0 <= k < i && (#[trigger] repo.listing()[k]).tag == t,
        decreases entries.len() - i,
    {
        let ghost before = texts(r@);
        insert_tag(&mut r, entries[i].get_tag().to_owned());
        proof {
            assert forall|t: Seq<char>| texts(r@).contains(t) <==> exists|k: int|
                0 <= k < i + 1 && (#[trigger] repo.listing()[k]).tag == t by {
                if before.contains(t) {
                    let k = choose|k: int| 0 <= k < i && (#[trigger] repo.listing()[k]).tag == t;
                    assert(0 <= k < i + 1 && repo.listing()[k].tag == t);
                }
                if t == entries[i as int]@.tag {
                    assert(repo.listing()[i as int].tag == t);
                }
                if exists|k: int| 0 <= k < i + 1 && (#[trigger] repo.listing()[k]).tag == t {
                    let k = choose|k: int|
                        0 <= k < i + 1 && (#[trigger] repo.listing()[k]).tag == t;
                    if k < i {
                        assert(before.contains(t));
                    }
                }
            }
        }
        i = i + 1;
    }
    proof {
        assert forall|t: Seq<char>| texts(r@).contains(t) <==> repo@.contains_key(t) by {
            if repo@.contains_key(t) {
                let k = choose|k: int|
                    0 <= k < repo.listing().len() && (#[trigger] repo.listing()[k]).tag == t;
                assert(0 <= k < i);
            }
            if texts(r@).contains(t) {
                let k = choose|k: int| 0 <= k < i && (#[trigger] repo.listing()[k]).tag == t;
                assert(repo@.contains_key(repo.listing()[k].tag));
            }
        }
    }
    let mut n: usize = 0;
    while n < files.len()
        invariant
            n <= files.len(),
            suffix@ == repo.suffix(),
            strictly_ordered(texts(r@)),
            forall|t: Seq<char>|
                texts(r@).contains(t) <==> repo@.contains_key(t) || has_stub_file(
                    files@.take(n as int),
                    repo.suffix(),
                    t,
                ),
        decreases files.len() - n,
    {
        let ghost before = texts(r@);
        let ghost seen = files@.take(n as int);
        let ghost next = files@.take(n + 1);
        let found = if files[n].is_file {
            tag_of_file_name(files[n].file_name.as_str(), suffix.as_str(), true)
        } else {
            None
        };
        proof {
            assert forall|t: Seq<char>|
                has_stub_file(next, repo.suffix(), t) <==> has_stub_file(seen, repo.suffix(), t) || (
                files@[n as int].is_file && file_tag(
                    files@[n as int].file_name@,
                    repo.suffix(),
                    true,
                ) == Some(t)) by {
                if has_stub_file(next, repo.suffix(), t) {
                    let k = choose|k: int|
                        0 <= k < next.len() && (#[trigger] next[k]).is_file && file_tag(
                            next[k].file_name@,
                            repo.suffix(),
                            true,
                        ) == Some(t);
                    if k < n {
                        assert(seen[k] == next[k]);
                    }
                }
                if has_stub_file(seen, repo.suffix(), t) {
                    let k = choose|k: int|
                        0 <= k < seen.len() && (#[trigger] seen[k]).is_file && file_tag(
                            seen[k].file_name@,
                            repo.suffix(),
                            true,
                        ) == Some(t);
                    assert(next[k] == seen[k]);
                }
                if files@[n as int].is_file && file_tag(
                    files@[n as int].file_name@,
                    repo.suffix(),
                    true,
                ) == Some(t) {
                    assert(next[n as int] == files@[n as int]);
                }
            }
        }
        if let Some(tag) = found {
            insert_tag(&mut r, tag);
        }
        n = n + 1;
    }
    assert(files@.take(files.len() as int) =~= files@);
    r
}

/// The option that asks for every tag.
pub const ALL_OPTION: &'static str = "-all";

/// What to fix.
pub enum FixCommandTargets {
    /// Every tag.
    All,
    /// The tags given, in the order given.
    Tags(Vec<String>),
}

/// The options of the `fix` command.
pub struct FixCommandOptions {
    pub targets: Option<FixCommandTargets>,
}

pub enum FixTargetsView {
    Unset,
    All,
    Tags(Seq<Seq<char>>),
}

/// Why the arguments of `fix` are refused. The argument in question is the
/// next one in the buffer.
#[derive(Clone, Copy, PartialEq, Eq, Structural, Debug)]
pub enum FixArgError {
    /// `-all` after another target.
    AllAfterTargets,
    /// The argument would be a tag in lower case.
    UpperCaseInTag,
    /// The argument starts with `-` and is no known option.
    UnrecognizedOption,
    /// The argument is neither `-all` nor a tag.
    NotATag,
    /// The argument is one of the two reserved tags.
    ReservedTag,
    /// A tag after `-all`.
    TagAfterAll,
}

/// The targets after one more argument, or why the argument is refused.
pub open spec fn fix_arg(targets: FixTargetsView, arg: Seq<char>) -> Result<
    FixTargetsView,
    FixArgError,
> {
    if arg == ALL_OPTION@ {
        if targets is Unset {
            Ok(FixTargetsView::All)
        } else {
            Err(FixArgError::AllAfterTargets)
        }
    } else if !is_app_tag(arg) {
        if is_app_tag(ascii_lowercase(arg)) {
            Err(FixArgError::UpperCaseInTag)
        } else if arg.len() > 0 && arg[0] == '-' {
            Err(FixArgError::UnrecognizedOption)
        } else {
            Err(FixArgError::NotATag)
        }
    } else if is_reserved(arg) {
        Err(FixArgError::ReservedTag)
    } else {
        match targets {
            FixTargetsView::Tags(tags) => Ok(FixTargetsView::Tags(tags.push(arg))),
            FixTargetsView::All => Err(FixArgError::TagAfterAll),
            FixTargetsView::Unset => Ok(FixTargetsView::Tags(seq![arg])),
        }
    }
}

/// What reading arguments gave: the targets, the number of arguments
/// consumed, and the error that stopped the reading, if one did.
pub struct FixArgsRead {
    pub targets: FixTargetsView,
    pub consumed: int,
    pub error: Option<FixArgError>,
}

/// Reading the arguments from the front, one by one, until one is refused.
pub open spec fn fix_args_read(targets: FixTargetsView, args: Seq<Seq<char>>) -> FixArgsRead
    decreases args.len(),
{
    if args.len() == 0 {
        FixArgsRead { targets, consumed: 0, error: None }
    } else {
        match fix_arg(targets, args[0]) {
            Err(e) => FixArgsRead { targets, consumed: 0, error: Some(e) },
            Ok(next) => {
                let rest = fix_args_read(next, args.skip(1));
                FixArgsRead {
                    targets: rest.targets,
                    consumed: rest.consumed + 1,
                    error: rest.error,
                }
            },
        }
    }
}

impl View for FixCommandOptions {
    type V = FixTargetsView;

    open spec fn view(&self) -> FixTargetsView {
        match self.targets {
            None => FixTargetsView::Unset,
            Some(FixCommandTargets::All) => FixTargetsView::All,
            Some(FixCommandTargets::Tags(tags)) => FixTargetsView::Tags(texts(tags@)),
        }
    }
}

fn starts_with_dash(arg: &str) -> (r: bool)
    ensures
        r == (arg@.len() > 0 && arg@[0] == '-'),
{
    let chars = chars_of(arg);
    chars.len() > 0 && chars[0] == '-'
}

impl FixCommandOptions {
    /// No target yet.
    pub fn new() -> (r: FixCommandOptions)
        ensures
            r@ is Unset,
    {
        FixCommandOptions { targets: None }
    }

    fn take_arg(&mut self, arg: &str) -> (r: Result<(), FixArgError>)
        ensures
            match r {
                Ok(()) => fix_arg(old(self)@, arg@) == Ok::<FixTargetsView, FixArgError>(
                    final(self)@,
                ),
                Err(e) => fix_arg(old(self)@, arg@) == Err::<FixTargetsView, FixArgError>(e)
                    && final(self)@ == old(self)@,
            },
    {
        if str_eq(arg, ALL_OPTION) {
            if self.targets.is_some() {
                return Err(FixArgError::AllAfterTargets);
            }
            self.targets = Some(FixCommandTargets::All);
            return Ok(());
        }
        if !is_valid_app_tag(arg) {
            if is_valid_app_tag(to_ascii_lowercase(arg).as_str()) {
                return Err(FixArgError::UpperCaseInTag);
            } else if starts_with_dash(arg) {
                return Err(FixArgError::UnrecognizedOption);
            } else {
                return Err(FixArgError::NotATag);
            }
        }
        if is_reserved_tag(arg) {
            return Err(FixArgError::ReservedTag);
        }
        match &mut self.targets {
            Some(FixCommandTargets::Tags(tags)) => {
                let ghost before = texts(tags@);
                tags.push(arg.to_owned());
                assert(texts(tags@) =~= before.push(arg@));
                Ok(())
            },
            Some(FixCommandTargets::All) => Err(FixArgError::TagAfterAll),
            None => {
                let mut tags: Vec<String> = Vec::new();
                tags.push(arg.to_owned());
                assert(texts(tags@) =~= seq![arg@]);
                self.targets = Some(FixCommandTargets::Tags(tags));
                Ok(())
            },
        }
    }

    /// Reads the arguments of the command from the buffer: `-all`, or tags
    /// that may be registered. Reading stops at the first argument that is
    /// refused, which stays in the buffer with all that follow it.
    pub fn parse_args(&mut self, args: &mut ArgumentsBuffer) -> (r: Result<(), FixArgError>)
        ensures
            ({
                let read = fix_args_read(old(self)@, old(args)@);
                &&& final(self)@ == read.targets
                &&& final(args)@ == old(args)@.skip(read.consumed)
                &&& match r {
                    Ok(()) => read.error is None,
                    Err(e) => read.error == Some(e),
                }
            }),
    {
        let ghost all = args@;
        let ghost start = self@;
        let ghost mut done: int = 0;
        assert(all.skip(0) =~= all);
        loop
            invariant
                0 <= done <= all.len(),
                all == old(args)@,
                start == old(self)@,
                args@ == all.skip(done),
                fix_args_read(start, all).targets == fix_args_read(self@, args@).targets,
                fix_args_read(start, all).consumed == fix_args_read(self@, args@).consumed + done,
                fix_args_read(start, all).error == fix_args_read(self@, args@).error,
            decreases all.len() - done,
        {
            let arg = match args.peek() {
                Some(arg) => arg,
                None => {
                    return Ok(());
                },
            };
            match self.take_arg(arg) {
                Ok(()) => {},
                Err(e) => {
                    return Err(e);
                },
            }
            args.skip(1);
            proof {
                assert(all.skip(done).skip(1) =~= all.skip(done + 1));
                done = done + 1;
            }
        }
    }
}

/// The `fix` command.
pub struct FixCommand {
    names: Vec<&'static str>,
}

impl FixCommand {
    #[verifier::type_invariant]
    spec fn holds_its_names(&self) -> bool {
        name_texts(self.names@) == kind_names(CommandKind::Fix)
    }

    /// The command under its names.
    pub fn new() -> (r: FixCommand)
        ensures
            r.names() == kind_names(CommandKind::Fix),
    {
        FixCommand { names: names_of(CommandKind::Fix) }
    }

    /// The names that the command holds, the primary one first.
    pub closed spec fn names(&self) -> Seq<Seq<char>> {
        name_texts(self.names@)
    }
}

impl Command for FixCommand {
    open spec fn kind(&self) -> CommandKind {
        CommandKind::Fix
    }

    fn name_and_aliases(&self) -> (r: &Vec<&'static str>) {
        proof {
            use_type_invariant(self);
        }
        &self.names
    }

    fn name(&self) -> (r: &'static str) {
        proof {
            use_type_invariant(self);
            assert(kind_names(CommandKind::Fix).len() > 0);
            assert(name_texts(self.names@)[0] == self.names@[0]@);
        }
        self.names[0]
    }
}

} // verus!
