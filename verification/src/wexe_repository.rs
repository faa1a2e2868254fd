//! The repository: every application registered in the configuration
//! directory, by tag, with the paths of its files.

use vstd::prelude::*;
use vstd::string::*;
use crate::config_model::{load_error_text, LoadError, WexeApp};
use crate::paths::{file_tag, joined_path, path_join, tag_of_file_name, CONFIG_SUFFIX};
use crate::tag::{is_app_tag, is_valid_app_tag, LAUNCHER_TAG, MANAGER_TAG};
use crate::text::{
    lemma_seq_lt_irreflexive, lemma_seq_lt_total, lemma_seq_lt_transitive, seq_lt, str_eq, str_lt,
};

verus! {

/// When a file was last modified: seconds since the start of 1970, and the
/// nanoseconds within the second.
#[derive(Clone, Copy)]
pub struct FileStamp {
    pub secs: i64,
    pub nanos: u32,
}

/// The number of nanoseconds in a second.
pub const NANOS_PER_SECOND: u32 = 1_000_000_000;

/// `a` is strictly later than `b`.
pub open spec fn later(a: FileStamp, b: FileStamp) -> bool {
    a.secs > b.secs || (a.secs == b.secs && a.nanos > b.nanos)
}

/// The moment of a stamp in nanoseconds since the start of 1970.
pub open spec fn moment(stamp: FileStamp) -> int {
    stamp.secs * NANOS_PER_SECOND + stamp.nanos
}

/// The stamp of a moment that lies a number of seconds and nanoseconds
/// after the start of 1970, or as much before it.
pub open spec fn stamp_at(after: bool, secs: u64, nanos: u32) -> Option<FileStamp> {
    if nanos >= NANOS_PER_SECOND || secs >= 0x7fff_ffff_ffff_ffff {
        None
    } else if after {
        Some(FileStamp { secs: secs as i64, nanos })
    } else if nanos == 0 {
        Some(FileStamp { secs: (-(secs as int)) as i64, nanos: 0 })
    } else {
        Some(
            FileStamp {
                secs: (-(secs as int) - 1) as i64,
                nanos: (NANOS_PER_SECOND - nanos) as u32,
            },
        )
    }
}

impl FileStamp {
    /// The nanoseconds stay within the second.
    pub open spec fn normal(self) -> bool {
        self.nanos < NANOS_PER_SECOND
    }

    /// The stamp of a moment given by its distance from the start of 1970
    /// and by whether it lies after it: the way in which a system hands a
    /// time out. `None` where the nanoseconds do not stay within the second
    /// or the seconds are too many to count.
    pub fn at(after: bool, secs: u64, nanos: u32) -> (r: Option<FileStamp>)
        ensures
            r == stamp_at(after, secs, nanos),
            r matches Some(stamp) ==> stamp.normal() && moment(stamp) == (if after {
                secs * NANOS_PER_SECOND + nanos
            } else {
                -(secs * NANOS_PER_SECOND + nanos)
            }),
    {
        if nanos >= NANOS_PER_SECOND || secs >= 0x7fff_ffff_ffff_ffff {
            return None;
        }
        let whole: i64 = secs as i64;
        if after {
            Some(FileStamp { secs: whole, nanos })
        } else if nanos == 0 {
            Some(FileStamp { secs: -whole, nanos: 0 })
        } else {
            assert((-(secs as int) - 1) * NANOS_PER_SECOND + (NANOS_PER_SECOND - nanos) == -(secs
                * NANOS_PER_SECOND + nanos)) by (nonlinear_arith);
            Some(FileStamp { secs: -whole - 1, nanos: NANOS_PER_SECOND - nanos })
        }
    }
}

/// Stamps are ordered as their moments are: of two stamps whose
/// nanoseconds stay within the second, one is later than the other just
/// when its moment is.
pub proof fn lemma_later_is_time_order(a: FileStamp, b: FileStamp)
    requires
        a.normal(),
        b.normal(),
    ensures
        later(a, b) <==> moment(a) > moment(b),
{
    assert(a.secs > b.secs ==> a.secs * NANOS_PER_SECOND >= b.secs * NANOS_PER_SECOND
        + NANOS_PER_SECOND) by (nonlinear_arith);
    assert(a.secs < b.secs ==> a.secs * NANOS_PER_SECOND + NANOS_PER_SECOND <= b.secs
        * NANOS_PER_SECOND) by (nonlinear_arith);
}

/// Whether a copy is stale: its source can be read and the copy is missing,
/// or older than the source. Where the source cannot be read nothing is
/// stale: no update can be justified.
pub open spec fn stale(source: Option<FileStamp>, target: Option<FileStamp>) -> bool {
    match (source, target) {
        (Some(s), Some(t)) => later(s, t),
        (Some(_), None) => true,
        (None, _) => false,
    }
}

/// Whether `target`, a copy of `source`, is missing or older than it, from
/// the modification times of the two files, `None` for a file that cannot
/// be read: see [`stale`].
pub fn target_missing_or_older(source: Option<FileStamp>, target: Option<FileStamp>) -> (r: bool)
    ensures
        r == stale(source, target),
{
    match source {
        Some(s) => match target {
            Some(t) => s.secs > t.secs || (s.secs == t.secs && s.nanos > t.nanos),
            None => true,
        },
        None => false,
    }
}

/// One registered application.
pub struct WexeEntry {
    pub tag: String,
    stub_exe_path: String,
    cfg_path: String,
    target_exe_path: Option<String>,
    load_error: Option<String>,
}

pub struct WexeEntryView {
    pub tag: Seq<char>,
    pub stub_exe_path: Seq<char>,
    pub cfg_path: Seq<char>,
    pub target_exe_path: Option<Seq<char>>,
    pub load_error: Option<Seq<char>>,
}

impl View for WexeEntry {
    type V = WexeEntryView;

    closed spec fn view(&self) -> WexeEntryView {
        WexeEntryView {
            tag: self.tag@,
            stub_exe_path: self.stub_exe_path@,
            cfg_path: self.cfg_path@,
            target_exe_path: match self.target_exe_path {
                Some(path) => Some(path@),
                None => None,
            },
            load_error: match self.load_error {
                Some(message) => Some(message@),
                None => None,
            },
        }
    }
}

impl WexeEntryView {
    /// An entry holds a target or a load error, never both and never
    /// neither.
    pub open spec fn wf(self) -> bool {
        self.target_exe_path is Some <==> self.load_error is None
    }
}

/// The name of the stub of a tag.
pub open spec fn stub_name(tag: Seq<char>, exe_suffix: Seq<char>) -> Seq<char> {
    tag + exe_suffix
}

/// The name of the configuration file of a tag.
pub open spec fn config_name(tag: Seq<char>) -> Seq<char> {
    tag + CONFIG_SUFFIX@
}

/// What loading a configuration gave, as far as an entry keeps it: the
/// target, or the message of the error.
pub open spec fn outcome_view(outcome: Result<WexeApp, LoadError>) -> Result<Seq<char>, Seq<char>> {
    match outcome {
        Ok(app) => Ok(app@.target),
        Err(e) => Err(load_error_text(e)),
    }
}

/// The entry of a tag in a folder.
pub open spec fn entry_for(
    folder: Seq<char>,
    exe_suffix: Seq<char>,
    tag: Seq<char>,
    outcome: Result<Seq<char>, Seq<char>>,
) -> WexeEntryView {
    WexeEntryView {
        tag,
        stub_exe_path: joined_path(folder, stub_name(tag, exe_suffix)),
        cfg_path: joined_path(folder, config_name(tag)),
        target_exe_path: match outcome {
            Ok(target) => Some(target),
            Err(_) => None,
        },
        load_error: match outcome {
            Ok(_) => None,
            Err(message) => Some(message),
        },
    }
}

impl WexeEntry {
    /// The tag the application is registered under.
    pub fn get_tag(&self) -> (r: &str)
        ensures
            r@ == self@.tag,
    {
        self.tag.as_str()
    }

    /// Where the stub of the application stands, or would stand.
    pub fn get_stub_exe_path(&self) -> (r: &String)
        ensures
            r@ == self@.stub_exe_path,
    {
        &self.stub_exe_path
    }

    /// Where the configuration of the application was found.
    pub fn get_cfg_path(&self) -> (r: &String)
        ensures
            r@ == self@.cfg_path,
    {
        &self.cfg_path
    }

    /// The target of the application, where its configuration loaded.
    pub fn get_target_exe_path(&self) -> (r: &Option<String>)
        ensures
            match *r {
                Some(path) => self@.target_exe_path == Some(path@),
                None => self@.target_exe_path is None,
            },
    {
        &self.target_exe_path
    }

    /// Why the configuration did not load, where it did not.
    pub fn get_load_error(&self) -> (r: &Option<String>)
        ensures
            match *r {
                Some(message) => self@.load_error == Some(message@),
                None => self@.load_error is None,
            },
    {
        &self.load_error
    }

    /// Whether the application can be run now: it has a target, and the
    /// target is on disk at this moment, which the caller has just looked up.
    pub fn target_exists(&self, target_on_disk: bool) -> (r: bool)
        ensures
            r == (self@.target_exe_path is Some && target_on_disk),
    {
        self.target_exe_path.is_some() && target_on_disk
    }
}

/// A configuration file that was found under the name of a tag, with what
/// loading it gave.
pub struct LoadedConfig {
    pub tag: String,
    pub outcome: Result<WexeApp, LoadError>,
}

/// The entries stand in the order of their tags, no tag twice.
pub open spec fn ordered(listing: Seq<WexeEntryView>) -> bool {
    forall|i: int, j: int|
        0 <= i < j < listing.len() ==> seq_lt((#[trigger] listing[i]).tag, (#[trigger] listing[j]).tag)
}

/// Some entry has the tag.
pub open spec fn has_tag(listing: Seq<WexeEntryView>, tag: Seq<char>) -> bool {
    exists|i: int| 0 <= i < listing.len() && (#[trigger] listing[i]).tag == tag
}

/// The entry with the tag, where there is one.
pub open spec fn entry_of(listing: Seq<WexeEntryView>, tag: Seq<char>) -> WexeEntryView {
    let i = choose|i: int| 0 <= i < listing.len() && (#[trigger] listing[i]).tag == tag;
    listing[i]
}

/// The entries as a mapping from tag to entry.
pub open spec fn by_tag(listing: Seq<WexeEntryView>) -> Map<Seq<char>, WexeEntryView> {
    Map::new(|tag: Seq<char>| has_tag(listing, tag), |tag: Seq<char>| entry_of(listing, tag))
}

/// The mapping that a scan gives: the configurations in the order in which
/// they were found, each under its tag, a later one in the place of an
/// earlier one with the same tag. What was found under a name that is no
/// tag is passed over.
pub open spec fn scanned(
    folder: Seq<char>,
    exe_suffix: Seq<char>,
    found: Seq<(Seq<char>, Result<Seq<char>, Seq<char>>)>,
) -> Map<Seq<char>, WexeEntryView>
    decreases found.len(),
{
    if found.len() == 0 {
        Map::empty()
    } else {
        let before = scanned(folder, exe_suffix, found.drop_last());
        let (tag, outcome) = found.last();
        if is_app_tag(tag) {
            before.insert(tag, entry_for(folder, exe_suffix, tag, outcome))
        } else {
            before
        }
    }
}

/// Loaded configurations as plain values.
pub open spec fn found_view(found: Seq<LoadedConfig>) -> Seq<
    (Seq<char>, Result<Seq<char>, Seq<char>>),
> {
    found.map_values(|c: LoadedConfig| (c.tag@, outcome_view(c.outcome)))
}

/// The view of each entry.
pub open spec fn entry_views(entries: Seq<WexeEntry>) -> Seq<WexeEntryView> {
    entries.map_values(|e: WexeEntry| e@)
}

/// The registered applications of one configuration directory.
pub struct WexeRepository {
    config_folder: String,
    exe_suffix: String,
    wexe_exe_path: String,
    wexecfg_exe_path: String,
    entries: Vec<WexeEntry>,
}

proof fn lemma_ordered_entry(listing: Seq<WexeEntryView>, i: int)
    requires
        ordered(listing),
        0 <= i < listing.len(),
    ensures
        has_tag(listing, listing[i].tag),
        entry_of(listing, listing[i].tag) == listing[i],
{
    let tag = listing[i].tag;
    let k = choose|k: int| 0 <= k < listing.len() && (#[trigger] listing[k]).tag == tag;
    lemma_seq_lt_irreflexive(tag);
    if k < i {
        assert(seq_lt(listing[k].tag, listing[i].tag));
    } else if i < k {
        assert(seq_lt(listing[i].tag, listing[k].tag));
    }
}

impl WexeRepository {
    /// The entries in order, as plain values.
    pub closed spec fn listing(&self) -> Seq<WexeEntryView> {
        entry_views(self.entries@)
    }

    /// The directory the repository describes.
    pub closed spec fn folder(&self) -> Seq<char> {
        self.config_folder@
    }

    /// The suffix of executable files, the dot included: empty where
    /// executables have none.
    pub closed spec fn suffix(&self) -> Seq<char> {
        self.exe_suffix@
    }

    /// The repository is sound: its entries stand in the order of their
    /// tags, each under a legal tag, with a target or a load error, and
    /// every path is the path of its file inside the folder. This holds of
    /// every repository.
    #[verifier::type_invariant]
    pub closed spec fn wf(&self) -> bool {
        &&& ordered(self.listing())
        &&& forall|i: int|
            0 <= i < self.listing().len() ==> {
                let e = #[trigger] self.listing()[i];
                &&& is_app_tag(e.tag)
                &&& e.wf()
                &&& e.stub_exe_path == joined_path(self.folder(), stub_name(e.tag, self.suffix()))
                &&& e.cfg_path == joined_path(self.folder(), config_name(e.tag))
            }
        &&& self.wexe_exe_path@ == joined_path(self.folder(), stub_name(LAUNCHER_TAG@, self.suffix()))
        &&& self.wexecfg_exe_path@ == joined_path(
            self.folder(),
            stub_name(MANAGER_TAG@, self.suffix()),
        )
    }

    /// What soundness says to those who cannot see inside.
    pub proof fn lemma_wf(&self)
        requires
            self.wf(),
        ensures
            ordered(self.listing()),
            forall|i: int|
                0 <= i < self.listing().len() ==> {
                    let e = #[trigger] self.listing()[i];
                    &&& is_app_tag(e.tag)
                    &&& e.wf()
                    &&& e.stub_exe_path == joined_path(
                        self.folder(),
                        stub_name(e.tag, self.suffix()),
                    )
                    &&& e.cfg_path == joined_path(self.folder(), config_name(e.tag))
                    &&& self@.contains_key(e.tag)
                    &&& self@[e.tag] == e
                },
            forall|tag: Seq<char>| #[trigger]
                self@.contains_key(tag) ==> has_tag(self.listing(), tag) && is_app_tag(tag)
                    && self@[tag].tag == tag,
    {
        let listing = self.listing();
        assert forall|i: int| 0 <= i < listing.len() implies self@.contains_key(
            (#[trigger] listing[i]).tag,
        ) && self@[listing[i].tag] == listing[i] by {
            lemma_ordered_entry(listing, i);
        }
        assert forall|tag: Seq<char>| #[trigger] self@.contains_key(tag) implies has_tag(
            listing,
            tag,
        ) && is_app_tag(tag) && self@[tag].tag == tag by {
            let i = choose|i: int| 0 <= i < listing.len() && (#[trigger] listing[i]).tag == tag;
            lemma_ordered_entry(listing, i);
        }
    }

    /// The first position whose tag does not come before `tag`.
    fn lower_bound(&self, tag: &str) -> (r: usize)
        requires
            ordered(self.listing()),
        ensures
            r <= self.entries.len(),
            forall|j: int| 0 <= j < r ==> seq_lt((#[trigger] self.listing()[j]).tag, tag@),
            forall|j: int|
                r <= j < self.entries.len() ==> !seq_lt((#[trigger] self.listing()[j]).tag, tag@),
    {
        let mut lo: usize = 0;
        let mut hi: usize = self.entries.len();
        while lo < hi
            invariant
                lo <= hi <= self.entries.len(),
                ordered(self.listing()),
                self.listing().len() == self.entries.len(),
                forall|j: int| 0 <= j < lo ==> seq_lt((#[trigger] self.listing()[j]).tag, tag@),
                forall|j: int|
                    hi <= j < self.entries.len() ==> !seq_lt(
                        (#[trigger] self.listing()[j]).tag,
                        tag@,
                    ),
            decreases hi - lo,
        {
            let mid: usize = lo + (hi - lo) / 2;
            assert(self.listing()[mid as int].tag == self.entries@[mid as int].tag@);
            if str_lt(self.entries[mid].tag.as_str(), tag) {
                assert forall|j: int| 0 <= j < mid + 1 implies seq_lt(
                    (#[trigger] self.listing()[j]).tag,
                    tag@,
                ) by {
                    if j < mid {
                        lemma_seq_lt_transitive(
                            self.listing()[j].tag,
                            self.listing()[mid as int].tag,
                            tag@,
                        );
                    }
                }
                lo = mid + 1;
            } else {
                assert forall|j: int| mid <= j < self.entries.len() implies !seq_lt(
                    (#[trigger] self.listing()[j]).tag,
                    tag@,
                ) by {
                    if mid < j && seq_lt(self.listing()[j].tag, tag@) {
                        lemma_seq_lt_transitive(
                            self.listing()[mid as int].tag,
                            self.listing()[j].tag,
                            tag@,
                        );
                    }
                }
                hi = mid;
            }
        }
        lo
    }

    /// The entry of a tag, if the tag is registered.
    pub fn find_entry(&self, tag: &str) -> (r: Option<&WexeEntry>)
        ensures
            match r {
                Some(entry) => self@.contains_key(tag@) && self@[tag@] == entry@,
                None => !self@.contains_key(tag@),
            },
    {
        proof {
            use_type_invariant(self);
        }
        let at = self.lower_bound(tag);
        if at < self.entries.len() {
            assert(self.listing()[at as int] == self.entries@[at as int]@);
            if str_eq(self.entries[at].tag.as_str(), tag) {
                proof {
                    lemma_ordered_entry(self.listing(), at as int);
                }
                return Some(&self.entries[at]);
            }
        }
        proof {
            if has_tag(self.listing(), tag@) {
                let k = choose|k: int|
                    0 <= k < self.listing().len() && (#[trigger] self.listing()[k]).tag == tag@;
                lemma_seq_lt_irreflexive(tag@);
                if k < at {
                    assert(seq_lt(self.listing()[k].tag, tag@));
                } else if k > at {
                    assert(seq_lt(self.listing()[at as int].tag, self.listing()[k].tag));
                    assert(!seq_lt(self.listing()[at as int].tag, tag@));
                }
            }
        }
        None
    }
}

impl View for WexeRepository {
    type V = Map<Seq<char>, WexeEntryView>;

    closed spec fn view(&self) -> Map<Seq<char>, WexeEntryView> {
        by_tag(self.listing())
    }
}

proof fn lemma_insert_entry(before: Seq<WexeEntryView>, at: int, e: WexeEntryView)
    requires
        ordered(before),
        0 <= at <= before.len(),
        forall|j: int| 0 <= j < at ==> seq_lt((#[trigger] before[j]).tag, e.tag),
        forall|j: int| at <= j < before.len() ==> seq_lt(e.tag, (#[trigger] before[j]).tag),
    ensures
        ordered(before.insert(at, e)),
        by_tag(before.insert(at, e)) == by_tag(before).insert(e.tag, e),
{
    let after = before.insert(at, e);
    assert forall|a: int, b: int| 0 <= a < b < after.len() implies seq_lt(
        (#[trigger] after[a]).tag,
        (#[trigger] after[b]).tag,
    ) by {
        let a0 = if a < at { a } else { a - 1 };
        let b0 = if b < at { b } else { b - 1 };
        if a == at {
            assert(after[b] == before[b0]);
        } else if b == at {
            assert(after[a] == before[a0]);
        } else {
            assert(after[a] == before[a0] && after[b] == before[b0]);
        }
    }
    assert forall|k: Seq<char>| has_tag(after, k) <==> (has_tag(before, k) || k == e.tag) by {
        if has_tag(after, k) {
            let j = choose|j: int| 0 <= j < after.len() && (#[trigger] after[j]).tag == k;
            if j != at {
                let j0 = if j < at { j } else { j - 1 };
                assert(before[j0].tag == k);
            }
        }
        if has_tag(before, k) {
            let j = choose|j: int| 0 <= j < before.len() && (#[trigger] before[j]).tag == k;
            let j1 = if j < at { j } else { j + 1 };
            assert(after[j1].tag == k);
        }
        if k == e.tag {
            assert(after[at].tag == k);
        }
    }
    assert forall|k: Seq<char>| has_tag(after, k) implies entry_of(after, k) == (if k == e.tag {
        e
    } else {
        entry_of(before, k)
    }) by {
        let j = choose|j: int| 0 <= j < after.len() && (#[trigger] after[j]).tag == k;
        lemma_ordered_entry(after, j);
        if k == e.tag {
            lemma_ordered_entry(after, at);
        } else {
            let j0 = if j < at { j } else { j - 1 };
            assert(before[j0] == after[j]);
            lemma_ordered_entry(before, j0);
        }
    }
    assert(by_tag(after) =~= by_tag(before).insert(e.tag, e));
}

proof fn lemma_replace_entry(before: Seq<WexeEntryView>, at: int, e: WexeEntryView)
    requires
        ordered(before),
        0 <= at < before.len(),
        before[at].tag == e.tag,
    ensures
        ordered(before.update(at, e)),
        by_tag(before.update(at, e)) == by_tag(before).insert(e.tag, e),
{
    let after = before.update(at, e);
    assert forall|a: int, b: int| 0 <= a < b < after.len() implies seq_lt(
        (#[trigger] after[a]).tag,
        (#[trigger] after[b]).tag,
    ) by {
        assert(seq_lt(before[a].tag, before[b].tag));
    }
    assert forall|k: Seq<char>| has_tag(after, k) <==> (has_tag(before, k) || k == e.tag) by {
        if has_tag(after, k) {
            let j = choose|j: int| 0 <= j < after.len() && (#[trigger] after[j]).tag == k;
            assert(before[j].tag == k);
        }
        if has_tag(before, k) {
            let j = choose|j: int| 0 <= j < before.len() && (#[trigger] before[j]).tag == k;
            assert(after[j].tag == k);
        }
        if k == e.tag {
            assert(after[at].tag == k);
        }
    }
    assert forall|k: Seq<char>| has_tag(after, k) implies entry_of(after, k) == (if k == e.tag {
        e
    } else {
        entry_of(before, k)
    }) by {
        let j = choose|j: int| 0 <= j < after.len() && (#[trigger] after[j]).tag == k;
        lemma_ordered_entry(after, j);
        if k == e.tag {
            lemma_ordered_entry(after, at);
        } else {
            assert(before[j] == after[j]);
            lemma_ordered_entry(before, j);
        }
    }
    assert(by_tag(after) =~= by_tag(before).insert(e.tag, e));
}

/// The name of a tag's stub: the tag and the suffix of executables.
pub fn stub_file_name(tag: &str, exe_suffix: &str) -> (r: String)
    ensures
        r@ == stub_name(tag@, exe_suffix@),
{
    let mut name = tag.to_owned();
    name.append(exe_suffix);
    name
}

/// The name of a tag's configuration file.
pub fn config_file_name(tag: &str) -> (r: String)
    ensures
        r@ == config_name(tag@),
{
    let mut name = tag.to_owned();
    name.append(CONFIG_SUFFIX);
    name
}

/// The tag whose configuration a directory entry holds: the entry is a file
/// and its name is a tag followed by the suffix of configuration files.
/// Every other entry is none of the repository's business.
pub fn config_file_tag(file_name: &str, is_file: bool) -> (r: Option<String>)
    ensures
        match r {
            Some(tag) => is_file && file_tag(file_name@, CONFIG_SUFFIX@, false) == Some(tag@),
            None => !is_file || file_tag(file_name@, CONFIG_SUFFIX@, false) is None,
        },
{
    if is_file {
        tag_of_file_name(file_name, CONFIG_SUFFIX, false)
    } else {
        None
    }
}

impl WexeRepository {
    fn put(&mut self, entry: WexeEntry)
        requires
            is_app_tag(entry@.tag),
            entry@.wf(),
            entry@.stub_exe_path == joined_path(
                old(self).folder(),
                stub_name(entry@.tag, old(self).suffix()),
            ),
            entry@.cfg_path == joined_path(old(self).folder(), config_name(entry@.tag)),
        ensures
            final(self).folder() == old(self).folder(),
            final(self).suffix() == old(self).suffix(),
            final(self)@ == old(self)@.insert(entry@.tag, entry@),
    {
        proof {
            use_type_invariant(&*self);
        }
        let ghost before = self.listing();
        let ghost e = entry@;
        let at = self.lower_bound(entry.tag.as_str());
        let mut same = false;
        if at < self.entries.len() {
            assert(before[at as int] == self.entries@[at as int]@);
            same = str_eq(self.entries[at].tag.as_str(), entry.tag.as_str());
        }
        let mut entries: Vec<WexeEntry> = Vec::new();
        std::mem::swap(&mut self.entries, &mut entries);
        if same {
            entries.set(at, entry);
            proof {
                assert(entry_views(entries@) =~= before.update(at as int, e));
                lemma_replace_entry(before, at as int, e);
            }
        } else {
            proof {
                assert forall|j: int| at <= j < before.len() implies seq_lt(
                    e.tag,
                    (#[trigger] before[j]).tag,
                ) by {
                    lemma_seq_lt_total(e.tag, before[j].tag);
                    if before[j].tag == e.tag {
                        assert(seq_lt(before[at as int].tag, before[j].tag));
                    }
                }
            }
            entries.insert(at, entry);
            proof {
                assert(entry_views(entries@) =~= before.insert(at as int, e));
                lemma_insert_entry(before, at as int, e);
            }
        }
        proof {
            let after = entry_views(entries@);
            assert forall|i: int| 0 <= i < after.len() implies {
                let x = #[trigger] after[i];
                &&& is_app_tag(x.tag)
                &&& x.wf()
                &&& x.stub_exe_path == joined_path(self.folder(), stub_name(x.tag, self.suffix()))
                &&& x.cfg_path == joined_path(self.folder(), config_name(x.tag))
            } by {
                if same {
                    if i != at {
                        assert(after[i] == before[i]);
                    }
                } else if i < at {
                    assert(after[i] == before[i]);
                } else if i > at {
                    assert(after[i] == before[i - 1]);
                }
            }
        }
        self.entries = entries;
    }

    /// The repository of a configuration directory, from the configuration
    /// files that a listing of the directory found and what loading each
    /// gave. An entry keeps the target of a configuration that loaded and
    /// the message of one that did not.
    pub fn new(config_folder: &str, exe_suffix: &str, found: &Vec<LoadedConfig>) -> (r:
        WexeRepository)
        ensures
            r.folder() == config_folder@,
            r.suffix() == exe_suffix@,
            r@ == scanned(config_folder@, exe_suffix@, found_view(found@)),
    {
        let mut r = WexeRepository {
            config_folder: config_folder.to_owned(),
            exe_suffix: exe_suffix.to_owned(),
            wexe_exe_path: path_join(config_folder, stub_file_name(LAUNCHER_TAG, exe_suffix).as_str()),
            wexecfg_exe_path: path_join(
                config_folder,
                stub_file_name(MANAGER_TAG, exe_suffix).as_str(),
            ),
            entries: Vec::new(),
        };
        let ghost all = found_view(found@);
        proof {
            assert(all.take(0) =~= Seq::empty());
            assert(r@ =~= Map::<Seq<char>, WexeEntryView>::empty());
        }
        let mut i: usize = 0;
        while i < found.len()
            invariant
                i <= found.len(),
                all == found_view(found@),
                r.folder() == config_folder@,
                r.suffix() == exe_suffix@,
                r@ == scanned(config_folder@, exe_suffix@, all.take(i as int)),
            decreases found.len() - i,
        {
            proof {
                let next = all.take(i + 1);
                assert(next.drop_last() =~= all.take(i as int));
                assert(next.last() == (found@[i as int].tag@, outcome_view(found@[i as int].outcome)));
            }
            let tag = found[i].tag.as_str();
            if is_valid_app_tag(tag) {
                let entry = match &found[i].outcome {
                    Ok(app) => WexeEntry {
                        tag: tag.to_owned(),
                        stub_exe_path: path_join(
                            config_folder,
                            stub_file_name(tag, exe_suffix).as_str(),
                        ),
                        cfg_path: path_join(config_folder, config_file_name(tag).as_str()),
                        target_exe_path: Some(app.target.clone()),
                        load_error: None,
                    },
                    Err(e) => WexeEntry {
                        tag: tag.to_owned(),
                        stub_exe_path: path_join(
                            config_folder,
                            stub_file_name(tag, exe_suffix).as_str(),
                        ),
                        cfg_path: path_join(config_folder, config_file_name(tag).as_str()),
                        target_exe_path: None,
                        load_error: Some(e.message()),
                    },
                };
                assert(entry@ == entry_for(
                    config_folder@,
                    exe_suffix@,
                    tag@,
                    outcome_view(found@[i as int].outcome),
                ));
                r.put(entry);
            }
            i = i + 1;
        }
        assert(all.take(found.len() as int) =~= all);
        r
    }

    /// The directory in which configuration files and stubs are kept.
    pub fn get_config_folder(&self) -> (r: &String)
        ensures
            r@ == self.folder(),
    {
        &self.config_folder
    }

    /// The suffix of executable files that the repository was made with.
    pub fn get_exe_suffix(&self) -> (r: &String)
        ensures
            r@ == self.suffix(),
    {
        &self.exe_suffix
    }

    /// Where the installed launcher stands, or would stand.
    pub fn get_wexe_exe_path(&self) -> (r: &String)
        ensures
            r@ == joined_path(self.folder(), stub_name(LAUNCHER_TAG@, self.suffix())),
    {
        proof {
            use_type_invariant(self);
        }
        &self.wexe_exe_path
    }

    /// Where the installed management tool stands, or would stand.
    pub fn get_wexecfg_exe_path(&self) -> (r: &String)
        ensures
            r@ == joined_path(self.folder(), stub_name(MANAGER_TAG@, self.suffix())),
    {
        proof {
            use_type_invariant(self);
        }
        &self.wexecfg_exe_path
    }

    /// Every entry, in the order of the tags.
    pub fn get_entries(&self) -> (r: Vec<&WexeEntry>)
        ensures
            r.len() == self.listing().len(),
            forall|i: int| 0 <= i < r.len() ==> (#[trigger] r[i])@ == self.listing()[i],
    {
        let mut r: Vec<&WexeEntry> = Vec::new();
        let mut i: usize = 0;
        while i < self.entries.len()
            invariant
                i <= self.entries.len(),
                r.len() == i,
                forall|j: int| 0 <= j < i ==> (#[trigger] r[j])@ == self.listing()[j],
            decreases self.entries.len() - i,
        {
            r.push(&self.entries[i]);
            i = i + 1;
        }
        r
    }

    /// Where the stub of a tag stands, or would stand.
    pub fn get_stub_path(&self, tag: &str) -> (r: String)
        ensures
            r@ == joined_path(self.folder(), stub_name(tag@, self.suffix())),
    {
        path_join(self.config_folder.as_str(), stub_file_name(tag, self.exe_suffix.as_str()).as_str())
    }

    /// Where the configuration file of a tag stands, or would stand.
    pub fn get_config_path(&self, tag: &str) -> (r: String)
        ensures
            r@ == joined_path(self.folder(), config_name(tag@)),
    {
        path_join(self.config_folder.as_str(), config_file_name(tag).as_str())
    }
}

/// A scan keeps what it found: every configuration found under a legal tag
/// has an entry, the entry of the last one found under that tag, and there
/// is no entry for anything else.
pub proof fn lemma_scanned(
    folder: Seq<char>,
    exe_suffix: Seq<char>,
    found: Seq<(Seq<char>, Result<Seq<char>, Seq<char>>)>,
    tag: Seq<char>,
)
    ensures
        scanned(folder, exe_suffix, found).contains_key(tag) <==> is_app_tag(tag) && exists|i: int|
            0 <= i < found.len() && (#[trigger] found[i]).0 == tag,
        scanned(folder, exe_suffix, found).contains_key(tag) ==> exists|i: int|
            0 <= i < found.len() && (#[trigger] found[i]).0 == tag && scanned(
                folder,
                exe_suffix,
                found,
            )[tag] == entry_for(folder, exe_suffix, tag, found[i].1) && forall|j: int|
                i < j < found.len() ==> (#[trigger] found[j]).0 != tag,
    decreases found.len(),
{
    if found.len() > 0 {
        let front = found.drop_last();
        let last = found.len() - 1;
        lemma_scanned(folder, exe_suffix, front, tag);
        let m = scanned(folder, exe_suffix, found);
        if found[last].0 == tag && is_app_tag(tag) {
            assert(m[tag] == entry_for(folder, exe_suffix, tag, found[last].1));
        } else if scanned(folder, exe_suffix, front).contains_key(tag) {
            let i = choose|i: int|
                0 <= i < front.len() && (#[trigger] front[i]).0 == tag && scanned(
                    folder,
                    exe_suffix,
                    front,
                )[tag] == entry_for(folder, exe_suffix, tag, front[i].1) && forall|j: int|
                    i < j < front.len() ==> (#[trigger] front[j]).0 != tag;
            assert(found[i] == front[i]);
            assert forall|j: int| i < j < found.len() implies (#[trigger] found[j]).0 != tag by {
                if j < last {
                    assert(found[j] == front[j]);
                }
            }
        } else {
            if exists|i: int| 0 <= i < found.len() && (#[trigger] found[i]).0 == tag {
                let i = choose|i: int| 0 <= i < found.len() && (#[trigger] found[i]).0 == tag;
                if i < last {
                    assert(front[i].0 == tag);
                }
            }
        }
        if exists|i: int| 0 <= i < front.len() && (#[trigger] front[i]).0 == tag {
            let i = choose|i: int| 0 <= i < front.len() && (#[trigger] front[i]).0 == tag;
            assert(found[i].0 == tag);
        }
    }
}

} // verus!
