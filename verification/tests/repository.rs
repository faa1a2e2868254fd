use wexe::command_fix::{
    decide, fix_all_tags, fix_tag, fix_tags, is_upper_case_stub, DirFile, FixError, FixRequest,
    FixRow, StubProbe,
};
use wexe::config_model::{ConfigError, ListOps, LoadError, WexeApp};
use wexe::paths::{stem_of_file_name, tag_of_file_name};
use wexe::wexe_repository::{
    config_file_name, config_file_tag, stub_file_name, target_missing_or_older, FileStamp,
    LoadedConfig, WexeRepository,
};

const SEP: char = std::path::MAIN_SEPARATOR;

fn app(target: &str) -> WexeApp {
    WexeApp {
        target: target.to_string(),
        args: ListOps { prepend: vec![], append: vec![] },
        env_set: vec![],
        env_pathlike: vec![],
    }
}

fn loaded(tag: &str, target: &str) -> LoadedConfig {
    LoadedConfig { tag: tag.to_string(), outcome: Ok(app(target)) }
}

fn broken(tag: &str, message: &str) -> LoadedConfig {
    LoadedConfig { tag: tag.to_string(), outcome: Err(LoadError::Malformed(message.to_string())) }
}

fn at(secs: i64) -> Option<FileStamp> {
    Some(FileStamp { secs, nanos: 0 })
}

fn file(name: &str) -> DirFile {
    DirFile { file_name: name.to_string(), is_file: true }
}

fn in_dir(dir: &str, name: &str) -> String {
    format!("{}{}{}", dir, SEP, name)
}

fn tags(repo: &WexeRepository) -> Vec<String> {
    repo.get_entries().iter().map(|e| e.get_tag().to_string()).collect()
}

#[test]
fn only_files_named_after_a_tag_hold_a_configuration() {
    assert_eq!(config_file_tag("foo.toml", true), Some("foo".to_string()));
    assert_eq!(config_file_tag("foo-bar_2.toml", true), Some("foo-bar_2".to_string()));
    assert_eq!(config_file_tag("foo.TOML", true), None);
    assert_eq!(config_file_tag("Foo.toml", true), None);
    assert_eq!(config_file_tag("foo.toml", false), None);
    assert_eq!(config_file_tag("foo.toml.bak", true), None);
    assert_eq!(config_file_tag("foo.bar.toml", true), None);
    assert_eq!(config_file_tag(".toml", true), None);
    assert_eq!(config_file_tag("toml", true), None);
    assert_eq!(config_file_tag("foo", true), None);
    assert_eq!(config_file_tag("", true), None);
}

#[test]
fn a_stub_is_named_after_its_tag() {
    assert_eq!(tag_of_file_name("bar.exe", ".exe", true), Some("bar".to_string()));
    assert_eq!(tag_of_file_name("bar.EXE", ".exe", true), Some("bar".to_string()));
    assert_eq!(tag_of_file_name("Bar.exe", ".exe", true), None);
    assert_eq!(tag_of_file_name("bar", ".exe", true), None);
    assert_eq!(tag_of_file_name("bar", "", true), Some("bar".to_string()));
    assert_eq!(tag_of_file_name("bar.toml", "", true), None);
    assert_eq!(tag_of_file_name("bar.EXE", ".exe", false), None);
    assert_eq!(tag_of_file_name("bar.exe", ".exe", false), Some("bar".to_string()));
    assert_eq!(stub_file_name("bar", ".exe"), "bar.exe");
    assert_eq!(stub_file_name("bar", ""), "bar");
    assert_eq!(config_file_name("bar"), "bar.toml");
}

#[test]
fn entries_come_in_the_order_of_their_tags() {
    let found = vec![
        loaded("zeta", "/z"),
        loaded("alpha", "/a"),
        loaded("mid-1", "/m1"),
        loaded("mid", "/m"),
        loaded("alpha2", "/a2"),
        loaded("b_c", "/bc"),
        loaded("b-c", "/b-c"),
    ];
    let repo = WexeRepository::new("/cfg", ".exe", &found);
    assert_eq!(tags(&repo), vec!["alpha", "alpha2", "b-c", "b_c", "mid", "mid-1", "zeta"]);
}

#[test]
fn a_later_configuration_takes_the_place_of_an_earlier_one() {
    let found = vec![loaded("foo", "/first"), loaded("bar", "/bar"), loaded("foo", "/second")];
    let repo = WexeRepository::new("/cfg", "", &found);
    assert_eq!(tags(&repo), vec!["bar", "foo"]);
    let foo = repo.find_entry("foo").expect("registered");
    assert_eq!(foo.get_target_exe_path(), &Some("/second".to_string()));
}

#[test]
fn what_was_found_under_no_tag_is_passed_over() {
    let found = vec![loaded("Foo", "/x"), loaded("", "/y"), loaded("ok", "/z"), loaded("a.b", "/w")];
    let repo = WexeRepository::new("/cfg", "", &found);
    assert_eq!(tags(&repo), vec!["ok"]);
}

#[test]
fn an_entry_holds_its_paths_and_its_target_or_its_error() {
    let found = vec![
        loaded("foo", "/bin/true"),
        broken("bad", "expected `=`"),
        LoadedConfig {
            tag: "rel".to_string(),
            outcome: Err(LoadError::Invalid(ConfigError::TargetNotAbsolute {
                target: "tool".to_string(),
            })),
        },
    ];
    let repo = WexeRepository::new("/cfg", ".exe", &found);
    let foo = repo.find_entry("foo").expect("registered");
    assert_eq!(foo.get_tag(), "foo");
    assert_eq!(foo.tag, "foo");
    assert_eq!(foo.get_stub_exe_path(), &in_dir("/cfg", "foo.exe"));
    assert_eq!(foo.get_cfg_path(), &in_dir("/cfg", "foo.toml"));
    assert_eq!(foo.get_target_exe_path(), &Some("/bin/true".to_string()));
    assert_eq!(foo.get_load_error(), &None);
    assert!(foo.target_exists(true));
    assert!(!foo.target_exists(false));
    let bad = repo.find_entry("bad").expect("registered");
    assert_eq!(bad.get_target_exe_path(), &None);
    assert_eq!(bad.get_load_error(), &Some("expected `=`".to_string()));
    assert!(!bad.target_exists(true));
    let rel = repo.find_entry("rel").expect("registered");
    assert_eq!(
        rel.get_load_error(),
        &Some("Target executable path must be absolute: tool".to_string())
    );
    assert!(repo.find_entry("nope").is_none());
    assert!(repo.find_entry("fo").is_none());
    assert!(repo.find_entry("fooo").is_none());
    assert!(repo.find_entry("").is_none());
}

#[test]
fn the_repository_knows_where_its_files_stand() {
    let repo = WexeRepository::new("/cfg", ".exe", &vec![]);
    assert_eq!(repo.get_config_folder(), "/cfg");
    assert_eq!(repo.get_exe_suffix(), ".exe");
    assert_eq!(repo.get_wexe_exe_path(), &in_dir("/cfg", "wexe.exe"));
    assert_eq!(repo.get_wexecfg_exe_path(), &in_dir("/cfg", "wexecfg.exe"));
    assert_eq!(repo.get_stub_path("foo"), in_dir("/cfg", "foo.exe"));
    assert_eq!(repo.get_config_path("foo"), in_dir("/cfg", "foo.toml"));
    assert!(repo.get_entries().is_empty());
    let plain = WexeRepository::new("/cfg", "", &vec![]);
    assert_eq!(plain.get_wexe_exe_path(), &in_dir("/cfg", "wexe"));
    assert_eq!(plain.get_stub_path("foo"), in_dir("/cfg", "foo"));
}

#[test]
fn lookup_finds_every_entry_of_a_large_repository() {
    let names: Vec<String> = (0..40).map(|i| format!("app{}", (i * 7) % 40)).collect();
    let found: Vec<LoadedConfig> = names.iter().map(|n| loaded(n, "/t")).collect();
    let repo = WexeRepository::new("/cfg", "", &found);
    assert_eq!(repo.get_entries().len(), 40);
    for n in names.iter() {
        assert_eq!(repo.find_entry(n).expect("registered").get_tag(), n);
    }
    let listed = tags(&repo);
    let mut sorted = listed.clone();
    sorted.sort();
    assert_eq!(listed, sorted);
    assert!(repo.find_entry("app40").is_none());
}

#[test]
fn a_copy_is_stale_when_missing_or_strictly_older() {
    assert!(target_missing_or_older(at(10), at(9)));
    assert!(!target_missing_or_older(at(10), at(10)));
    assert!(!target_missing_or_older(at(10), at(11)));
    assert!(target_missing_or_older(at(10), None));
    assert!(!target_missing_or_older(None, at(10)));
    assert!(!target_missing_or_older(None, None));
    let early = Some(FileStamp { secs: 5, nanos: 1 });
    let late = Some(FileStamp { secs: 5, nanos: 2 });
    assert!(target_missing_or_older(late, early));
    assert!(!target_missing_or_older(early, late));
    assert!(target_missing_or_older(at(-1), at(-2)));
}

#[test]
fn the_decision_table_row_by_row() {
    for old in [false, true] {
        for t in [false, true] {
            for l in [false, true] {
                assert_eq!(decide(false, l, t, true, old), FixRow::RemoveOrphanedStub);
                assert_eq!(decide(false, l, t, false, old), FixRow::NothingToDo);
            }
            assert_eq!(decide(true, true, t, true, old), FixRow::RemoveBrokenStub);
            assert_eq!(decide(true, true, t, false, old), FixRow::ReportLoadError);
        }
        assert_eq!(decide(true, false, false, true, old), FixRow::RemoveStubOfMissingTarget);
        assert_eq!(decide(true, false, false, false, old), FixRow::ReportTargetMissing);
        assert_eq!(decide(true, false, true, false, old), FixRow::CreateStub);
    }
    assert_eq!(decide(true, false, true, true, true), FixRow::UpdateStub);
    assert_eq!(decide(true, false, true, true, false), FixRow::UpToDate);
}

fn probe(target_on_disk: bool, launcher: Option<FileStamp>, stub: Option<FileStamp>) -> StubProbe {
    StubProbe { target_on_disk, launcher, stub }
}

fn row(repo: &WexeRepository, tag: &str, p: StubProbe) -> Result<FixRow, FixError> {
    fix_tag(repo, tag, &p).map(|a| a.row)
}

#[test]
fn fixing_follows_the_table() {
    let repo =
        WexeRepository::new("/cfg", ".exe", &vec![loaded("foo", "/bin/true"), broken("bad", "oops")]);
    assert_eq!(row(&repo, "foo", probe(true, at(10), None)), Ok(FixRow::CreateStub));
    assert_eq!(row(&repo, "foo", probe(true, at(10), at(5))), Ok(FixRow::UpdateStub));
    assert_eq!(row(&repo, "foo", probe(true, at(10), at(10))), Ok(FixRow::UpToDate));
    assert_eq!(row(&repo, "foo", probe(true, at(10), at(20))), Ok(FixRow::UpToDate));
    assert_eq!(row(&repo, "foo", probe(true, None, at(20))), Ok(FixRow::UpToDate));
    assert_eq!(row(&repo, "foo", probe(false, at(10), at(5))), Ok(FixRow::RemoveStubOfMissingTarget));
    assert_eq!(row(&repo, "foo", probe(false, at(10), None)), Ok(FixRow::ReportTargetMissing));
    assert_eq!(row(&repo, "bad", probe(true, at(10), at(5))), Ok(FixRow::RemoveBrokenStub));
    assert_eq!(row(&repo, "bad", probe(true, at(10), None)), Ok(FixRow::ReportLoadError));
    assert_eq!(row(&repo, "gone", probe(true, at(10), at(5))), Ok(FixRow::RemoveOrphanedStub));
    assert_eq!(row(&repo, "gone", probe(true, at(10), None)), Ok(FixRow::NothingToDo));
    assert_eq!(row(&repo, "gone", probe(false, None, None)), Ok(FixRow::NothingToDo));
}

#[test]
fn fixing_reports_the_load_error_and_the_stub_path() {
    let repo =
        WexeRepository::new("/cfg", ".exe", &vec![loaded("foo", "/bin/true"), broken("bad", "oops")]);
    let action = fix_tag(&repo, "bad", &probe(true, at(10), at(5))).ok().expect("an action");
    assert_eq!(action.load_error, Some("oops".to_string()));
    assert_eq!(action.stub_path, in_dir("/cfg", "bad.exe"));
    let action = fix_tag(&repo, "bad", &probe(true, at(10), None)).ok().expect("an action");
    assert_eq!(action.load_error, Some("oops".to_string()));
    let action = fix_tag(&repo, "foo", &probe(true, at(10), None)).ok().expect("an action");
    assert_eq!(action.load_error, None);
    assert_eq!(action.stub_path, in_dir("/cfg", "foo.exe"));
    let action = fix_tag(&repo, "gone", &probe(true, at(10), at(1))).ok().expect("an action");
    assert_eq!(action.load_error, None);
    assert_eq!(action.stub_path, in_dir("/cfg", "gone.exe"));
}

#[test]
fn fixing_refuses_reserved_and_malformed_tags() {
    let repo = WexeRepository::new("/cfg", "", &vec![loaded("foo", "/bin/true")]);
    let p = probe(true, at(10), at(5));
    assert_eq!(row(&repo, "wexe", p), Err(FixError::ReservedTag));
    assert_eq!(row(&repo, "wexecfg", p), Err(FixError::ReservedTag));
    assert_eq!(row(&repo, "../etc", p), Err(FixError::InvalidTag));
    assert_eq!(row(&repo, "Foo", p), Err(FixError::InvalidTag));
    assert_eq!(row(&repo, "", p), Err(FixError::InvalidTag));
}

#[test]
fn a_stub_cannot_be_made_without_an_installed_launcher() {
    let repo = WexeRepository::new("/cfg", "", &vec![loaded("foo", "/bin/true")]);
    assert_eq!(row(&repo, "foo", probe(true, None, None)), Err(FixError::LauncherNotInstalled));
    assert_eq!(row(&repo, "foo", probe(false, None, None)), Ok(FixRow::ReportTargetMissing));
}

#[test]
fn a_scan_skips_wrong_names_and_a_fix_of_everything_removes_orphans() {
    let listing = vec![file("foo.toml"), file("Foo.toml"), file("bar.exe")];
    let mut found = Vec::new();
    for f in listing.iter() {
        if let Some(tag) = config_file_tag(&f.file_name, f.is_file) {
            found.push(loaded(&tag, "/bin/true"));
        }
    }
    let repo = WexeRepository::new("/cfg", ".exe", &found);
    assert_eq!(tags(&repo), vec!["foo"]);
    let all = fix_all_tags(&repo, &listing);
    assert_eq!(all, vec!["bar", "foo"]);
    let requests: Vec<FixRequest> = all
        .iter()
        .map(|tag| FixRequest {
            tag: tag.clone(),
            probe: probe(true, at(10), if tag == "bar" { at(3) } else { None }),
        })
        .collect();
    let outcomes = fix_tags(&repo, &requests);
    assert_eq!(outcomes.len(), 2);
    assert_eq!(outcomes[0].as_ref().ok().expect("an action").row, FixRow::RemoveOrphanedStub);
    assert_eq!(outcomes[0].as_ref().ok().expect("an action").stub_path, in_dir("/cfg", "bar.exe"));
    assert_eq!(outcomes[1].as_ref().ok().expect("an action").row, FixRow::CreateStub);
}

#[test]
fn a_missing_target_never_gets_a_stub() {
    let repo = WexeRepository::new("/cfg", ".exe", &vec![loaded("qux", "/no/such/target")]);
    let stale = fix_tag(&repo, "qux", &probe(false, at(10), at(1))).ok().expect("an action");
    assert_eq!(stale.row, FixRow::RemoveStubOfMissingTarget);
    let fresh = fix_tag(&repo, "qux", &probe(false, at(10), at(99))).ok().expect("an action");
    assert_eq!(fresh.row, FixRow::RemoveStubOfMissingTarget);
    let none = fix_tag(&repo, "qux", &probe(false, at(10), None)).ok().expect("an action");
    assert_eq!(none.row, FixRow::ReportTargetMissing);
}

#[test]
fn a_failure_does_not_stop_the_batch() {
    let repo = WexeRepository::new("/cfg", "", &vec![loaded("foo", "/bin/true")]);
    let requests = vec![
        FixRequest { tag: "wexe".to_string(), probe: probe(true, at(1), None) },
        FixRequest { tag: "foo".to_string(), probe: probe(true, None, None) },
        FixRequest { tag: "foo".to_string(), probe: probe(true, at(1), None) },
        FixRequest { tag: "bar".to_string(), probe: probe(true, at(1), at(1)) },
    ];
    let outcomes: Vec<Result<FixRow, FixError>> =
        fix_tags(&repo, &requests).into_iter().map(|r| r.map(|a| a.row)).collect();
    assert_eq!(
        outcomes,
        vec![
            Err(FixError::ReservedTag),
            Err(FixError::LauncherNotInstalled),
            Ok(FixRow::CreateStub),
            Ok(FixRow::RemoveOrphanedStub),
        ]
    );
    assert!(fix_tags(&repo, &vec![]).is_empty());
}

#[test]
fn fixing_everything_looks_at_registrations_and_stubs() {
    let repo = WexeRepository::new("/cfg", "", &vec![loaded("foo", "/f"), loaded("abc", "/a")]);
    let listing = vec![
        file("foo.toml"),
        file("abc.toml"),
        file("foo"),
        file("zed"),
        file("wexe"),
        file("Upper"),
        file("notes.txt"),
        DirFile { file_name: "dir".to_string(), is_file: false },
        file("zed"),
    ];
    assert_eq!(fix_all_tags(&repo, &listing), vec!["abc", "foo", "wexe", "zed"]);
    assert_eq!(fix_all_tags(&repo, &vec![]), vec!["abc", "foo"]);
}

#[test]
fn a_name_ends_in_a_suffix_or_has_no_stem() {
    assert_eq!(stem_of_file_name("Bar.EXE", ".exe", true), Some("Bar".to_string()));
    assert_eq!(stem_of_file_name("Bar.EXE", ".exe", false), None);
    assert_eq!(stem_of_file_name("Bar.EXE", ".EXE", false), Some("Bar".to_string()));
    assert_eq!(stem_of_file_name(".exe", ".exe", true), Some("".to_string()));
    assert_eq!(stem_of_file_name("exe", ".exe", true), None);
    assert_eq!(stem_of_file_name("a b", "", false), Some("a b".to_string()));
    assert_eq!(stem_of_file_name("", "", true), Some("".to_string()));
}

#[test]
fn a_stub_with_upper_case_letters_is_worth_a_warning() {
    assert!(is_upper_case_stub(&file("Bar.exe"), ".exe"));
    assert!(is_upper_case_stub(&file("BAR.EXE"), ".exe"));
    assert!(!is_upper_case_stub(&file("bar.EXE"), ".exe"));
    assert!(!is_upper_case_stub(&file("bar.exe"), ".exe"));
    assert!(!is_upper_case_stub(&file("Bar.toml"), ".exe"));
    assert!(is_upper_case_stub(&file("Makefile"), ""));
    assert!(!is_upper_case_stub(&file("notes.txt"), ""));
    assert!(!is_upper_case_stub(&DirFile { file_name: "Bar.exe".to_string(), is_file: false }, ".exe"));
}

#[test]
fn a_stamp_counts_from_the_start_of_1970() {
    let stamp = |after, secs, nanos| FileStamp::at(after, secs, nanos).map(|s| (s.secs, s.nanos));
    assert_eq!(stamp(true, 0, 0), Some((0, 0)));
    assert_eq!(stamp(false, 0, 0), Some((0, 0)));
    assert_eq!(stamp(true, 12, 345), Some((12, 345)));
    assert_eq!(stamp(false, 12, 0), Some((-12, 0)));
    assert_eq!(stamp(false, 12, 1), Some((-13, 999_999_999)));
    assert_eq!(stamp(false, 0, 250_000_000), Some((-1, 750_000_000)));
    assert_eq!(stamp(true, 5, 1_000_000_000), None);
    assert_eq!(stamp(true, u64::MAX, 0), None);
    assert_eq!(stamp(false, i64::MAX as u64, 0), None);
    assert_eq!(stamp(false, i64::MAX as u64 - 1, 1), Some((-i64::MAX, 999_999_999)));
    let before = FileStamp::at(false, 0, 1);
    let start = FileStamp::at(true, 0, 0);
    assert!(target_missing_or_older(start, before));
    assert!(!target_missing_or_older(before, start));
}
