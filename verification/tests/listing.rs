use wexe::command_list::{
    is_listed, list_row, stub_state, ListCommandOptions, StubState, TargetState,
};
use wexe::config_model::{ListOps, LoadError, WexeApp};
use wexe::text::{str_contains, str_lt, to_ascii_lowercase};
use wexe::wexe_repository::{FileStamp, LoadedConfig, WexeRepository};

fn repo() -> WexeRepository {
    let app = WexeApp {
        target: "/bin/true".to_string(),
        args: ListOps { prepend: vec![], append: vec![] },
        env_set: vec![],
        env_pathlike: vec![],
    };
    WexeRepository::new(
        "/cfg",
        "",
        &vec![
            LoadedConfig { tag: "foo-bar".to_string(), outcome: Ok(app) },
            LoadedConfig {
                tag: "bad".to_string(),
                outcome: Err(LoadError::Malformed("no target".to_string())),
            },
        ],
    )
}

fn stamped(row_stub: StubState) -> String {
    match row_stub {
        StubState::Stamped(text) => text,
        _ => panic!("a stamp was expected"),
    }
}

#[test]
fn a_row_tells_the_state_of_the_target() {
    let repo = repo();
    let foo = repo.find_entry("foo-bar").expect("registered");
    let row = list_row(foo, true, None);
    assert_eq!(row.tag, "foo-bar");
    assert_eq!(row.target, TargetState::Ready);
    assert_eq!(row.target_text, "/bin/true");
    assert!(matches!(row.stub, StubState::Missing));
    let row = list_row(foo, false, None);
    assert_eq!(row.target, TargetState::Missing);
    assert_eq!(row.target_text, "/bin/true");
    let bad = repo.find_entry("bad").expect("registered");
    for on_disk in [false, true] {
        let row = list_row(bad, on_disk, None);
        assert_eq!(row.target, TargetState::LoadError);
        assert_eq!(row.target_text, "no target");
    }
}

#[test]
fn a_stub_is_dated_in_universal_time() {
    let repo = repo();
    let foo = repo.find_entry("foo-bar").expect("registered");
    let row = list_row(foo, true, Some(FileStamp { secs: 1431648000, nanos: 0 }));
    assert_eq!(stamped(row.stub), "20150515-000000");
    let row = list_row(foo, true, Some(FileStamp { secs: 0, nanos: 999_999_999 }));
    assert_eq!(stamped(row.stub), "19700101-000000");
    let row = list_row(foo, true, Some(FileStamp { secs: 951827696, nanos: 5 }));
    assert_eq!(stamped(row.stub), "20000229-123456");
    let row = list_row(foo, true, Some(FileStamp { secs: -1, nanos: 0 }));
    assert_eq!(stamped(row.stub), "19691231-235959");
}

#[test]
fn a_time_out_of_range_leaves_the_stub_undated() {
    let repo = repo();
    let foo = repo.find_entry("foo-bar").expect("registered");
    let row = list_row(foo, true, Some(FileStamp { secs: i64::MAX, nanos: 0 }));
    assert!(matches!(row.stub, StubState::Undated));
    let row = list_row(foo, true, Some(FileStamp { secs: 0, nanos: 2_000_000_000 }));
    assert!(matches!(row.stub, StubState::Undated));
}

#[test]
fn the_state_of_a_stub_follows_its_time_and_its_date() {
    let t = Some(FileStamp { secs: 1, nanos: 0 });
    assert!(matches!(stub_state(None, None), StubState::Missing));
    assert!(matches!(stub_state(None, Some("x".to_string())), StubState::Missing));
    assert!(matches!(stub_state(t, None), StubState::Undated));
    assert_eq!(stamped(stub_state(t, Some("19700101-000001".to_string()))), "19700101-000001");
}

#[test]
fn a_filter_keeps_the_tags_that_hold_it() {
    let repo = repo();
    let foo = repo.find_entry("foo-bar").expect("registered");
    let with = |text: &str| ListCommandOptions { filter: Some(text.to_string()) };
    assert!(is_listed(foo, &ListCommandOptions { filter: None }));
    assert!(is_listed(foo, &with("")));
    assert!(is_listed(foo, &with("foo")));
    assert!(is_listed(foo, &with("o-b")));
    assert!(is_listed(foo, &with("bar")));
    assert!(is_listed(foo, &with("foo-bar")));
    assert!(!is_listed(foo, &with("foo-bar2")));
    assert!(!is_listed(foo, &with("fob")));
    assert!(!is_listed(foo, &with("FOO")));
}

#[test]
fn text_helpers_agree_with_the_standard_library() {
    let words = ["", "a", "ab", "b", "a-b", "a_b", "ab1", "Z", "\u{e9}", "ab\u{1F600}", "aa"];
    for x in words.iter() {
        for y in words.iter() {
            assert_eq!(str_lt(x, y), x < y, "{:?} < {:?}", x, y);
            assert_eq!(str_contains(x, y), x.contains(y), "{:?} contains {:?}", x, y);
        }
        assert_eq!(to_ascii_lowercase(x), x.to_ascii_lowercase());
    }
    assert_eq!(to_ascii_lowercase("MiXeD-\u{c9}9"), "mixed-\u{c9}9");
}
