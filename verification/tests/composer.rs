use wexe::composer::{compose, join_path_list, split_path_list};
use wexe::config_model::{ListOps, WexeApp};
use wexe::environment::{compose_environment, ComposeError, Environment};
use wexe::launcher::{
    exit_code, plan_launch, select_invocation, Invocation, InvocationError, LaunchError,
};

fn strings(items: &[&str]) -> Vec<String> {
    items.iter().map(|s| s.to_string()).collect()
}

fn pairs(items: &[(&str, &str)]) -> Vec<(String, String)> {
    items.iter().map(|(k, v)| (k.to_string(), v.to_string())).collect()
}

fn app(target: &str) -> WexeApp {
    WexeApp {
        target: target.to_string(),
        args: ListOps { prepend: vec![], append: vec![] },
        env_set: vec![],
        env_pathlike: vec![],
    }
}

fn sorted(mut items: Vec<(String, String)>) -> Vec<(String, String)> {
    items.sort();
    items
}

#[test]
fn arguments_are_concatenated_in_order() {
    let r = compose(&strings(&["a", "b"]), &strings(&["c"]), &strings(&["d", "e", "f"]));
    assert_eq!(r, strings(&["a", "b", "c", "d", "e", "f"]));
}

#[test]
fn arguments_are_neither_dropped_nor_merged() {
    let r = compose(&strings(&["-v", "-v"]), &strings(&["-v", ""]), &strings(&["-v"]));
    assert_eq!(r, strings(&["-v", "-v", "-v", "", "-v"]));
    assert_eq!(r.len(), 2 + 2 + 1);
    assert!(compose(&vec![], &vec![], &vec![]).is_empty());
    assert_eq!(compose(&vec![], &strings(&["x"]), &vec![]), strings(&["x"]));
}

#[test]
fn a_value_splits_at_every_separator() {
    assert_eq!(split_path_list("/usr/bin:/bin", ':'), strings(&["/usr/bin", "/bin"]));
    assert_eq!(split_path_list("/usr/bin", ':'), strings(&["/usr/bin"]));
    assert_eq!(split_path_list("", ':'), strings(&[""]));
    assert_eq!(split_path_list(":", ':'), strings(&["", ""]));
    assert_eq!(split_path_list("a::b:", ':'), strings(&["a", "", "b", ""]));
    assert_eq!(split_path_list("C:\\x;D:\\y", ';'), strings(&["C:\\x", "D:\\y"]));
}

#[test]
fn segments_join_with_one_separator_between_neighbours() {
    assert_eq!(join_path_list(&strings(&["/usr/bin", "/bin"]), ':'), "/usr/bin:/bin");
    assert_eq!(join_path_list(&strings(&["/usr/bin"]), ':'), "/usr/bin");
    assert_eq!(join_path_list(&vec![], ':'), "");
    assert_eq!(join_path_list(&strings(&["", ""]), ':'), ":");
    assert_eq!(join_path_list(&strings(&["a", "", "b"]), ';'), "a;;b");
}

#[test]
fn splitting_a_joined_list_gives_the_list_back() {
    let lists =
        [strings(&["/a", "/b", "/c"]), strings(&["only"]), strings(&["", "x", ""]), strings(&[""])];
    for list in lists.iter() {
        assert_eq!(&split_path_list(&join_path_list(list, ':'), ':'), list);
    }
}

#[test]
fn splicing_re_parses_to_the_old_segments_between_the_new() {
    let mut env = Environment::from_pairs(&pairs(&[("PATH", "/usr/bin:/bin")]));
    let ops = ListOps { prepend: strings(&["/first", "/second"]), append: strings(&["/last"]) };
    env.splice("PATH", &ops, ':');
    let value = env.get("PATH").expect("set");
    assert_eq!(value, "/first:/second:/usr/bin:/bin:/last");
    let parsed = split_path_list(&value, ':');
    assert_eq!(parsed.len(), 2 + 2 + 1);
    assert_eq!(parsed[2..parsed.len() - 1].to_vec(), strings(&["/usr/bin", "/bin"]));
}

#[test]
fn splicing_into_an_unset_variable_has_no_old_segments() {
    let mut env = Environment::new();
    env.splice("PATH", &ListOps { prepend: strings(&["/p"]), append: strings(&["/a"]) }, ':');
    assert_eq!(env.get("PATH"), Some("/p:/a".to_string()));
    let mut env = Environment::new();
    env.splice("PATH", &ListOps { prepend: vec![], append: vec![] }, ':');
    assert_eq!(env.get("PATH"), Some("".to_string()));
}

#[test]
fn splicing_into_an_empty_variable_keeps_its_one_empty_segment() {
    let mut env = Environment::from_pairs(&pairs(&[("PATH", "")]));
    env.splice("PATH", &ListOps { prepend: strings(&["/p"]), append: vec![] }, ':');
    assert_eq!(env.get("PATH"), Some("/p:".to_string()));
}

#[test]
fn an_environment_holds_each_name_once() {
    let env = Environment::from_pairs(&pairs(&[("A", "1"), ("B", "2"), ("A", "3")]));
    assert_eq!(env.get("A"), Some("3".to_string()));
    assert_eq!(env.get("B"), Some("2".to_string()));
    assert_eq!(env.get("C"), None);
    assert_eq!(sorted(env.to_pairs()), pairs(&[("A", "3"), ("B", "2")]));
}

#[test]
fn set_remove_and_assign_change_one_variable() {
    let mut env = Environment::from_pairs(&pairs(&[("A", "1"), ("B", "2")]));
    env.set("C", "3");
    env.set("A", "9");
    assert_eq!(sorted(env.to_pairs()), pairs(&[("A", "9"), ("B", "2"), ("C", "3")]));
    env.remove("B");
    env.remove("nope");
    assert_eq!(sorted(env.to_pairs()), pairs(&[("A", "9"), ("C", "3")]));
    env.assign("A", "");
    env.assign("D", "4");
    env.assign("E", "");
    assert_eq!(sorted(env.to_pairs()), pairs(&[("C", "3"), ("D", "4")]));
    assert!(Environment::new().to_pairs().is_empty());
}

#[test]
fn arguments_are_appended_and_the_exit_code_is_passed_on() {
    let mut cfg = app("/bin/true");
    cfg.args.append = strings(&["--version"]);
    let parent = Environment::from_pairs(&pairs(&[("HOME", "/home/u")]));
    let plan = plan_launch(&strings(&["-x"]), &cfg, &parent, true, ':').ok().expect("a plan");
    assert_eq!(plan.target, "/bin/true");
    assert_eq!(plan.args, strings(&["-x", "--version"]));
    assert_eq!(plan.env.to_pairs(), pairs(&[("HOME", "/home/u")]));
    assert_eq!(exit_code(true, Some(0), 1), 0);
    assert_eq!(exit_code(false, Some(3), 1), 3);
    assert_eq!(exit_code(false, Some(-7), 1), -7);
    assert_eq!(exit_code(false, Some(300), 1), 300);
}

#[test]
fn an_empty_value_deletes_the_variable() {
    let mut cfg = app("/bin/true");
    cfg.env_set = pairs(&[("GREETING", "")]);
    let parent = Environment::from_pairs(&pairs(&[("GREETING", "hi"), ("OTHER", "x")]));
    let env = compose_environment(&parent, &cfg, ':').ok().expect("composes");
    assert_eq!(env.get("GREETING"), None);
    assert_eq!(env.to_pairs(), pairs(&[("OTHER", "x")]));
}

#[test]
fn a_segment_is_put_before_the_inherited_path() {
    let sep = if std::path::MAIN_SEPARATOR == '\\' { ';' } else { ':' };
    let mut cfg = app("/bin/true");
    cfg.env_pathlike =
        vec![("PATH".to_string(), ListOps { prepend: strings(&["/opt/baz/bin"]), append: vec![] })];
    let parent = Environment::from_pairs(&pairs(&[("PATH", "/usr/bin")]));
    let env = compose_environment(&parent, &cfg, sep).ok().expect("composes");
    assert_eq!(env.get("PATH"), Some(format!("/opt/baz/bin{}/usr/bin", sep)));
}

#[test]
fn splices_read_what_the_assignments_left() {
    let mut cfg = app("/bin/true");
    cfg.env_set = pairs(&[("PATH", "/fresh"), ("LIBS", "")]);
    cfg.env_pathlike = vec![
        ("PATH".to_string(), ListOps { prepend: strings(&["/p"]), append: vec![] }),
        ("LIBS".to_string(), ListOps { prepend: vec![], append: strings(&["/l"]) }),
        ("PATH".to_string(), ListOps { prepend: vec![], append: strings(&["/z"]) }),
    ];
    let parent = Environment::from_pairs(&pairs(&[("PATH", "/old"), ("LIBS", "/old/lib")]));
    let env = compose_environment(&parent, &cfg, ':').ok().expect("composes");
    assert_eq!(env.get("PATH"), Some("/p:/fresh:/z".to_string()));
    assert_eq!(env.get("LIBS"), Some("/l".to_string()));
}

#[test]
fn a_segment_with_the_separator_is_refused() {
    let mut cfg = app("/bin/true");
    cfg.env_pathlike = vec![
        ("FINE".to_string(), ListOps { prepend: strings(&["/a"]), append: vec![] }),
        ("BAD".to_string(), ListOps { prepend: vec![], append: strings(&["/x:/y"]) }),
        ("WORSE".to_string(), ListOps { prepend: strings(&[":"]), append: vec![] }),
    ];
    let parent = Environment::new();
    match compose_environment(&parent, &cfg, ':') {
        Err(ComposeError::SeparatorInSegment { variable }) => assert_eq!(variable, "BAD"),
        Ok(_) => panic!("a segment with the separator must be refused"),
    }
    assert!(compose_environment(&parent, &cfg, ';').is_ok());
}

#[test]
fn a_missing_target_is_reported_before_anything_else() {
    let mut cfg = app("/no/such/target");
    cfg.env_pathlike =
        vec![("BAD".to_string(), ListOps { prepend: strings(&["a:b"]), append: vec![] })];
    let parent = Environment::new();
    match plan_launch(&vec![], &cfg, &parent, false, ':') {
        Err(LaunchError::TargetMissing { target }) => assert_eq!(target, "/no/such/target"),
        _ => panic!("the missing target comes first"),
    }
    match plan_launch(&vec![], &cfg, &parent, true, ':') {
        Err(LaunchError::Environment(ComposeError::SeparatorInSegment { variable })) => {
            assert_eq!(variable, "BAD")
        }
        _ => panic!("the environment cannot be composed"),
    }
}

#[test]
fn the_exit_code_without_a_code_depends_on_success() {
    assert_eq!(exit_code(true, None, 1), 0);
    assert_eq!(exit_code(false, None, 1), 1);
    assert_eq!(exit_code(false, None, 125), 125);
}

fn application(r: Result<Invocation, InvocationError>) -> (String, usize) {
    match r {
        Ok(Invocation::Application { tag, skip }) => (tag, skip),
        _ => panic!("an application was expected"),
    }
}

#[test]
fn a_renamed_launcher_stands_for_its_name() {
    assert_eq!(application(select_invocation("foo", None)), ("foo".to_string(), 1));
    assert_eq!(application(select_invocation("Foo-Bar", Some("baz"))), ("foo-bar".to_string(), 1));
    assert_eq!(application(select_invocation("foo", Some("-x"))), ("foo".to_string(), 1));
}

#[test]
fn the_launcher_under_its_own_name_takes_a_tag_as_first_argument() {
    assert_eq!(application(select_invocation("wexe", Some("foo"))), ("foo".to_string(), 2));
    assert_eq!(application(select_invocation("WEXE", Some("Foo"))), ("foo".to_string(), 2));
    assert!(matches!(select_invocation("wexe", None), Ok(Invocation::Manager { skip: 1 })));
    assert!(matches!(select_invocation("wexe", Some("-x")), Ok(Invocation::Manager { skip: 1 })));
    assert!(matches!(select_invocation("wexe", Some("/list")), Ok(Invocation::Manager { skip: 1 })));
    assert!(matches!(select_invocation("wexe", Some("+1")), Ok(Invocation::Manager { skip: 1 })));
    assert!(matches!(
        select_invocation("wexe", Some("wexecfg")),
        Ok(Invocation::Manager { skip: 2 })
    ));
    assert!(matches!(select_invocation("wexecfg", None), Ok(Invocation::Manager { skip: 1 })));
}

#[test]
fn malformed_and_recursive_invocations_are_refused() {
    assert!(matches!(select_invocation("wexe", Some("wexe")), Err(InvocationError::LauncherTag)));
    assert!(matches!(select_invocation("wexe", Some("WeXe")), Err(InvocationError::LauncherTag)));
    match select_invocation("wexe", Some("not a tag")) {
        Err(InvocationError::InvalidTag { tag }) => assert_eq!(tag, "not a tag"),
        _ => panic!("a malformed tag must be refused"),
    }
    match select_invocation("wexe", Some("")) {
        Err(InvocationError::InvalidTag { tag }) => assert_eq!(tag, ""),
        _ => panic!("the empty tag must be refused"),
    }
    match select_invocation("My.App", None) {
        Err(InvocationError::InvalidTag { tag }) => assert_eq!(tag, "my.app"),
        _ => panic!("a malformed name must be refused"),
    }
}
