use wexe::args_buffer::ArgumentsBuffer;
use wexe::command_wrap::{
    check_derived_tag, option_of, plan_wrap, ConfigStep, DirProbe, StubStep, TargetProbe,
    WrapArgError, WrapCommandOptions, WrapError, WrapOption, WrapStep, WrapTagError,
};
use wexe::config_model::{ListOps, WexeApp};
use wexe::config_writer::{config_document, fill_array};
use wexe::wexe_repository::{LoadedConfig, WexeRepository};

fn buffer(items: &[&str]) -> ArgumentsBuffer {
    ArgumentsBuffer::new(items.iter().map(|s| s.to_string()).collect())
}

fn strings(items: &[&str]) -> Vec<String> {
    items.iter().map(|s| s.to_string()).collect()
}

fn target(path: &str) -> TargetProbe {
    let extension = std::path::Path::new(path)
        .extension()
        .and_then(|e| e.to_str())
        .map(|e| e.to_string());
    TargetProbe { resolved: Some(path.to_string()), extension, is_file: true }
}

fn with_target(path: &str) -> WrapCommandOptions {
    let mut options = WrapCommandOptions::new();
    assert_eq!(options.accept_target(&target(path), false), Ok(()));
    options
}

#[test]
fn options_are_known_by_three_names_each() {
    for name in ["-n", "-name", "-tag"] {
        assert_eq!(option_of(name), Some(WrapOption::Name));
    }
    for name in ["-x", "-exe", "-target"] {
        assert_eq!(option_of(name), Some(WrapOption::Target));
    }
    for name in ["-a", "-arg", "-preargs"] {
        assert_eq!(option_of(name), Some(WrapOption::PreArg));
    }
    for name in ["-p", "-path", "-prepath"] {
        assert_eq!(option_of(name), Some(WrapOption::PrePath));
    }
    for name in ["-F", "-force", "--force"] {
        assert_eq!(option_of(name), Some(WrapOption::Force));
    }
    for name in ["-f", "-N", "--name", "x", "", "-"] {
        assert_eq!(option_of(name), None);
    }
}

#[test]
fn options_are_read_up_to_the_next_path() {
    let mut options = WrapCommandOptions::new();
    let mut args = buffer(&["-F", "-n", "tool", "-a", "-v", "-x", "bin/tool", "-a", "--", "-p", "lib"]);
    match options.parse_args(&mut args) {
        Ok(WrapStep::Target { raw }) => assert_eq!(raw, "bin/tool"),
        _ => panic!("the target is to be looked up"),
    }
    assert!(options.force);
    assert_eq!(options.get_pre_args(), &strings(&["-v"]));
    assert_eq!(args.remaining(), 4);
    assert_eq!(options.accept_target(&target("/abs/bin/tool"), false), Ok(()));
    assert_eq!(options.get_target_path(), "/abs/bin/tool");
    match options.parse_args(&mut args) {
        Ok(WrapStep::PrePath { raw }) => assert_eq!(raw, "lib"),
        _ => panic!("the directory is to be looked up"),
    }
    assert_eq!(options.get_pre_args(), &strings(&["-v", "--"]));
    let dir = DirProbe { resolved: Some("/abs/lib".to_string()), exists: true, is_dir: true };
    assert_eq!(options.accept_pre_path(&dir), Ok(()));
    assert_eq!(options.get_pre_path(), &strings(&["/abs/lib"]));
    assert!(matches!(options.parse_args(&mut args), Ok(WrapStep::Finished)));
    assert!(args.is_empty());
    assert_eq!(options.get_tag(), Ok("tool".to_string()));
}

#[test]
fn one_option_is_read_at_a_time() {
    let mut options = WrapCommandOptions::new();
    let mut args = buffer(&["-force", "-arg", "x"]);
    assert!(matches!(options.parse_next(&mut args), Ok(WrapStep::Consumed)));
    assert_eq!(args.remaining(), 2);
    assert!(options.force);
    assert!(matches!(options.parse_next(&mut args), Ok(WrapStep::Consumed)));
    assert_eq!(options.get_pre_args(), &strings(&["x"]));
    assert_eq!(options.parse_next(&mut args).err(), Some(WrapArgError::NoTarget));
}

fn refused(items: &[&str]) -> (WrapArgError, usize) {
    let mut options = WrapCommandOptions::new();
    let mut args = buffer(items);
    let e = options.parse_args(&mut args).err().expect("refused");
    (e, args.remaining())
}

#[test]
fn arguments_that_are_refused_stay_in_the_buffer() {
    assert_eq!(refused(&[]), (WrapArgError::NoTarget, 0));
    assert_eq!(refused(&["-F"]), (WrapArgError::NoTarget, 0));
    assert_eq!(refused(&["-F", "-n"]), (WrapArgError::MissingValue, 1));
    assert_eq!(refused(&["-x"]), (WrapArgError::MissingValue, 1));
    assert_eq!(refused(&["-a"]), (WrapArgError::MissingValue, 1));
    assert_eq!(refused(&["-p"]), (WrapArgError::MissingValue, 1));
    assert_eq!(refused(&["-n", "Tool", "-F"]), (WrapArgError::InvalidTag, 3));
    assert_eq!(refused(&["-a", "x", "tool"]), (WrapArgError::UnrecognizedOption, 1));
    assert_eq!(refused(&["--Force"]), (WrapArgError::UnrecognizedOption, 1));
}

#[test]
fn a_target_must_resolve_and_be_a_file() {
    let mut options = WrapCommandOptions::new();
    let unresolved = TargetProbe { resolved: None, extension: None, is_file: false };
    assert_eq!(options.accept_target(&unresolved, false), Err(WrapArgError::TargetUnresolved));
    let missing = TargetProbe { is_file: false, ..target("/bin/tool") };
    assert_eq!(options.accept_target(&missing, false), Err(WrapArgError::TargetNotAFile));
    assert_eq!(options.accept_target(&target("/bin/tool"), true), Err(WrapArgError::TargetNotExecutable));
    assert_eq!(options.accept_target(&target("/bin/tool.txt"), true), Err(WrapArgError::TargetNotExecutable));
    let both = TargetProbe { is_file: false, ..target("/bin/tool.txt") };
    assert_eq!(options.accept_target(&both, true), Err(WrapArgError::TargetNotExecutable));
    assert_eq!(options.parse_args(&mut buffer(&[])).err(), Some(WrapArgError::NoTarget));
    assert_eq!(options.accept_target(&target("/bin/tool.EXE"), true), Ok(()));
    assert_eq!(options.get_target_path(), "/bin/tool.EXE");
    assert_eq!(options.accept_target(&target("/bin/other.exe"), true), Ok(()));
    assert_eq!(options.get_target_path(), "/bin/other.exe");
}

#[test]
fn a_directory_must_resolve_and_exist() {
    let mut options = WrapCommandOptions::new();
    let probe = |resolved: Option<&str>, exists, is_dir| DirProbe {
        resolved: resolved.map(|s| s.to_string()),
        exists,
        is_dir,
    };
    assert_eq!(options.accept_pre_path(&probe(None, true, true)), Err(WrapArgError::PathUnresolved));
    assert_eq!(options.accept_pre_path(&probe(Some("/x"), false, false)), Err(WrapArgError::PathMissing));
    assert_eq!(
        options.accept_pre_path(&probe(Some("/x"), true, false)),
        Err(WrapArgError::PathNotADirectory)
    );
    assert!(options.get_pre_path().is_empty());
    assert_eq!(options.accept_pre_path(&probe(Some("/x"), true, true)), Ok(()));
    assert_eq!(options.accept_pre_path(&probe(Some("/y"), true, true)), Ok(()));
    assert_eq!(options.get_pre_path(), &strings(&["/x", "/y"]));
}

#[test]
fn the_tag_is_given_or_taken_from_the_target() {
    assert_eq!(with_target("/opt/Tools/My-Tool.exe").get_tag(), Ok("my-tool".to_string()));
    assert_eq!(with_target("/opt/tools/tool").get_tag(), Ok("tool".to_string()));
    assert_eq!(with_target("/opt/tools/my.tool.exe").get_tag(), Err(WrapTagError::InvalidDerivedTag));
    assert_eq!(with_target("/opt/tools/2fast").get_tag(), Err(WrapTagError::InvalidDerivedTag));
    assert_eq!(with_target("/opt/tools/WEXE.exe").get_tag(), Err(WrapTagError::ReservedDerivedTag));
    assert_eq!(with_target("/opt/tools/wexecfg").get_tag(), Err(WrapTagError::ReservedDerivedTag));
    assert_eq!(with_target("/").get_tag(), Err(WrapTagError::NoFileName));

    let mut named = with_target("/opt/tools/2fast");
    assert!(matches!(named.parse_args(&mut buffer(&["-n", "fast"])), Ok(WrapStep::Finished)));
    assert_eq!(named.get_tag(), Ok("fast".to_string()));
    let mut reserved = WrapCommandOptions::new();
    assert_eq!(reserved.parse_args(&mut buffer(&["-n", "wexe"])).err(), Some(WrapArgError::NoTarget));
    assert_eq!(reserved.get_tag(), Err(WrapTagError::ReservedTag));
}

#[test]
fn a_name_is_taken_for_a_tag_if_it_may_be_registered() {
    assert_eq!(check_derived_tag("tool".to_string()), Ok("tool".to_string()));
    assert_eq!(check_derived_tag("Tool".to_string()), Err(WrapTagError::InvalidDerivedTag));
    assert_eq!(check_derived_tag("".to_string()), Err(WrapTagError::InvalidDerivedTag));
    assert_eq!(check_derived_tag("wexe".to_string()), Err(WrapTagError::ReservedDerivedTag));
    assert_eq!(check_derived_tag("wexecfg".to_string()), Err(WrapTagError::ReservedDerivedTag));
}

fn repo_with(tag: &str) -> WexeRepository {
    let app = WexeApp {
        target: "/bin/true".to_string(),
        args: ListOps { prepend: vec![], append: vec![] },
        env_set: vec![],
        env_pathlike: vec![],
    };
    WexeRepository::new("/cfg", ".exe", &vec![LoadedConfig { tag: tag.to_string(), outcome: Ok(app) }])
}

#[test]
fn wrapping_spares_what_is_there() {
    let sep = std::path::MAIN_SEPARATOR;
    let repo = repo_with("old");
    let plan = plan_wrap(&repo, "new", false, true, false).ok().expect("a plan");
    assert_eq!(plan.config_path, format!("/cfg{}new.toml", sep));
    assert_eq!(plan.candidate_path, format!("/cfg{}new.toml.tmp", sep));
    assert_eq!(plan.backup_path, format!("/cfg{}new.toml.bak", sep));
    assert_eq!(plan.stub_path, format!("/cfg{}new.exe", sep));
    assert_eq!(plan.config_step, ConfigStep::Install);
    assert_eq!(plan.stub_step, StubStep::Create);
    let plan = plan_wrap(&repo, "new", true, true, true).ok().expect("a plan");
    assert_eq!(plan.config_step, ConfigStep::Install);
    assert_eq!(plan.stub_step, StubStep::KeepExisting);
    let plan = plan_wrap(&repo, "old", false, false, true).ok().expect("a plan");
    assert_eq!(plan.config_step, ConfigStep::KeepCandidate);
    assert_eq!(plan.stub_step, StubStep::LauncherMissing);
    let plan = plan_wrap(&repo, "old", true, false, false).ok().expect("a plan");
    assert_eq!(plan.config_step, ConfigStep::BackupAndReplace);
    assert_eq!(plan.stub_step, StubStep::LauncherMissing);
    assert_eq!(plan_wrap(&repo, "wexe", true, true, true).err(), Some(WrapError::InvalidTag));
    assert_eq!(plan_wrap(&repo, "New", true, true, true).err(), Some(WrapError::InvalidTag));
}

fn list_at(table: &toml::Table, keys: &[&str]) -> Vec<String> {
    let mut value = table.get(keys[0]).expect("a key");
    for key in &keys[1..] {
        value = value.get(key).expect("a key");
    }
    value
        .as_array()
        .expect("a list")
        .iter()
        .map(|v| v.as_str().expect("a string").to_string())
        .collect()
}

#[test]
fn a_new_configuration_holds_the_target_and_the_first_entries() {
    let args = strings(&["--flag", "two words", "quote\"d", "back\\slash"]);
    let dirs = strings(&["/opt/tool/bin", "C:\\Program Files\\Tool"]);
    let text = config_document("/opt/tool/bin/tool", &args, &dirs).expect("a document");
    let table = text.parse::<toml::Table>().expect("valid TOML");
    assert_eq!(table.get("target").and_then(|v| v.as_str()), Some("/opt/tool/bin/tool"));
    assert_eq!(list_at(&table, &["args", "prepend"]), args);
    assert!(list_at(&table, &["args", "append"]).is_empty());
    assert_eq!(list_at(&table, &["env", "pathlike", "PATH", "prepend"]), dirs);
    assert!(list_at(&table, &["env", "pathlike", "PATH", "append"]).is_empty());
    assert!(table.get("env").and_then(|e| e.get("set")).and_then(|s| s.as_table()).expect("a table").is_empty());
    assert!(text.contains("# Plain environment variables to set or delete"));
    assert!(text.contains("# FOO = 'bar'"));
}

#[test]
fn a_new_configuration_keeps_the_layout_of_the_template() {
    let text =
        config_document("/bin/true", &strings(&["-a", "-b"]), &strings(&["/p"])).expect("a document");
    let expected = "target = \"/bin/true\"\n\n# Additional arguments to prepend or append to the given command line.\n[args]\nprepend = [\n  \"-a\",\n  \"-b\" ]\nappend = [ ]\n\n# Plain environment variables to set or delete\n[env.set]\n# FOO = 'bar'\n# BAR = ''\n\n# You can prepend or append items to PATH-like environment variables\n# For example: prepend or append to the PATH environment variable itself\n[env.pathlike.PATH]\nprepend = [\n  \"/p\" ]\nappend = [ ]\n";
    assert_eq!(text, expected);
}

#[test]
fn a_new_configuration_without_entries_is_the_template_with_a_target() {
    let text = config_document("/bin/true", &vec![], &vec![]).expect("a document");
    let table = text.parse::<toml::Table>().expect("valid TOML");
    assert_eq!(table.get("target").and_then(|v| v.as_str()), Some("/bin/true"));
    assert!(list_at(&table, &["args", "prepend"]).is_empty());
    assert!(text.contains("[args]\nprepend = [ ]\nappend = [ ]\n"));
}

#[test]
fn strings_are_put_behind_the_values_of_a_list() {
    let mut array = toml_edit::Array::new();
    array.push("first");
    array.push(7);
    fill_array(&mut array, &strings(&["a", "b c"]));
    assert_eq!(array.len(), 4);
    assert_eq!(array.get(0).and_then(|v| v.as_str()), Some("first"));
    assert_eq!(array.get(1).and_then(|v| v.as_integer()), Some(7));
    assert_eq!(array.get(2).and_then(|v| v.as_str()), Some("a"));
    assert_eq!(array.get(3).and_then(|v| v.as_str()), Some("b c"));
    fill_array(&mut array, &vec![]);
    assert_eq!(array.len(), 4);
}
