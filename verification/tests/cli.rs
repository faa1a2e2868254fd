use wexe::args_buffer::ArgumentsBuffer;
use wexe::command_drop::{plan_drop, DropArgError, DropCommand, DropCommandOptions, DropError};
use wexe::command_fix::{FixArgError, FixCommand, FixCommandOptions, FixCommandTargets};
use wexe::command_help::HelpCommand;
use wexe::command_install::{
    plan_install, InstallArgError, InstallCommand, InstallCommandOptions, InstallError,
    InstallPlan, InstallProbe, InstallStep,
};
use wexe::command_list::{ListArgError, ListCommand, ListCommandOptions};
use wexe::command_wrap::WrapCommand;
use wexe::commands::{
    dispatch, names_of, setup_commands, Command, CommandCollection, CommandKind, Dispatch,
};
use wexe::help_central::{CommandHelp, HelpCentral};
use wexe::wexe_repository::{FileStamp, WexeRepository};

fn buffer(items: &[&str]) -> ArgumentsBuffer {
    ArgumentsBuffer::new(items.iter().map(|s| s.to_string()).collect())
}

fn at(secs: i64) -> Option<FileStamp> {
    Some(FileStamp { secs, nanos: 0 })
}

#[test]
fn a_buffer_is_read_from_the_front() {
    let mut args = buffer(&["a", "b", "c"]);
    assert_eq!(args.remaining(), 3);
    assert!(!args.is_empty());
    assert_eq!(args.peek(), Some("a"));
    assert_eq!(args.peek_at(0), Some("a"));
    assert_eq!(args.peek_at(2), Some("c"));
    assert_eq!(args.peek_at(3), None);
    assert_eq!(args.peek_at(usize::MAX), None);
    args.skip(1);
    assert_eq!(args.peek(), Some("b"));
    assert_eq!(args.peek_at(1), Some("c"));
    assert_eq!(args.remaining(), 2);
    args.skip(0);
    assert_eq!(args.remaining(), 2);
    args.skip(2);
    assert!(args.is_empty());
    assert_eq!(args.remaining(), 0);
    assert_eq!(args.peek(), None);
    assert_eq!(args.peek_at(0), None);
}

#[test]
fn an_empty_buffer_is_empty() {
    let args = buffer(&[]);
    assert!(args.is_empty());
    assert_eq!(args.peek(), None);
    assert_eq!(args.remaining(), 0);
}

#[test]
fn fix_takes_all_or_tags() {
    let mut options = FixCommandOptions::new();
    assert!(options.targets.is_none());
    let mut args = buffer(&["-all"]);
    assert_eq!(options.parse_args(&mut args), Ok(()));
    assert!(matches!(options.targets, Some(FixCommandTargets::All)));
    assert!(args.is_empty());

    let mut options = FixCommandOptions::new();
    let mut args = buffer(&["foo", "bar-2", "foo"]);
    assert_eq!(options.parse_args(&mut args), Ok(()));
    match options.targets {
        Some(FixCommandTargets::Tags(tags)) => assert_eq!(tags, vec!["foo", "bar-2", "foo"]),
        _ => panic!("tags were given"),
    }

    let mut options = FixCommandOptions::new();
    assert_eq!(options.parse_args(&mut buffer(&[])), Ok(()));
    assert!(options.targets.is_none());
}

fn fix_error(items: &[&str]) -> (FixArgError, Option<String>, usize) {
    let mut options = FixCommandOptions::new();
    let mut args = buffer(items);
    let e = options.parse_args(&mut args).err().expect("refused");
    let named = match options.targets {
        Some(FixCommandTargets::Tags(tags)) => tags.len(),
        _ => 0,
    };
    (e, args.peek().map(|s| s.to_string()), named)
}

#[test]
fn fix_refuses_what_is_neither() {
    assert_eq!(fix_error(&["foo", "-all"]), (FixArgError::AllAfterTargets, Some("-all".into()), 1));
    assert_eq!(fix_error(&["-all", "-all"]), (FixArgError::AllAfterTargets, Some("-all".into()), 0));
    assert_eq!(fix_error(&["-all", "foo"]), (FixArgError::TagAfterAll, Some("foo".into()), 0));
    assert_eq!(fix_error(&["foo", "Bar", "x"]), (FixArgError::UpperCaseInTag, Some("Bar".into()), 1));
    assert_eq!(fix_error(&["-ALL"]), (FixArgError::UnrecognizedOption, Some("-ALL".into()), 0));
    assert_eq!(fix_error(&["-x"]), (FixArgError::UnrecognizedOption, Some("-x".into()), 0));
    assert_eq!(fix_error(&["a b"]), (FixArgError::NotATag, Some("a b".into()), 0));
    assert_eq!(fix_error(&[""]), (FixArgError::NotATag, Some("".into()), 0));
    assert_eq!(fix_error(&["a", "b", "wexe"]), (FixArgError::ReservedTag, Some("wexe".into()), 2));
    assert_eq!(fix_error(&["wexecfg"]), (FixArgError::ReservedTag, Some("wexecfg".into()), 0));
}

#[test]
fn drop_takes_tags_and_needs_one() {
    let mut options = DropCommandOptions::new();
    assert!(options.targets.is_empty());
    let mut args = buffer(&["foo", "bar"]);
    assert_eq!(options.parse_args(&mut args), Ok(()));
    assert_eq!(options.targets, vec!["foo", "bar"]);
    assert!(args.is_empty());

    let mut options = DropCommandOptions::new();
    assert_eq!(options.parse_args(&mut buffer(&[])), Err(DropArgError::NoTargets));

    let mut options = DropCommandOptions::new();
    let mut args = buffer(&["foo", "Bar", "baz"]);
    assert_eq!(options.parse_args(&mut args), Err(DropArgError::NotATag));
    assert_eq!(options.targets, vec!["foo"]);
    assert_eq!(args.peek(), Some("Bar"));
    assert_eq!(args.remaining(), 2);
}

#[test]
fn dropping_sets_the_configuration_aside_and_removes_the_stub() {
    let sep = std::path::MAIN_SEPARATOR;
    let repo = WexeRepository::new("/cfg", ".exe", &vec![]);
    let plan = plan_drop(&repo, "foo", true, true).ok().expect("a plan");
    assert_eq!(plan.config_path, format!("/cfg{}foo.toml", sep));
    assert_eq!(plan.backup_path, Some(format!("/cfg{}foo.toml.bak", sep)));
    assert_eq!(plan.stub_path, format!("/cfg{}foo.exe", sep));
    assert!(plan.remove_stub);
    let plan = plan_drop(&repo, "foo", false, true).ok().expect("a plan");
    assert_eq!(plan.backup_path, None);
    assert!(plan.remove_stub);
    let plan = plan_drop(&repo, "foo", true, false).ok().expect("a plan");
    assert!(plan.backup_path.is_some());
    assert!(!plan.remove_stub);
    assert_eq!(plan_drop(&repo, "foo", false, false).err(), Some(DropError::UnknownApplication));
    assert_eq!(plan_drop(&repo, "wexe", true, true).err(), Some(DropError::ReservedTag));
    assert_eq!(plan_drop(&repo, "wexecfg", false, false).err(), Some(DropError::ReservedTag));
    assert_eq!(plan_drop(&repo, "..", true, true).err(), Some(DropError::InvalidTag));
}

#[test]
fn install_knows_one_option() {
    let mut options = InstallCommandOptions::new();
    assert!(!options.include_wexe);
    assert_eq!(options.parse_args(&mut buffer(&[])), Ok(()));
    assert!(!options.include_wexe);
    assert_eq!(options.parse_args(&mut buffer(&["-wexe"])), Ok(()));
    assert!(options.include_wexe);

    let mut options = InstallCommandOptions::new();
    assert_eq!(options.parse_args(&mut buffer(&["-w", "-w"])), Ok(()));
    assert!(options.include_wexe);

    let mut options = InstallCommandOptions::new();
    let mut args = buffer(&["-x", "-w"]);
    assert_eq!(options.parse_args(&mut args), Err(InstallArgError::UnrecognizedOption));
    assert!(!options.include_wexe);
    assert_eq!(args.peek(), Some("-x"));

    let mut options = InstallCommandOptions::new();
    let mut args = buffer(&["-w", "-W"]);
    assert_eq!(options.parse_args(&mut args), Err(InstallArgError::UnrecognizedOption));
    assert!(options.include_wexe);
    assert_eq!(args.peek(), Some("-W"));
}

fn install(include_wexe: bool, probe: InstallProbe) -> Result<InstallPlan, InstallError> {
    plan_install(&InstallCommandOptions { include_wexe }, &probe)
}

#[test]
fn installing_copies_what_is_missing_or_old() {
    let base = InstallProbe {
        same_folder: false,
        running_tool: at(10),
        installed_tool: None,
        launcher_beside: at(10),
        installed_launcher: None,
    };
    assert_eq!(
        install(true, base),
        Ok(InstallPlan { tool: InstallStep::Copy, launcher: InstallStep::Copy })
    );
    assert_eq!(
        install(false, base),
        Ok(InstallPlan { tool: InstallStep::Copy, launcher: InstallStep::Hint })
    );
    let current = InstallProbe { installed_tool: at(10), installed_launcher: at(10), ..base };
    assert_eq!(
        install(true, current),
        Ok(InstallPlan { tool: InstallStep::UpToDate, launcher: InstallStep::UpToDate })
    );
    assert_eq!(
        install(false, current),
        Ok(InstallPlan { tool: InstallStep::UpToDate, launcher: InstallStep::Silent })
    );
    let old = InstallProbe { installed_tool: at(9), installed_launcher: at(9), ..base };
    assert_eq!(
        install(true, old),
        Ok(InstallPlan { tool: InstallStep::Copy, launcher: InstallStep::Copy })
    );
    let no_source = InstallProbe { launcher_beside: None, ..base };
    assert_eq!(
        install(true, no_source),
        Ok(InstallPlan { tool: InstallStep::Copy, launcher: InstallStep::UpToDate })
    );
    let same = InstallProbe { same_folder: true, ..base };
    assert_eq!(install(true, same), Err(InstallError::SameFolder));
    assert_eq!(install(false, same), Err(InstallError::SameFolder));
}

#[test]
fn list_takes_a_filter() {
    let mut options = ListCommandOptions::new();
    assert!(options.filter.is_none());
    assert_eq!(options.parse_args(&mut buffer(&[])), Ok(()));
    assert!(options.filter.is_none());
    assert_eq!(options.parse_args(&mut buffer(&["-m", "fo"])), Ok(()));
    assert_eq!(options.filter, Some("fo".to_string()));
    assert_eq!(options.parse_args(&mut buffer(&["-m", "a", "-m", "-m"])), Ok(()));
    assert_eq!(options.filter, Some("-m".to_string()));

    let mut options = ListCommandOptions::new();
    let mut args = buffer(&["-m", "a", "-m"]);
    assert_eq!(options.parse_args(&mut args), Err(ListArgError::MissingFilter));
    assert_eq!(options.filter, Some("a".to_string()));
    assert_eq!(args.remaining(), 1);

    let mut options = ListCommandOptions::new();
    let mut args = buffer(&["foo"]);
    assert_eq!(options.parse_args(&mut args), Err(ListArgError::UnrecognizedOption));
    assert_eq!(args.peek(), Some("foo"));
}

#[test]
fn every_command_answers_to_its_names() {
    assert_eq!(names_of(CommandKind::Help), vec!["/help", "/h"]);
    assert_eq!(names_of(CommandKind::List), vec!["/list", "/l"]);
    assert_eq!(names_of(CommandKind::Install), vec!["/install", "/i"]);
    assert_eq!(names_of(CommandKind::Wrap), vec!["/wrap", "/w"]);
    assert_eq!(names_of(CommandKind::Fix), vec!["/fix"]);
    assert_eq!(names_of(CommandKind::Drop), vec!["/drop", "/delete", "/rm", "/del"]);
    assert_eq!(HelpCommand::new().name_and_aliases(), &vec!["/help", "/h"]);
    assert_eq!(ListCommand::new().name_and_aliases(), &vec!["/list", "/l"]);
    assert_eq!(InstallCommand::new().name_and_aliases(), &vec!["/install", "/i"]);
    assert_eq!(WrapCommand::new().name_and_aliases(), &vec!["/wrap", "/w"]);
    assert_eq!(FixCommand::new().name_and_aliases(), &vec!["/fix"]);
    assert_eq!(DropCommand::new().name_and_aliases(), &vec!["/drop", "/delete", "/rm", "/del"]);
    assert_eq!(HelpCommand::new().name(), "/help");
    assert_eq!(ListCommand::new().name(), "/list");
    assert_eq!(InstallCommand::new().name(), "/install");
    assert_eq!(WrapCommand::new().name(), "/wrap");
    assert_eq!(FixCommand::new().name(), "/fix");
    assert_eq!(DropCommand::new().name(), "/drop");
}

#[test]
fn the_tool_answers_to_five_commands() {
    let commands = setup_commands();
    assert_eq!(commands.get_command("/help"), Some(CommandKind::Help));
    assert_eq!(commands.get_command("/h"), Some(CommandKind::Help));
    assert_eq!(commands.get_command("/list"), Some(CommandKind::List));
    assert_eq!(commands.get_command("/l"), Some(CommandKind::List));
    assert_eq!(commands.get_command("/install"), Some(CommandKind::Install));
    assert_eq!(commands.get_command("/i"), Some(CommandKind::Install));
    assert_eq!(commands.get_command("/wrap"), Some(CommandKind::Wrap));
    assert_eq!(commands.get_command("/w"), Some(CommandKind::Wrap));
    assert_eq!(commands.get_command("/fix"), Some(CommandKind::Fix));
    assert_eq!(commands.get_command("/drop"), None);
    assert_eq!(commands.get_command("/rm"), None);
    assert_eq!(commands.get_command("fix"), None);
    assert_eq!(commands.get_command("/FIX"), None);
    assert_eq!(commands.get_command(""), None);
}

#[test]
fn a_command_is_found_once_it_is_registered() {
    let mut commands = CommandCollection::new();
    assert_eq!(commands.get_command("/drop"), None);
    commands.add_command(CommandKind::Drop);
    assert_eq!(commands.get_command("/drop"), Some(CommandKind::Drop));
    assert_eq!(commands.get_command("/del"), Some(CommandKind::Drop));
    assert_eq!(commands.get_command("/fix"), None);
}

#[test]
fn the_first_word_chooses_the_command() {
    let commands = setup_commands();
    let mut args = buffer(&["/fix", "-all"]);
    assert_eq!(dispatch(&commands, &mut args), Dispatch::Run(CommandKind::Fix));
    assert_eq!(args.peek(), Some("-all"));
    let mut args = buffer(&["/nope", "x"]);
    assert_eq!(dispatch(&commands, &mut args), Dispatch::UnknownCommand);
    assert_eq!(args.remaining(), 1);
    let mut args = buffer(&[]);
    assert_eq!(dispatch(&commands, &mut args), Dispatch::NoCommand);
    assert!(args.is_empty());
}

#[test]
fn help_is_kept_by_command() {
    let mut help = HelpCentral::new();
    assert_eq!(help.get_help("/help").expect("help").description, "Show help for all commands");
    assert_eq!(help.get_help("/list").expect("help").options.len(), 1);
    assert_eq!(help.get_help("/wrap").expect("help").options.len(), 5);
    assert_eq!(help.get_help("/fix").expect("help").options.len(), 2);
    assert_eq!(help.get_help("/install").expect("help").options.len(), 1);
    assert!(help.get_help("/drop").is_none());
    assert!(help.get_help("/h").is_none());
    help.add_help(CommandHelp {
        command: "/drop".to_string(),
        synopsis: "/drop tag".to_string(),
        description: "Drop it".to_string(),
        options: vec!["tag  The tag".to_string()],
    });
    help.add_help(CommandHelp {
        command: "/drop".to_string(),
        synopsis: "second".to_string(),
        description: "second".to_string(),
        options: vec![],
    });
    assert_eq!(help.get_help("/drop").expect("help").synopsis, "/drop tag");
    assert_eq!(help.get_help("/drop").expect("help").print(), help.print_help_for("/drop"));
    assert_eq!(
        help.print_help_for("/drop"),
        vec![
            "\u{1b}[33mwexecfg /drop tag\u{1b}[0m".to_string(),
            "    Drop it\u{1b}[0m".to_string(),
            "    tag  The tag\u{1b}[0m".to_string(),
        ]
    );
}

#[test]
fn help_is_printed_line_by_line() {
    let help = HelpCentral::new();
    assert_eq!(
        help.print_help_for("/help"),
        vec![
            "\u{1b}[33mwexecfg \u{1b}[93m/help\u{1b}[0m\u{1b}[0m".to_string(),
            "    Show help for all commands\u{1b}[0m".to_string(),
        ]
    );
    assert_eq!(
        help.print_help_for("/fix"),
        vec![
            "\u{1b}[33mwexecfg \u{1b}[93m/fix\u{1b}[37m [\u{1b}[92m-all\u{1b}[37m|\u{1b}[96m\u{1b}[3mapp-name\u{1b}[0m]\u{1b}[0m".to_string(),
            "    Recreate the application stub for the specified application or all applications.\u{1b}[0m".to_string(),
            "    \u{1b}[92m-all\u{1b}[37m            Update all application stubs.\u{1b}[0m".to_string(),
            "    \u{1b}[96m\u{1b}[3mapp-name\u{1b}[0m        Update \u{1b}[96m\u{1b}[3mapp-name\u{1b}[0m only.\u{1b}[0m".to_string(),
        ]
    );
    assert_eq!(
        help.print_help_for("/nope"),
        vec!["\u{1b}[33mNo help available for command\u{1b}[0m '\u{1b}[93m/nope\u{1b}[0m'.".to_string()]
    );
    let all = help.print_all_help();
    assert_eq!(all.len(), 2 + 3 + 7 + 4 + 3);
    assert_eq!(all[0..2].to_vec(), help.print_help_for("/help"));
    assert_eq!(all[12..16].to_vec(), help.print_help_for("/fix"));
    let commands = setup_commands();
    assert_eq!(commands.print_all_help(), all);
    assert_eq!(commands.print_help_for("/list"), help.print_help_for("/list"));
}
