use ohcrab::command::CrabCommand;
use ohcrab::rules::apt_invalid_operation::{get_new_command, get_operations, get_rule, match_rule};
use ohcrab::rules::RuleKind;

fn apt_get_operations() -> Vec<String> {
    [
        "update", "upgrade", "install", "reinstall", "remove", "purge", "autoremove", "dist-upgrade",
        "dselect-upgrade", "build-dep", "satisfy", "clean", "autoclean", "check", "source",
        "download", "changelog", "indextargets",
    ]
    .iter()
    .map(|s| s.to_string())
    .collect()
}

#[test]
fn apt_invalid_operation_test_match() {
    let mut command = CrabCommand::new(
        "apt isntall vim".to_owned(),
        Some("E: Invalid operation isntall".to_owned()),
        None,
    );
    assert!(match_rule(&mut command, None));
    let mut command_no_match =
        CrabCommand::new("apt install vim".to_owned(), Some("".to_owned()), None);
    assert!(!match_rule(&mut command_no_match, None));
}

#[test]
fn apt_invalid_operation_test_get_new_command() {
    let mut command = CrabCommand::new(
        "apt-get isntall vim".to_owned(),
        Some("E: Invalid operation isntall".to_owned()),
        None,
    );
    assert!(!get_new_command(&mut command, None, &apt_get_operations()).is_empty());
}

#[test]
fn apt_suggests_install() {
    let command = CrabCommand::new(
        "apt isntall vim".to_owned(),
        Some("E: Invalid operation isntall".to_owned()),
        None,
    );
    let ops: Vec<String> = vec!["list".into(), "search".into(), "install".into(), "remove".into()];
    assert_eq!(get_new_command(&command, None, &ops), vec!["apt install vim"]);
}

#[test]
fn apt_no_close_operation_gives_nothing() {
    let command = CrabCommand::new(
        "apt zzz999 vim".to_owned(),
        Some("E: Invalid operation zzz999".to_owned()),
        None,
    );
    assert!(get_new_command(&command, None, &apt_get_operations()).is_empty());
}

#[test]
fn apt_without_output_gives_nothing() {
    let command = CrabCommand::new("apt isntall vim".to_owned(), None, None);
    assert!(!match_rule(&command, None));
    assert!(get_new_command(&command, None, &apt_get_operations()).is_empty());
}

#[test]
fn apt_other_program_does_not_match() {
    let command = CrabCommand::new(
        "yum isntall vim".to_owned(),
        Some("E: Invalid operation isntall".to_owned()),
        None,
    );
    assert!(!match_rule(&command, None));
}

#[test]
fn apt_operations_from_help() {
    let help = "apt 2.4.5 (amd64)\nUsage: apt [options] command\n\nMost used commands:\n  list - list packages\n\nBasic commands:\n  list - list packages based on package names\n  search - search in package descriptions\n  install - install packages\n   \n  remove - remove packages\n\nSee apt(8) for more information.\n";
    assert_eq!(get_operations("apt", help), vec!["list", "search", "install", "remove"]);
}

#[test]
fn apt_get_operations_from_help() {
    let help = "Usage: apt-get [options] command\r\n\r\nCommands:\r\n  update - Retrieve new lists\r\n  install - Install new packages\r\n\r\nBasic commands:\r\n  bogus - not read\r\n";
    assert_eq!(get_operations("apt-get", help), vec!["update", "install"]);
}

#[test]
fn apt_operations_without_header() {
    assert!(get_operations("apt", "Commands:\n  list - x\n").is_empty());
}

#[test]
fn apt_rule_defaults() {
    let rule = get_rule();
    assert_eq!(rule.name, "apt_invalid_operation");
    assert_eq!(rule.priority, 1000);
    assert!(rule.enabled_by_default);
    assert!(rule.requires_output);
    assert_eq!(rule.kind, RuleKind::AptInvalidOperation);
}
