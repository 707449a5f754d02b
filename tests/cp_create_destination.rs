use ohcrab::command::CrabCommand;
use ohcrab::rules::cp_create_destination::{auxiliary_match_rule, get_new_command, match_rule};
use ohcrab::shell::Shell;

#[test]
fn cp_match_cases() {
    let cases = [
        ("cp", "cp: directory foo does not exist\n", true),
        ("mv", "No such file or directory", true),
        ("cp", "", false),
        ("mv", "", false),
        ("ls", "No such file or directory", false),
    ];
    for (script, output, expected) in cases {
        let command = CrabCommand::new(script.to_owned(), Some(output.to_owned()), None);
        assert_eq!(match_rule(&command, None), expected, "{script} {output}");
    }
}

#[test]
fn cp_not_a_directory_matches() {
    let command = CrabCommand::new(
        "cp a b/c".to_owned(),
        Some("cp: b/c: Not a directory  \n".to_owned()),
        None,
    );
    assert!(auxiliary_match_rule(&command));
}

#[test]
fn cp_new_command_cases() {
    let cases = [
        ("cp foo bar/baz", "cp: bar/baz: No such file or directory", "mkdir -p bar && cp foo bar/baz"),
        ("mv foo bar/qux/", "mv: bar/qux/: No such file or directory", "mkdir -p bar/qux && mv foo bar/qux/"),
    ];
    for (script, output, expected) in cases {
        let system_shell = Shell::Bash;
        let command = CrabCommand::new(script.to_owned(), Some(output.to_owned()), None);
        assert_eq!(get_new_command(&command, Some(&system_shell)), vec![expected]);
    }
}

#[test]
fn cp_destination_without_directory_gives_nothing() {
    let command = CrabCommand::new(
        "cp foo baz".to_owned(),
        Some("cp: baz: No such file or directory".to_owned()),
        None,
    );
    assert!(get_new_command(&command, Some(&Shell::Bash)).is_empty());
}
