use ohcrab::command::CrabCommand;
use ohcrab::rules::touch::{get_new_command, match_rule};
use ohcrab::shell::Shell;

#[test]
fn touch_test_match() {
    let mut command = CrabCommand::new(
        "touch a/b/c".to_owned(),
        Some("touch: cannot touch 'a/b/c': No such file or directory".to_owned()),
        None,
    );
    assert!(match_rule(&mut command, None));
    let mut command_no_match =
        CrabCommand::new("touch a/b/c".to_owned(), Some("".to_owned()), None);
    assert!(!match_rule(&mut command_no_match, None));
}

#[test]
fn touch_test_get_new_command() {
    let mut command = CrabCommand::new(
        "touch a/b/c".to_owned(),
        Some("touch: cannot touch 'a/b/c': No such file or directory".to_owned()),
        None,
    );
    let system_shell = Shell::Bash;
    assert_eq!(
        get_new_command(&mut command, Some(&system_shell)),
        vec!["mkdir -p a/b && touch a/b/c"]
    );
}

#[test]
fn touch_with_fish_uses_its_operator() {
    let command = CrabCommand::new(
        "touch x/y".to_owned(),
        Some("touch: cannot touch 'x/y': No such file or directory".to_owned()),
        None,
    );
    assert_eq!(
        get_new_command(&command, Some(&Shell::Fish)),
        vec!["mkdir -p x; and touch x/y"]
    );
}

#[test]
fn touch_through_full_path_matches() {
    let command = CrabCommand::new(
        "/usr/bin/touch a/b/c".to_owned(),
        Some("touch: cannot touch 'a/b/c': No such file or directory".to_owned()),
        None,
    );
    assert!(match_rule(&command, None));
}

#[test]
fn touch_unmatched_output_gives_nothing() {
    let command = CrabCommand::new(
        "touch a".to_owned(),
        Some("touch: permission denied".to_owned()),
        None,
    );
    assert!(get_new_command(&command, Some(&Shell::Bash)).is_empty());
}
