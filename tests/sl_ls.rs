use ohcrab::command::CrabCommand;
use ohcrab::rules::sl_ls::{get_new_command, match_rule};

#[test]
fn sl_match_cases() {
    for (script, stdout, expected) in [("sl", "sl: command not found", true), ("ls", "", false)] {
        let command = CrabCommand::new(script.to_owned(), Some(stdout.to_owned()), None);
        assert_eq!(match_rule(&command, None), expected);
    }
}

#[test]
fn sl_new_command() {
    let command = CrabCommand::new("sl".to_owned(), Some("".to_owned()), None);
    assert_eq!(get_new_command(&command, None), vec!["ls"]);
}
