use ohcrab::command::CrabCommand;
use ohcrab::rules::cargo_no_command::{get_new_command, match_rule};

const NO_SUCH_SUBCOMMAND_OLD: &str = "No such subcommand\n\n        Did you mean `build`?\n";
const NO_SUCH_SUBCOMMAND_NEW: &str = "error: no such command: `buid`\n\nhelp: a command with a similar name exists: `build`\n\nhelp: view all installed commands with `cargo --list`\nhelp: find a package to install `buid` with `cargo search cargo-buid`\n";

#[test]
fn cargo_match_cases() {
    for (script, stdout) in [("cargo buid", NO_SUCH_SUBCOMMAND_OLD), ("cargo buils", NO_SUCH_SUBCOMMAND_NEW)] {
        let command = CrabCommand::new(script.to_owned(), Some(stdout.to_owned()), None);
        assert!(match_rule(&command, None), "{script}");
    }
}

#[test]
fn cargo_new_command_cases() {
    for (script, stdout) in [("cargo buid", NO_SUCH_SUBCOMMAND_OLD), ("cargo buils", NO_SUCH_SUBCOMMAND_NEW)] {
        let command = CrabCommand::new(script.to_owned(), Some(stdout.to_owned()), None);
        assert_eq!(get_new_command(&command, None), vec!["cargo build"]);
    }
}

#[test]
fn cargo_alone_does_not_match() {
    let command = CrabCommand::new("cargo".to_owned(), Some(NO_SUCH_SUBCOMMAND_OLD.to_owned()), None);
    assert!(!match_rule(&command, None));
    assert!(get_new_command(&command, None).is_empty());
}

#[test]
fn cargo_old_format_needs_case_folding() {
    let output = "NO SUCH SUBCOMMAND\n\nDid you mean `test`?\n";
    let command = CrabCommand::new("cargo tset".to_owned(), Some(output.to_owned()), None);
    assert!(match_rule(&command, None));
    assert_eq!(get_new_command(&command, None), vec!["cargo test"]);
}
