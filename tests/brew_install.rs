use ohcrab::command::CrabCommand;
use ohcrab::rules::brew_install::{get_new_command, get_suggestions, match_rule};

const BREW_NO_AVAILABLE_FORMULA_ONE: &str =
    "Warning: No available formula with the name \"giss\". Did you mean gist?";
const BREW_NO_AVAILABLE_FORMULA_TWO: &str = "Warning: No available formula with the name \"elasticserar\". Did you mean elasticsearch or elasticsearch@6?";
const BREW_NO_AVAILABLE_FORMULA_THREE: &str =
    "Warning: No available formula with the name \"gitt\". Did you mean git, gitg or gist?";
const BREW_INSTALL_NO_ARGUMENT: &str =
    "Install a formula or cask. Additional options specific to a formula may be";
const BREW_ALREADY_INSTALLED: &str = "Warning: git-2.3.5 already installed";

#[test]
fn test_suggestions() {
    assert_eq!(get_suggestions("one".to_owned()), ["one"]);
    assert_eq!(get_suggestions("one or two".to_owned()), ["one", "two"]);
    assert_eq!(
        get_suggestions("one, two or three".to_owned()),
        ["one", "two", "three"]
    );
}

#[test]
fn brew_match_cases() {
    let cases = [
        ("brew install giss", BREW_NO_AVAILABLE_FORMULA_ONE, true),
        ("brew install elasticserar", BREW_NO_AVAILABLE_FORMULA_TWO, true),
        ("brew install gitt", BREW_NO_AVAILABLE_FORMULA_THREE, true),
        ("brew install git", BREW_ALREADY_INSTALLED, false),
        ("brew install", BREW_INSTALL_NO_ARGUMENT, false),
    ];
    for (script, stdout, expected) in cases {
        let command = CrabCommand::new(script.to_owned(), Some(stdout.to_owned()), None);
        assert_eq!(match_rule(&command, None), expected, "{script}");
    }
}

#[test]
fn brew_new_command_cases() {
    let cases: [(&str, &str, Vec<&str>); 3] = [
        ("brew install giss", BREW_NO_AVAILABLE_FORMULA_ONE, vec!["brew install gist"]),
        (
            "brew install elasticsear",
            BREW_NO_AVAILABLE_FORMULA_TWO,
            vec!["brew install elasticsearch", "brew install elasticsearch@6"],
        ),
        (
            "brew install gitt",
            BREW_NO_AVAILABLE_FORMULA_THREE,
            vec!["brew install git", "brew install gitg", "brew install gist"],
        ),
    ];
    for (script, stdout, expected) in cases {
        let command = CrabCommand::new(script.to_owned(), Some(stdout.to_owned()), None);
        assert_eq!(get_new_command(&command, None), expected);
    }
}

#[test]
fn brew_unmatched_output_gives_nothing() {
    let command = CrabCommand::new(
        "brew install git".to_owned(),
        Some(BREW_ALREADY_INSTALLED.to_owned()),
        None,
    );
    assert!(get_new_command(&command, None).is_empty());
}
