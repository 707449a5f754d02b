use ohcrab::command::CrabCommand;
use ohcrab::rules::git_add;
use ohcrab::rules::git_support;
use ohcrab::rules::git_pull;
use ohcrab::shell::Shell;

const PULL_OUTPUT: &str = r#"There is no tracking information for the current branch.
Please specify which branch you want to merge with.
See git-pull(1) for details

    git pull <remote> <branch>

If you wish to set tracking information for this branch you can do so with:

    git branch --set-upstream-to=origin/master master


"#;

#[test]
fn git_pull_match_cases() {
    for (script, stdout, expected) in [("git pull", PULL_OUTPUT, true), ("git pull", "", false), ("ls", PULL_OUTPUT, false)] {
        let command = CrabCommand::new(script.to_owned(), Some(stdout.to_owned()), None);
        assert_eq!(git_pull::match_rule(&command, None), expected);
    }
}

#[test]
fn git_pull_new_command() {
    let command = CrabCommand::new("git pull".to_owned(), Some(PULL_OUTPUT.to_owned()), None);
    assert_eq!(
        git_pull::get_new_command(&command, Some(&Shell::Bash)),
        vec!["git branch --set-upstream-to=origin/master master && git pull"]
    );
}

#[test]
fn git_pull_fills_branch_placeholder() {
    let output = "    git branch --set-upstream-to=origin/<branch> feature\n";
    let command = CrabCommand::new("git pull".to_owned(), Some(output.to_owned()), None);
    assert_eq!(
        git_pull::get_new_command(&command, Some(&Shell::Bash)),
        vec!["git branch --set-upstream-to=origin/feature feature && git pull"]
    );
}

fn pathspec_output(target: &str) -> String {
    if target.is_empty() {
        String::new()
    } else {
        format!("error: pathspec '{target}' did not match any file(s) known to git")
    }
}

#[test]
fn git_add_match_cases() {
    let cases = [
        ("git submodule update unknown", "unknown", true, true),
        ("git commit unknown", "unknown", true, true),
        ("git submodule update known", "", true, false),
        ("git commit known", "", true, false),
        ("git submodule update known", "unknown", false, false),
    ];
    for (script, target, path_exists, expected) in cases {
        let command = CrabCommand::new(script.to_owned(), Some(pathspec_output(target)), None);
        assert_eq!(git_add::mockable_match_rule(&command, path_exists), expected, "{script}");
    }
}

#[test]
fn git_add_new_command_cases() {
    let cases = [
        ("git submodule update unknown", "unknown", "git add -- unknown && git submodule update unknown"),
        ("git commit unknown", "unknown", "git add -- unknown && git commit unknown"),
        (
            "git commit \"file with spaces.txt\"",
            "file with spaces.txt",
            "git add -- 'file with spaces.txt' && git commit \"file with spaces.txt\"",
        ),
    ];
    for (script, target, expected) in cases {
        let command = CrabCommand::new(script.to_owned(), Some(pathspec_output(target)), None);
        assert_eq!(
            git_add::mockable_get_new_command(&command, Some(&Shell::Bash), true)[0],
            expected
        );
    }
}

#[test]
fn git_add_uses_known_paths() {
    let command = CrabCommand::new(
        "git checkout new_file.txt".to_owned(),
        Some(pathspec_output("new_file.txt")),
        None,
    );
    let known = vec!["other".to_string(), "new_file.txt".to_string()];
    assert!(git_add::match_rule(&command, None, &known));
    assert!(!git_add::match_rule(&command, None, &vec![]));
    assert_eq!(
        git_add::get_new_command(&command, Some(&Shell::Bash), &known),
        vec!["git add -- new_file.txt && git checkout new_file.txt"]
    );
    assert_eq!(git_add::missing_pathspec(&command), Some("new_file.txt".to_string()));
}

#[test]
fn git_add_not_a_git_command() {
    let command = CrabCommand::new("svn commit x".to_owned(), Some(pathspec_output("x")), None);
    assert!(!git_add::match_rule(&command, None, &vec!["x".to_string()]));
}

#[test]
fn git_alias_is_expanded_before_matching() {
    let output = "trace: alias expansion: pl => pull\nThere is no tracking information.\n    git branch --set-upstream-to=origin/master master\n";
    let command = CrabCommand::new("git pl".to_owned(), Some(output.to_owned()), None);
    assert!(git_pull::match_rule(&command, None));
    assert_eq!(
        git_pull::get_new_command(&command, Some(&Shell::Bash)),
        vec!["git branch --set-upstream-to=origin/master master && git pull"]
    );
}

#[test]
fn git_alias_expansion_is_requoted() {
    let output = "trace: alias expansion: ci => 'commit' '--amend'\nerror: pathspec 'a b' did not match any file(s) known to git";
    let command = CrabCommand::new("git ci x".to_owned(), Some(output.to_owned()), None);
    let expanded = git_support::expand_git_alias(&command);
    assert_eq!(expanded.script, "git commit --amend x");
    assert_eq!(expanded.script_parts, vec!["git", "commit", "--amend", "x"]);
    assert_eq!(expanded.output, command.output);
    assert_eq!(
        git_add::get_new_command(&command, Some(&Shell::Bash), &vec!["a b".to_string()]),
        vec!["git add -- 'a b' && git commit --amend x"]
    );
}

#[test]
fn git_without_alias_trace_is_unchanged() {
    let command = CrabCommand::new("git pl".to_owned(), Some("nothing".to_owned()), None);
    let same = git_support::expand_git_alias(&command);
    assert_eq!(same.script, "git pl");
    assert_eq!(same.script_parts, vec!["git", "pl"]);
}
