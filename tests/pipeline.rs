use ohcrab::command::{CorrectedCommand, CrabCommand, SideEffect};
use ohcrab::rules::utils::{is_app, is_app_match_rule, match_rule_with_is_app, replace_argument};
use ohcrab::rules::{
    get_corrected_commands, get_corrected_commands_with, get_new_command_without_sudo, get_rules,
    match_rule_without_sudo, organize_commands, paths_to_check, touch, Environment, Rule, RuleKind,
};
use ohcrab::shell::Shell;

fn empty_env() -> Environment {
    Environment { operations: vec![], existing_paths: vec![], existing_files: vec![], editor: None }
}

fn entry(script: &str, priority: u128) -> CorrectedCommand {
    CorrectedCommand::new(script.to_string(), None, priority)
}

fn scripts(v: &[CorrectedCommand]) -> Vec<(&str, u128)> {
    v.iter().map(|c| (c.script.as_str(), c.priority)).collect()
}

#[test]
fn organize_sorts_stably_and_merges_neighbours() {
    let v = vec![entry("b", 2000), entry("a", 1000), entry("c", 1000), entry("a", 1000), entry("a", 3000)];
    let r = organize_commands(v);
    assert_eq!(scripts(&r), vec![("a", 1000), ("c", 1000), ("a", 1000), ("b", 2000), ("a", 3000)]);
}

#[test]
fn organize_merges_adjacent_duplicates() {
    let v = vec![entry("x", 1100), entry("x", 1000), entry("y", 1200)];
    let r = organize_commands(v);
    assert_eq!(scripts(&r), vec![("x", 1000), ("y", 1200)]);
}

#[test]
fn duplicates_separated_by_another_entry_both_survive() {
    let v = vec![entry("fix", 1000), entry("fix", 3000), entry("other", 2000)];
    let r = organize_commands(v);
    assert_eq!(scripts(&r), vec![("fix", 1000), ("other", 2000), ("fix", 3000)]);
}

#[test]
fn organize_keeps_side_effects() {
    let v = vec![
        CorrectedCommand::new("b".into(), Some(SideEffect { tag: "t".into() }), 5),
        entry("a", 1),
    ];
    let r = organize_commands(v);
    assert_eq!(r[1].side_effect.as_ref().map(|e| e.tag.as_str()), Some("t"));
}

#[test]
fn organize_of_nothing_is_nothing() {
    assert!(organize_commands(vec![]).is_empty());
}

#[test]
fn cp_missing_directory_gives_exactly_one_suggestion() {
    let c = CrabCommand::new(
        "cp foo bar/baz".to_owned(),
        Some("cp: bar/baz: No such file or directory".to_owned()),
        None,
    );
    let r = get_corrected_commands(&c, &Shell::Bash, &empty_env());
    assert_eq!(scripts(&r), vec![("mkdir -p bar && cp foo bar/baz", 1000)]);
}

#[test]
fn git_pull_without_upstream() {
    let c = CrabCommand::new(
        "git pull".to_owned(),
        Some("To set it:\n    git branch --set-upstream-to=origin/master master\n".to_owned()),
        None,
    );
    let r = get_corrected_commands(&c, &Shell::Bash, &empty_env());
    assert_eq!(
        scripts(&r),
        vec![("git branch --set-upstream-to=origin/master master && git pull", 1000)]
    );
}

#[test]
fn apt_typo_through_the_pipeline() {
    let c = CrabCommand::new(
        "apt isntall vim".to_owned(),
        Some("E: Invalid operation isntall".to_owned()),
        None,
    );
    let mut env = empty_env();
    env.operations = vec!["list".into(), "install".into(), "remove".into()];
    let r = get_corrected_commands(&c, &Shell::Bash, &env);
    assert_eq!(scripts(&r), vec![("apt install vim", 1000)]);
}

#[test]
fn later_suggestions_of_a_rule_rank_lower() {
    let c = CrabCommand::new(
        "brew install gitt".to_owned(),
        Some("Warning: No available formula with the name \"gitt\". Did you mean git, gitg or gist?".to_owned()),
        None,
    );
    let r = get_corrected_commands(&c, &Shell::Bash, &empty_env());
    assert_eq!(
        scripts(&r),
        vec![("brew install git", 1000), ("brew install gitg", 2000), ("brew install gist", 3000)]
    );
}

#[test]
fn rules_that_need_output_skip_commands_without_it() {
    let c = CrabCommand::new("sl".to_owned(), None, None);
    assert!(get_corrected_commands(&c, &Shell::Bash, &empty_env()).is_empty());
    let rules = vec![Rule::new("sl_ls".into(), None, Some(7), Some(false), RuleKind::SlLs, None)];
    let r = get_corrected_commands_with(&rules, &c, &Shell::Bash, &empty_env());
    assert_eq!(scripts(&r), vec![("ls", 7)]);
}

#[test]
fn no_rule_matches() {
    let c = CrabCommand::new("ls".to_owned(), Some("fine".to_owned()), None);
    assert!(get_corrected_commands(&c, &Shell::Bash, &empty_env()).is_empty());
}

#[test]
fn runs_are_repeatable() {
    let c = CrabCommand::new(
        "touch a/b/c".to_owned(),
        Some("touch: cannot touch 'a/b/c': No such file or directory".to_owned()),
        None,
    );
    let first = get_corrected_commands(&c, &Shell::Bash, &empty_env());
    let second = get_corrected_commands(&c, &Shell::Bash, &empty_env());
    assert_eq!(scripts(&first), scripts(&second));
}

#[test]
fn two_rules_merge_into_ranked_list() {
    let c = CrabCommand::new(
        "git checkout new_file.txt".to_owned(),
        Some("error: pathspec 'new_file.txt' did not match any file(s) known to git\nnew_file.txt:4:2: note".to_owned()),
        None,
    );
    let mut env = empty_env();
    env.existing_paths = vec!["new_file.txt".into()];
    env.existing_files = vec!["new_file.txt".into()];
    env.editor = Some("vi".into());
    assert_eq!(paths_to_check(&c), vec!["new_file.txt", "new_file.txt", "new_file.txt"]);
    let r = get_corrected_commands(&c, &Shell::Bash, &env);
    assert_eq!(
        scripts(&r),
        vec![
            ("vi new_file.txt +4 && git checkout new_file.txt", 1000),
            ("git add -- new_file.txt && git checkout new_file.txt", 1100),
        ]
    );
}

#[test]
fn registry_holds_every_rule() {
    let names: Vec<String> = get_rules().into_iter().map(|r| r.name).collect();
    assert_eq!(
        names,
        vec![
            "apt_invalid_operation", "brew_install", "cargo_no_command", "cp_create_destination",
            "fix_file", "git_add", "git_pull", "sl_ls", "touch",
        ]
    );
}

#[test]
fn rule_defaults_and_overrides() {
    let r = Rule::new("x".into(), None, None, None, RuleKind::Touch, None);
    assert!(r.enabled_by_default && r.requires_output && r.priority == 1000);
    let r = Rule::new("x".into(), Some(false), Some(5), Some(false), RuleKind::Touch, None);
    assert!(!r.enabled_by_default && !r.requires_output && r.priority == 5);
}

fn touch_fix(c: &CrabCommand) -> Vec<String> {
    touch::get_new_command(c, Some(&Shell::Bash))
}

fn touch_matches(c: &CrabCommand) -> bool {
    touch::match_rule(c, None)
}

#[test]
fn sudo_is_stripped_and_put_back() {
    let c = CrabCommand::new(
        "sudo touch a/b/c".to_owned(),
        Some("touch: cannot touch 'a/b/c': No such file or directory".to_owned()),
        None,
    );
    assert!(!touch::match_rule(&c, None));
    assert!(match_rule_without_sudo(touch_matches, &c));
    assert_eq!(get_new_command_without_sudo(touch_fix, &c), vec!["sudo mkdir -p a/b && touch a/b/c"]);
}

#[test]
fn sudo_without_space_is_left_alone() {
    let c = CrabCommand::new("sudo".to_owned(), Some("x".to_owned()), None);
    let seen = get_new_command_without_sudo(|d: &CrabCommand| vec![d.script.clone()], &c);
    assert_eq!(seen, vec!["sudo"]);
    let c = CrabCommand::new("ls".to_owned(), Some("x".to_owned()), None);
    assert!(!match_rule_without_sudo(|d: &CrabCommand| d.script != "ls", &c));
}

#[test]
fn app_check_does_not_call_predicate_for_other_programs() {
    let c = CrabCommand::new("ls -la".to_owned(), Some("anything".to_owned()), None);
    let r = match_rule_with_is_app(|_: &CrabCommand| -> bool { panic!("called") }, &c, vec!["git"], None);
    assert!(!r);
    assert!(!is_app(&c, &vec!["git", "hub"], None));
    assert!(is_app(&c, &vec!["ls"], Some(1)));
    assert!(!is_app(&c, &vec!["ls"], Some(2)));
    let m = is_app_match_rule(vec!["git"], None, |_: &CrabCommand| -> bool { panic!("called") });
    assert!(!m.call(&c, None));
}

#[test]
fn app_check_uses_base_name() {
    let c = CrabCommand::new("/usr/local/bin/git status".to_owned(), None, None);
    assert!(is_app(&c, &vec!["git"], None));
    let m = is_app_match_rule(vec!["git"], Some(1), |_: &CrabCommand| true);
    assert!(m.call(&c, None));
}

#[test]
fn replace_argument_prefers_the_last_word() {
    assert_eq!(replace_argument("apt isntall vim", "isntall", "install"), "apt install vim");
    assert_eq!(replace_argument("git brnch", "brnch", "branch"), "git branch");
    assert_eq!(replace_argument("a b b", "b", "c"), "a b c");
    assert_eq!(replace_argument("ab", "x", "y"), "ab");
}
