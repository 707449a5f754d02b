//! `git pull` on a branch without upstream: set the upstream git proposes, then pull.
use vstd::prelude::*;
use crate::command::CrabCommand;
use crate::rules::git_support::{
    get_new_command_with_git_support,
    git_script,
    is_git_view,
    match_rule_with_git_support,
};
use crate::rules::utils::{and_then, capture_group, group_of, is_app_spec, run_before};
use crate::rules::{default_priority, Rule, RuleKind};
use crate::shell::Shell;
use crate::text::{contains, has_substring, replace, replaced, strings_view};

verus! {

pub const PATTERN: &'static str = "git branch --set-upstream-to=([^\\s]+) ([^\\s]+)";

pub open spec fn aux_matches_on(script: Seq<char>, output: Option<String>) -> bool {
    match output {
        Some(o) => has_substring(script, "pull"@) && has_substring(o@, "set-upstream"@),
        None => false,
    }
}

pub open spec fn aux_matches(c: CrabCommand) -> bool {
    aux_matches_on(c.script@, c.output)
}

pub open spec fn matches(c: CrabCommand) -> bool {
    is_app_spec(c, seq!["git", "hub"], None) && aux_matches_on(git_script(c), c.output)
}

/// The command git proposes, with its `<branch>` placeholder filled in, then `script`.
pub open spec fn fixes_on(script: Seq<char>, output: Option<String>, shell: Shell) -> Seq<Seq<char>> {
    match output {
        Some(o) => match (group_of(PATTERN@, o@, 0), group_of(PATTERN@, o@, 2)) {
            (Some(line), Some(branch)) => seq![
                and_then(shell, replaced(line, "<branch>"@, branch), script),
            ],
            _ => seq![],
        },
        None => seq![],
    }
}

pub open spec fn fixes(c: CrabCommand, shell: Shell) -> Seq<Seq<char>> {
    fixes_on(git_script(c), c.output, shell)
}

fn auxiliary_match_rule(command: &CrabCommand) -> (r: bool)
    ensures
        r == aux_matches(*command),
{
    match &command.output {
        Some(output) => contains(command.script.as_str(), "pull") && contains(
            output.as_str(),
            "set-upstream",
        ),
        None => false,
    }
}

pub fn match_rule(command: &CrabCommand, _system_shell: Option<&Shell>) -> (r: bool)
    ensures
        r == matches(*command),
{
    let r = match_rule_with_git_support(auxiliary_match_rule, command);
    proof {
        if is_app_spec(*command, seq!["git", "hub"], None) {
            let d = choose|d: CrabCommand|
                is_git_view(d, *command) && call_ensures(auxiliary_match_rule, (&d,), r);
        }
    }
    r
}

fn auxiliary_get_new_command(command: &CrabCommand, system_shell: Option<&Shell>) -> (r: Vec<
    String,
>)
    requires
        system_shell is Some,
    ensures
        strings_view(r@) == fixes_on(command.script@, command.output, *system_shell.unwrap()),
{
    let shell = system_shell.unwrap();
    let mut r: Vec<String> = Vec::new();
    if let Some(output) = &command.output {
        let line = capture_group(PATTERN, output.as_str(), 0);
        let branch = capture_group(PATTERN, output.as_str(), 2);
        if let (Some(line), Some(branch)) = (line, branch) {
            let suggestion = replace(line.as_str(), "<branch>", branch.as_str());
            r.push(run_before(shell, suggestion, command.script.as_str()));
        }
    }
    assert(strings_view(r@) =~= fixes_on(command.script@, command.output, *shell));
    r
}

pub fn get_new_command(command: &CrabCommand, system_shell: Option<&Shell>) -> (r: Vec<String>)
    requires
        system_shell is Some,
    ensures
        strings_view(r@) == fixes(*command, *system_shell.unwrap()),
{
    let r = get_new_command_with_git_support(auxiliary_get_new_command, command, system_shell);
    proof {
        let d = choose|d: CrabCommand|
            is_git_view(d, *command) && call_ensures(
                auxiliary_get_new_command,
                (&d, system_shell),
                r,
            );
    }
    r
}

pub fn get_rule() -> (r: Rule)
    ensures
        r.name@ == "git_pull"@,
        r.kind == RuleKind::GitPull,
        r.priority == default_priority(),
        r.enabled_by_default,
        r.requires_output,
        r.side_effect is None,
{
    Rule::new(String::from_str("git_pull"), None, None, None, RuleKind::GitPull, None)
}

} // verus!
