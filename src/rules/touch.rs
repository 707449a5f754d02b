//! `touch` failed because a directory on the path is missing: create it first.
use vstd::prelude::*;
use crate::command::CrabCommand;
use crate::external::{parent, parent_of};
use crate::rules::utils::{
    capture_group,
    group_of,
    is_app_spec,
    match_rule_with_is_app,
    mkdir_and_retry,
    mkdir_then,
};
use crate::rules::{default_priority, Rule, RuleKind};
use crate::shell::Shell;
use crate::text::{contains, has_substring, strings_view};

verus! {

pub const PATTERN: &'static str = "touch: cannot touch '([^']+)': No such file or directory";

pub open spec fn aux_matches(c: CrabCommand) -> bool {
    match c.output {
        Some(o) => has_substring(o@, "touch: cannot touch"@) && has_substring(
            o@,
            "No such file or directory"@,
        ),
        None => false,
    }
}

pub open spec fn matches(c: CrabCommand) -> bool {
    is_app_spec(c, seq!["touch"], None) && aux_matches(c)
}

/// The directory to create and the script to run again.
pub open spec fn fixes(c: CrabCommand, shell: Shell) -> Seq<Seq<char>> {
    match c.output {
        Some(o) => match group_of(PATTERN@, o@, 1) {
            Some(path) => match parent_of(path) {
                Some(dir) => seq![mkdir_then(shell, dir, c.script@)],
                None => seq![],
            },
            None => seq![],
        },
        None => seq![],
    }
}

fn auxiliary_match_rule(command: &CrabCommand) -> (r: bool)
    ensures
        r == aux_matches(*command),
{
    match &command.output {
        Some(output) => contains(output.as_str(), "touch: cannot touch") && contains(
            output.as_str(),
            "No such file or directory",
        ),
        None => false,
    }
}

pub fn match_rule(command: &CrabCommand, _system_shell: Option<&Shell>) -> (r: bool)
    ensures
        r == matches(*command),
{
    let names = vec!["touch"];
    assert(names@ =~= seq!["touch"]);
    match_rule_with_is_app(auxiliary_match_rule, command, names, None)
}

pub fn get_new_command(command: &CrabCommand, system_shell: Option<&Shell>) -> (r: Vec<String>)
    requires
        system_shell is Some,
    ensures
        strings_view(r@) == fixes(*command, *system_shell.unwrap()),
{
    let shell = system_shell.unwrap();
    if let Some(output) = &command.output {
        if let Some(path) = capture_group(PATTERN, output.as_str(), 1) {
            if let Some(dir) = parent(path.as_str()) {
                let r = vec![mkdir_and_retry(shell, dir.as_str(), command.script.as_str())];
                assert(strings_view(r@) =~= fixes(*command, *shell));
                return r;
            }
        }
    }
    let r: Vec<String> = Vec::new();
    assert(strings_view(r@) =~= fixes(*command, *shell));
    r
}

pub fn get_rule() -> (r: Rule)
    ensures
        r.name@ == "touch"@,
        r.kind == RuleKind::Touch,
        r.priority == default_priority(),
        r.enabled_by_default,
        r.requires_output,
        r.side_effect is None,
{
    Rule::new(String::from_str("touch"), None, None, None, RuleKind::Touch, None)
}

} // verus!
