//! cargo has no such subcommand but names a similar one: use it.
use vstd::prelude::*;
use crate::command::CrabCommand;
use crate::external::{lowercase_of, to_lowercase};
use crate::rules::utils::{capture_group, group_of, is_app_spec, match_rule_with_is_app};
use crate::rules::{default_priority, Rule, RuleKind};
use crate::shell::Shell;
use crate::text::{contains, has_substring, replace, replaced, strings_view};

verus! {

pub const PATTERN: &'static str =
    "(?:Did you mean|a command with a similar name exists:)\\s*`([^`]+)`";

pub open spec fn aux_matches(c: CrabCommand) -> bool {
    match c.output {
        Some(o) => c.script_parts@.len() > 1 && ((has_substring(o@, "error: no such command:"@)
            && has_substring(o@, "a command with a similar name exists:"@)) || (has_substring(
            lowercase_of(o@),
            "no such subcommand"@,
        ) && has_substring(o@, "Did you mean"@))),
        None => false,
    }
}

pub open spec fn matches(c: CrabCommand) -> bool {
    is_app_spec(c, seq!["cargo"], Some(1)) && aux_matches(c)
}

/// The script with the mistyped subcommand replaced by the one cargo names.
pub open spec fn fixes(c: CrabCommand) -> Seq<Seq<char>> {
    match c.output {
        Some(o) => if c.script_parts@.len() < 2 {
            seq![]
        } else {
            match group_of(PATTERN@, o@, 1) {
                Some(fix) => seq![replaced(c.script@, c.script_parts@[1]@, fix)],
                None => seq![],
            }
        },
        None => seq![],
    }
}

fn auxiliary_match_rule(command: &CrabCommand) -> (r: bool)
    ensures
        r == aux_matches(*command),
{
    match &command.output {
        Some(output) => {
            let lower = to_lowercase(output.as_str());
            command.script_parts.len() > 1 && ((contains(output.as_str(), "error: no such command:")
                && contains(output.as_str(), "a command with a similar name exists:")) || (
            contains(lower.as_str(), "no such subcommand") && contains(
                output.as_str(),
                "Did you mean",
            )))
        },
        None => false,
    }
}

pub fn match_rule(command: &CrabCommand, _system_shell: Option<&Shell>) -> (r: bool)
    ensures
        r == matches(*command),
{
    let names = vec!["cargo"];
    assert(names@ =~= seq!["cargo"]);
    match_rule_with_is_app(auxiliary_match_rule, command, names, Some(1))
}

pub fn get_new_command(command: &CrabCommand, _system_shell: Option<&Shell>) -> (r: Vec<String>)
    ensures
        strings_view(r@) == fixes(*command),
{
    let mut r: Vec<String> = Vec::new();
    if let Some(output) = &command.output {
        if command.script_parts.len() >= 2 {
            if let Some(fix) = capture_group(PATTERN, output.as_str(), 1) {
                r.push(
                    replace(
                        command.script.as_str(),
                        command.script_parts[1].as_str(),
                        fix.as_str(),
                    ),
                );
            }
        }
    }
    assert(strings_view(r@) =~= fixes(*command));
    r
}

pub fn get_rule() -> (r: Rule)
    ensures
        r.name@ == "cargo_no_command"@,
        r.kind == RuleKind::CargoNoCommand,
        r.priority == default_priority(),
        r.enabled_by_default,
        r.requires_output,
        r.side_effect is None,
{
    Rule::new(String::from_str("cargo_no_command"), None, None, None, RuleKind::CargoNoCommand, None)
}

} // verus!
