//! brew knows no formula of that name but suggests some: install those.
use vstd::prelude::*;
use crate::command::CrabCommand;
use crate::rules::utils::{capture_group, group_of};
use crate::rules::{default_priority, Rule, RuleKind};
use crate::shell::Shell;
use crate::text::{concat, contains, has_substring, pieces_from, replace, replaced, split, strings_view};

verus! {

pub const PATTERN: &'static str =
    "Warning: No available formula with the name \"(?:[^\"]+)\". Did you mean (.+)\\?";

pub open spec fn matches(c: CrabCommand) -> bool {
    match c.output {
        Some(o) => has_substring(c.script@, "install"@) && has_substring(
            o@,
            "No available formula"@,
        ) && has_substring(o@, "Did you mean"@),
        None => false,
    }
}

/// The names of a list written as `"a, b or c"`.
pub open spec fn suggestions_of(s: Seq<char>) -> Seq<Seq<char>> {
    pieces_from(replaced(s, " or "@, ", "@), ", "@, 0)
}

pub open spec fn fixes(c: CrabCommand) -> Seq<Seq<char>> {
    match c.output {
        Some(o) => match group_of(PATTERN@, o@, 1) {
            Some(list) => suggestions_of(list).map_values(|f: Seq<char>| "brew install "@ + f),
            None => seq![],
        },
        None => seq![],
    }
}

/// The names of a list written as `"a, b or c"`.
pub fn get_suggestions(str: String) -> (r: Vec<String>)
    ensures
        strings_view(r@) == suggestions_of(str@),
{
    proof {
        reveal_strlit(", ");
    }
    let commas = replace(str.as_str(), " or ", ", ");
    split(commas.as_str(), ", ")
}

pub fn match_rule(command: &CrabCommand, _system_shell: Option<&Shell>) -> (r: bool)
    ensures
        r == matches(*command),
{
    match &command.output {
        Some(output) => contains(command.script.as_str(), "install") && contains(
            output.as_str(),
            "No available formula",
        ) && contains(output.as_str(), "Did you mean"),
        None => false,
    }
}

pub fn get_new_command(command: &CrabCommand, _system_shell: Option<&Shell>) -> (r: Vec<String>)
    ensures
        strings_view(r@) == fixes(*command),
{
    let mut r: Vec<String> = Vec::new();
    if let Some(output) = &command.output {
        if let Some(list) = capture_group(PATTERN, output.as_str(), 1) {
            let ghost list_view = list@;
            let names = get_suggestions(list);
            let ghost target = suggestions_of(list_view).map_values(
                |f: Seq<char>| "brew install "@ + f,
            );
            let mut i: usize = 0;
            while i < names.len()
                invariant
                    i <= names@.len(),
                    strings_view(names@) == suggestions_of(list_view),
                    target == suggestions_of(list_view).map_values(
                        |f: Seq<char>| "brew install "@ + f,
                    ),
                    strings_view(r@) == target.take(i as int),
                decreases names@.len() - i,
            {
                let ghost before = strings_view(r@);
                r.push(concat("brew install ", names[i].as_str()));
                assert(strings_view(r@) =~= before.push(r@[i as int]@));
                assert(target.len() == names@.len());
                assert(strings_view(names@)[i as int] == names@[i as int]@);
                assert(target[i as int] == "brew install "@ + names@[i as int]@);
                assert(strings_view(r@) =~= target.take(i + 1));
                i += 1;
            }
            assert(target.take(names@.len() as int) =~= target);
            return r;
        }
    }
    assert(strings_view(r@) =~= fixes(*command));
    r
}

pub fn get_rule() -> (r: Rule)
    ensures
        r.name@ == "brew_install"@,
        r.kind == RuleKind::BrewInstall,
        r.priority == default_priority(),
        r.enabled_by_default,
        r.requires_output,
        r.side_effect is None,
{
    Rule::new(String::from_str("brew_install"), None, None, None, RuleKind::BrewInstall, None)
}

} // verus!
