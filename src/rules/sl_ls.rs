//! `sl` is a common slip for `ls`.
use vstd::prelude::*;
use crate::command::CrabCommand;
use crate::rules::{default_priority, Rule, RuleKind};
use crate::shell::Shell;
use crate::text::{equal, strings_view};

verus! {

pub open spec fn matches(c: CrabCommand) -> bool {
    c.script@ == "sl"@
}

pub fn match_rule(command: &CrabCommand, _system_shell: Option<&Shell>) -> (r: bool)
    ensures
        r == matches(*command),
{
    equal(command.script.as_str(), "sl")
}

pub fn get_new_command(_command: &CrabCommand, _system_shell: Option<&Shell>) -> (r: Vec<String>)
    ensures
        strings_view(r@) == seq!["ls"@],
{
    let r = vec![String::from_str("ls")];
    assert(strings_view(r@) =~= seq!["ls"@]);
    r
}

pub fn get_rule() -> (r: Rule)
    ensures
        r.name@ == "sl_ls"@,
        r.kind == RuleKind::SlLs,
        r.priority == default_priority(),
        r.enabled_by_default,
        r.requires_output,
        r.side_effect is None,
{
    Rule::new(String::from_str("sl_ls"), None, None, None, RuleKind::SlLs, None)
}

} // verus!
