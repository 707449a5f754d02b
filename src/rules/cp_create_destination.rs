//! `cp` or `mv` failed because the destination directory is missing: create it first.
use vstd::prelude::*;
use crate::command::CrabCommand;
use crate::external::{parent, parent_of};
use crate::rules::utils::{is_app_spec, match_rule_with_is_app, mkdir_and_retry, mkdir_then};
use crate::rules::{default_priority, Rule, RuleKind};
use crate::shell::Shell;
use crate::text::{
    chars_of,
    contains,
    ends_with,
    has_substring,
    starts_with,
    strings_view,
    trim_end,
    trim_end_spec,
};

verus! {

pub open spec fn is_separator(c: char) -> bool {
    c == '/' || c == '\\'
}

/// The length of `s[..k]` once trailing path separators are removed.
pub open spec fn without_separators_len(s: Seq<char>, k: int) -> int
    decreases k,
{
    if k <= 0 {
        0
    } else if is_separator(s[k - 1]) {
        without_separators_len(s, k - 1)
    } else {
        k
    }
}

pub open spec fn aux_matches(c: CrabCommand) -> bool {
    match c.output {
        Some(o) => has_substring(o@, "No such file or directory"@) || "Not a directory"@.is_suffix_of(
            trim_end_spec(o@),
        ) || ("cp: directory"@.is_prefix_of(o@) && "does not exist"@.is_suffix_of(
            trim_end_spec(o@),
        )),
        None => false,
    }
}

pub open spec fn matches(c: CrabCommand) -> bool {
    is_app_spec(c, seq!["cp", "mv"], None) && aux_matches(c)
}

/// The directory the destination `dest` lies in: `dest` itself without its
/// trailing separators when it ends with one, else its parent.
pub open spec fn destination_dir(dest: Seq<char>) -> Option<Seq<char>> {
    if dest.len() > 0 && is_separator(dest.last()) {
        Some(dest.subrange(0, without_separators_len(dest, dest.len() as int)))
    } else {
        parent_of(dest)
    }
}

pub open spec fn fixes(c: CrabCommand, shell: Shell) -> Seq<Seq<char>> {
    let parts = c.script_parts@;
    if parts.len() == 0 {
        seq![]
    } else {
        match destination_dir(parts.last()@) {
            Some(dir) => if dir.len() > 0 {
                seq![mkdir_then(shell, dir, c.script@)]
            } else {
                seq![]
            },
            None => seq![],
        }
    }
}

pub fn auxiliary_match_rule(command: &CrabCommand) -> (r: bool)
    ensures
        r == aux_matches(*command),
{
    match &command.output {
        Some(output) => {
            let trimmed = trim_end(output.as_str());
            contains(output.as_str(), "No such file or directory") || ends_with(
                trimmed.as_str(),
                "Not a directory",
            ) || (starts_with(output.as_str(), "cp: directory") && ends_with(
                trimmed.as_str(),
                "does not exist",
            ))
        },
        None => false,
    }
}

pub fn match_rule(command: &CrabCommand, _system_shell: Option<&Shell>) -> (r: bool)
    ensures
        r == matches(*command),
{
    let names = vec!["cp", "mv"];
    assert(names@ =~= seq!["cp", "mv"]);
    match_rule_with_is_app(auxiliary_match_rule, command, names, None)
}

fn directory_of(dest: &str) -> (r: Option<String>)
    ensures
        match r {
            Some(d) => destination_dir(dest@) == Some(d@),
            None => destination_dir(dest@) is None,
        },
{
    let cs = chars_of(dest);
    let n = cs.len();
    if n > 0 && (cs[n - 1] == '/' || cs[n - 1] == '\\') {
        let mut k = n;
        while k > 0 && (cs[k - 1] == '/' || cs[k - 1] == '\\')
            invariant
                cs@ == dest@,
                k <= n == dest@.len(),
                without_separators_len(dest@, k as int) == without_separators_len(
                    dest@,
                    n as int,
                ),
            decreases k,
        {
            k -= 1;
        }
        Some(String::from_str(dest.substring_char(0, k)))
    } else {
        parent(dest)
    }
}

pub fn get_new_command(command: &CrabCommand, system_shell: Option<&Shell>) -> (r: Vec<String>)
    requires
        system_shell is Some,
    ensures
        strings_view(r@) == fixes(*command, *system_shell.unwrap()),
{
    let shell = system_shell.unwrap();
    let n = command.script_parts.len();
    if n > 0 {
        if let Some(dir) = directory_of(command.script_parts[n - 1].as_str()) {
            if dir.as_str().unicode_len() > 0 {
                let r = vec![mkdir_and_retry(shell, dir.as_str(), command.script.as_str())];
                assert(strings_view(r@) =~= fixes(*command, *shell));
                return r;
            }
        }
    }
    let r: Vec<String> = Vec::new();
    assert(strings_view(r@) =~= fixes(*command, *shell));
    r
}

pub fn get_rule() -> (r: Rule)
    ensures
        r.name@ == "cp_create_destination"@,
        r.kind == RuleKind::CpCreateDestination,
        r.priority == default_priority(),
        r.enabled_by_default,
        r.requires_output,
        r.side_effect is None,
{
    Rule::new(
        String::from_str("cp_create_destination"),
        None,
        None,
        None,
        RuleKind::CpCreateDestination,
        None,
    )
}

} // verus!
