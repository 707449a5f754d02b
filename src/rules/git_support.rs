//! Wrappers for the git rules: they apply to git and hub, and see the script
//! with a git alias expanded when git's trace output reports the expansion.
use vstd::prelude::*;
use crate::command::{split_command, tokens_of, CrabCommand};
use crate::external::{shell_quote, shell_quoted_of};
use crate::rules::utils::{
    capture_group,
    group_of,
    is_app_spec,
    match_rule_with_is_app,
    replace_argument,
    replaced_argument,
};
use crate::shell::{joined, Shell};
use crate::text::{contains, has_substring, strings_view};

verus! {

pub const ALIAS_PATTERN: &'static str = "trace: alias expansion: ([^ ]*) => ([^\n]*)";

/// `w` quoted for the shell, or left as it is when it cannot be quoted.
pub open spec fn quoted_or_same(w: Seq<char>) -> Seq<char> {
    if w.contains('\0') {
        w
    } else {
        shell_quoted_of(w)
    }
}

/// The words of `expansion`, each quoted, separated by single spaces.
pub open spec fn requoted(expansion: Seq<char>) -> Seq<char> {
    joined(tokens_of(expansion).map_values(|w: Seq<char>| quoted_or_same(w)), " "@)
}

/// The script of `c` with the git alias that the output reports replaced by
/// its expansion; `None` when the output reports none.
pub open spec fn alias_expanded(c: CrabCommand) -> Option<Seq<char>> {
    match c.output {
        Some(o) => if has_substring(o@, "trace: alias expansion:"@) {
            match (group_of(ALIAS_PATTERN@, o@, 1), group_of(ALIAS_PATTERN@, o@, 2)) {
                (Some(alias), Some(expansion)) => Some(
                    replaced_argument(c.script@, alias, requoted(expansion)),
                ),
                _ => None,
            }
        } else {
            None
        },
        None => None,
    }
}

/// The script that the git rules see for `c`.
pub open spec fn git_script(c: CrabCommand) -> Seq<char> {
    match alias_expanded(c) {
        Some(s) => s,
        None => c.script@,
    }
}

/// `d` is `c` as the git rules see it.
pub open spec fn is_git_view(d: CrabCommand, c: CrabCommand) -> bool {
    &&& d.script@ == git_script(c)
    &&& d.output == c.output
    &&& d.exit_code == c.exit_code
}

/// The words of `parts`, each quoted, separated by single spaces.
fn join_quoted(parts: &Vec<String>) -> (r: String)
    ensures
        r@ == joined(strings_view(parts@).map_values(|w: Seq<char>| quoted_or_same(w)), " "@),
{
    let ghost q = strings_view(parts@).map_values(|w: Seq<char>| quoted_or_same(w));
    let mut r = String::new();
    let mut i: usize = 0;
    while i < parts.len()
        invariant
            i <= parts@.len(),
            q == strings_view(parts@).map_values(|w: Seq<char>| quoted_or_same(w)),
            r@ == joined(q.take(i as int), " "@),
        decreases parts@.len() - i,
    {
        assert(q.take(i + 1).drop_last() =~= q.take(i as int));
        if i > 0 {
            r.append(" ");
        }
        match shell_quote(parts[i].as_str()) {
            Some(w) => r.append(w.as_str()),
            None => r.append(parts[i].as_str()),
        }
        assert(q[i as int] == quoted_or_same(parts@[i as int]@));
        i += 1;
    }
    assert(q.take(parts@.len() as int) =~= q);
    r
}

/// `command` as the git rules see it: with the alias that git's trace
/// output reports expanded in its script. `command` is left as it is.
pub fn expand_git_alias(command: &CrabCommand) -> (r: CrabCommand)
    ensures
        is_git_view(r, *command),
        alias_expanded(*command) is Some ==> r.wf(),
        alias_expanded(*command) is None ==> r.script_parts@ == command.script_parts@,
{
    if let Some(output) = &command.output {
        if contains(output.as_str(), "trace: alias expansion:") {
            let alias = capture_group(ALIAS_PATTERN, output.as_str(), 1);
            let expansion = capture_group(ALIAS_PATTERN, output.as_str(), 2);
            if let (Some(alias), Some(expansion)) = (alias, expansion) {
                let parts = split_command(expansion.as_str());
                let words = join_quoted(&parts);
                let script = replace_argument(
                    command.script.as_str(),
                    alias.as_str(),
                    words.as_str(),
                );
                return command.update(Some(script), None, None);
            }
        }
    }
    command.update(None, None, None)
}

/// `func` applied to `command` as the git rules see it, when `command` runs
/// git or hub; `false`, without calling `func`, otherwise.
pub fn match_rule_with_git_support<F: Fn(&CrabCommand) -> bool>(
    func: F,
    command: &CrabCommand,
) -> (r: bool)
    requires
        is_app_spec(*command, seq!["git", "hub"], None) ==> forall|d: &CrabCommand|
            func.requires((d,)),
    ensures
        !is_app_spec(*command, seq!["git", "hub"], None) ==> !r,
        is_app_spec(*command, seq!["git", "hub"], None) ==> exists|d: CrabCommand|
            is_git_view(d, *command) && func.ensures((&d,), r),
{
    let names = vec!["git", "hub"];
    assert(names@ =~= seq!["git", "hub"]);
    if crate::rules::utils::is_app(command, &names, None) {
        let d = expand_git_alias(command);
        let r = func(&d);
        assert(is_git_view(d, *command) && func.ensures((&d,), r));
        r
    } else {
        false
    }
}

/// `func` applied to `command` as the git rules see it.
pub fn get_new_command_with_git_support<F: Fn(&CrabCommand, Option<&Shell>) -> Vec<String>>(
    func: F,
    command: &CrabCommand,
    system_shell: Option<&Shell>,
) -> (r: Vec<String>)
    requires
        forall|d: &CrabCommand| func.requires((d, system_shell)),
    ensures
        exists|d: CrabCommand| is_git_view(d, *command) && func.ensures((&d, system_shell), r),
{
    let d = expand_git_alias(command);
    let r = func(&d, system_shell);
    assert(is_git_view(d, *command) && func.ensures((&d, system_shell), r));
    r
}

} // verus!
