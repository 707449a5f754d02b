//! git names a path it does not track, and the path exists: add it, then run the script again.
use vstd::prelude::*;
use crate::command::CrabCommand;
use crate::external::{shell_quote, shell_quoted_of};
use crate::rules::git_support::{get_new_command_with_git_support, git_script, is_git_view};
use crate::rules::utils::{and_then, capture_group, group_of, is_app, is_app_spec, run_before};
use crate::rules::{Rule, RuleKind};
use crate::shell::Shell;
use crate::text::{concat, contains, equal, has_substring, strings_view};

verus! {

pub const PATTERN: &'static str =
    "error: pathspec '([^']*)' did not match any file\\(s\\) known to git";

/// The rank of this rule's suggestion.
pub open spec fn priority() -> u16 {
    1100
}

/// The non-empty path that git reports as unknown.
pub open spec fn pathspec_of(c: CrabCommand) -> Option<Seq<char>> {
    pathspec_in(c.output)
}

/// The non-empty path that git reports as unknown in `output`.
pub open spec fn pathspec_in(output: Option<String>) -> Option<Seq<char>> {
    match output {
        Some(o) => match group_of(PATTERN@, o@, 1) {
            Some(p) => if p.len() > 0 {
                Some(p)
            } else {
                None
            },
            None => None,
        },
        None => None,
    }
}

/// The unknown path is among `existing`.
pub open spec fn pathspec_exists(c: CrabCommand, existing: Seq<Seq<char>>) -> bool {
    match pathspec_of(c) {
        Some(p) => existing.contains(p),
        None => false,
    }
}

pub open spec fn aux_matches(c: CrabCommand, path_exists: bool) -> bool {
    match c.output {
        Some(o) => has_substring(o@, "did not match any file(s) known to git"@) && pathspec_of(
            c,
        ) is Some && path_exists,
        None => false,
    }
}

pub open spec fn matches(c: CrabCommand, existing: Seq<Seq<char>>) -> bool {
    is_app_spec(c, seq!["git", "hub"], None) && aux_matches(c, pathspec_exists(c, existing))
}

/// The unknown path, when it exists.
pub open spec fn missing_file_of(c: CrabCommand, path_exists: bool) -> Option<Seq<char>> {
    if path_exists {
        pathspec_of(c)
    } else {
        None
    }
}

/// `git add` of the unknown path of `output` (none when it does not exist),
/// quoted, then `script`.
pub open spec fn fixes_on(
    script: Seq<char>,
    output: Option<String>,
    shell: Shell,
    path_exists: bool,
) -> Seq<Seq<char>> {
    let missing = match pathspec_in(output) {
        Some(p) => if path_exists {
            p
        } else {
            Seq::empty()
        },
        None => Seq::empty(),
    };
    let quoted = if missing.contains('\0') {
        Seq::empty()
    } else {
        shell_quoted_of(missing)
    };
    seq![and_then(shell, "git add -- "@ + quoted, script)]
}

pub open spec fn fixes_with(c: CrabCommand, shell: Shell, path_exists: bool) -> Seq<Seq<char>> {
    fixes_on(c.script@, c.output, shell, path_exists)
}

pub open spec fn fixes(c: CrabCommand, shell: Shell, existing: Seq<Seq<char>>) -> Seq<Seq<char>> {
    fixes_on(git_script(c), c.output, shell, pathspec_exists(c, existing))
}

/// The non-empty path that git reports as unknown, if it names one.
pub fn missing_pathspec(command: &CrabCommand) -> (r: Option<String>)
    ensures
        match r {
            Some(p) => pathspec_of(*command) == Some(p@),
            None => pathspec_of(*command) is None,
        },
{
    match &command.output {
        Some(output) => match capture_group(PATTERN, output.as_str(), 1) {
            Some(p) => if p.as_str().unicode_len() > 0 {
                Some(p)
            } else {
                None
            },
            None => None,
        },
        None => None,
    }
}

/// The unknown path, when `path_exists` tells that it exists.
pub fn get_missing_file(command: &CrabCommand, path_exists: bool) -> (r: Option<String>)
    ensures
        match r {
            Some(p) => missing_file_of(*command, path_exists) == Some(p@),
            None => missing_file_of(*command, path_exists) is None,
        },
{
    if path_exists {
        missing_pathspec(command)
    } else {
        None
    }
}

/// Whether the unknown path is among `existing_paths`.
pub fn path_exists(command: &CrabCommand, existing_paths: &Vec<String>) -> (r: bool)
    ensures
        r == pathspec_exists(*command, strings_view(existing_paths@)),
{
    match missing_pathspec(command) {
        Some(p) => {
            let mut k: usize = 0;
            while k < existing_paths.len()
                invariant
                    k <= existing_paths@.len(),
                    pathspec_of(*command) == Some(p@),
                    forall|t: int| 0 <= t < k ==> existing_paths@[t]@ != p@,
                decreases existing_paths@.len() - k,
            {
                if equal(existing_paths[k].as_str(), p.as_str()) {
                    assert(strings_view(existing_paths@)[k as int] == p@);
                    return true;
                }
                k += 1;
            }
            assert(!strings_view(existing_paths@).contains(p@)) by {
                if strings_view(existing_paths@).contains(p@) {
                    let t = choose|t: int|
                        0 <= t < existing_paths@.len() && strings_view(existing_paths@)[t] == p@;
                    assert(existing_paths@[t]@ == p@);
                }
            }
            false
        },
        None => false,
    }
}

/// The match, with `path_exists` telling whether the unknown path exists.
pub fn mockable_match_rule(command: &CrabCommand, path_exists: bool) -> (r: bool)
    ensures
        r == aux_matches(*command, path_exists),
{
    match &command.output {
        Some(output) => contains(output.as_str(), "did not match any file(s) known to git")
            && get_missing_file(command, path_exists).is_some(),
        None => false,
    }
}

pub fn match_rule(
    command: &CrabCommand,
    _system_shell: Option<&Shell>,
    existing_paths: &Vec<String>,
) -> (r: bool)
    ensures
        r == matches(*command, strings_view(existing_paths@)),
{
    let names = vec!["git", "hub"];
    assert(names@ =~= seq!["git", "hub"]);
    is_app(command, &names, None) && mockable_match_rule(
        command,
        path_exists(command, existing_paths),
    )
}

/// The suggestion, with `path_exists` telling whether the unknown path exists.
pub fn mockable_get_new_command(
    command: &CrabCommand,
    system_shell: Option<&Shell>,
    path_exists: bool,
) -> (r: Vec<String>)
    requires
        system_shell is Some,
    ensures
        strings_view(r@) == fixes_with(*command, *system_shell.unwrap(), path_exists),
{
    let shell = system_shell.unwrap();
    let missing = match get_missing_file(command, path_exists) {
        Some(p) => p,
        None => String::new(),
    };
    let quoted = match shell_quote(missing.as_str()) {
        Some(q) => q,
        None => String::new(),
    };
    let add = concat("git add -- ", quoted.as_str());
    let r = vec![run_before(shell, add, command.script.as_str())];
    assert(strings_view(r@) =~= fixes_with(*command, *shell, path_exists));
    r
}

pub fn get_new_command(
    command: &CrabCommand,
    system_shell: Option<&Shell>,
    existing_paths: &Vec<String>,
) -> (r: Vec<String>)
    requires
        system_shell is Some,
    ensures
        strings_view(r@) == fixes(*command, *system_shell.unwrap(), strings_view(existing_paths@)),
{
    let exists = path_exists(command, existing_paths);
    let with_known_path = move |d: &CrabCommand, s: Option<&Shell>| -> (r: Vec<String>)
        requires
            s is Some,
        ensures
            strings_view(r@) == fixes_with(*d, *s.unwrap(), exists),
        {
            mockable_get_new_command(d, s, exists)
        };
    let r = get_new_command_with_git_support(with_known_path, command, system_shell);
    proof {
        let d = choose|d: CrabCommand|
            is_git_view(d, *command) && with_known_path.ensures((&d, system_shell), r);
    }
    r
}

pub fn get_rule() -> (r: Rule)
    ensures
        r.name@ == "git_add"@,
        r.kind == RuleKind::GitAdd,
        r.priority == priority(),
        r.enabled_by_default,
        r.requires_output,
        r.side_effect is None,
{
    Rule::new(String::from_str("git_add"), None, Some(1100), None, RuleKind::GitAdd, None)
}

} // verus!
