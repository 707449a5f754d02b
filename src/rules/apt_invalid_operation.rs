//! apt was given an operation it does not know: use the closest one it lists.
use vstd::prelude::*;
use crate::command::CrabCommand;
use crate::fuzzy::{close_matches, get_close_matches};
use crate::rules::utils::{is_app_spec, match_rule_with_is_app, replace_argument, replaced_argument};
use crate::rules::{default_priority, Rule, RuleKind};
use crate::shell::Shell;
use crate::text::{
    contains,
    equal,
    has_substring,
    lines,
    lines_from,
    split_whitespace,
    starts_with,
    strings_view,
    words,
};

verus! {

pub open spec fn aux_matches(c: CrabCommand) -> bool {
    match c.output {
        Some(o) => has_substring(o@, "Invalid operation"@),
        None => false,
    }
}

pub open spec fn matches(c: CrabCommand) -> bool {
    is_app_spec(c, seq!["apt", "apt-get", "apt-cache"], None) && aux_matches(c)
}

/// The script with the operation named last in the output replaced by the
/// closest of `operations`, if one is close enough.
pub open spec fn fixes(c: CrabCommand, operations: Seq<Seq<char>>) -> Seq<Seq<char>> {
    match c.output {
        Some(o) => {
            let w = words(o@);
            if w.len() == 0 {
                seq![]
            } else {
                let best = close_matches(w.last(), operations, 1, 60);
                if best.len() > 0 {
                    seq![replaced_argument(c.script@, w.last(), best[0])]
                } else {
                    seq![]
                }
            }
        },
        None => seq![],
    }
}

/// The header of the section of the help that lists the operations.
pub open spec fn section_header(app: Seq<char>) -> Seq<char> {
    if app == "apt"@ {
        "Basic commands:"@
    } else {
        "Commands:"@
    }
}

/// The index of the first line from `k` on that starts with `header`, or the
/// number of lines.
pub open spec fn header_index(ls: Seq<Seq<char>>, header: Seq<char>, k: int) -> int
    decreases ls.len() - k,
{
    if k < 0 || k >= ls.len() {
        ls.len() as int
    } else if header.is_prefix_of(ls[k]) {
        k
    } else {
        header_index(ls, header, k + 1)
    }
}

/// The first word of each line from `k` on, up to the first empty line.
pub open spec fn section_words(ls: Seq<Seq<char>>, k: int) -> Seq<Seq<char>>
    decreases ls.len() - k,
{
    if k < 0 || k >= ls.len() || ls[k].len() == 0 {
        seq![]
    } else if words(ls[k]).len() > 0 {
        seq![words(ls[k])[0]] + section_words(ls, k + 1)
    } else {
        section_words(ls, k + 1)
    }
}

/// The operations listed in the help output of `app`.
pub open spec fn operations_of(app: Seq<char>, help: Seq<char>) -> Seq<Seq<char>> {
    let ls = lines_from(help, 0);
    section_words(ls, header_index(ls, section_header(app), 0) + 1)
}

fn auxiliary_match_rule(command: &CrabCommand) -> (r: bool)
    ensures
        r == aux_matches(*command),
{
    match &command.output {
        Some(output) => contains(output.as_str(), "Invalid operation"),
        None => false,
    }
}

pub fn match_rule(command: &CrabCommand, _system_shell: Option<&Shell>) -> (r: bool)
    ensures
        r == matches(*command),
{
    let names = vec!["apt", "apt-get", "apt-cache"];
    assert(names@ =~= seq!["apt", "apt-get", "apt-cache"]);
    match_rule_with_is_app(auxiliary_match_rule, command, names, None)
}

/// The operations that `app` lists in `help_output`, the text its `--help`
/// printed: the first word of each line of the section after the header,
/// up to the first empty line.
pub fn get_operations(app: &str, help_output: &str) -> (r: Vec<String>)
    ensures
        strings_view(r@) == operations_of(app@, help_output@),
{
    let header = if equal(app, "apt") {
        "Basic commands:"
    } else {
        "Commands:"
    };
    let ls = lines(help_output);
    let ghost lv = strings_view(ls@);
    let mut k: usize = 0;
    while k < ls.len() && !starts_with(ls[k].as_str(), header)
        invariant
            lv == strings_view(ls@),
            lv == lines_from(help_output@, 0),
            header@ == section_header(app@),
            k <= ls@.len(),
            header_index(lv, header@, k as int) == header_index(lv, header@, 0),
        decreases ls@.len() - k,
    {
        k += 1;
    }
    let mut r: Vec<String> = Vec::new();
    if k == ls.len() {
        assert(strings_view(r@) =~= operations_of(app@, help_output@));
        return r;
    }
    let mut i = k + 1;
    while i < ls.len() && ls[i].as_str().unicode_len() > 0
        invariant
            lv == strings_view(ls@),
            lv == lines_from(help_output@, 0),
            k < i <= ls@.len(),
            header_index(lv, section_header(app@), 0) == k,
            strings_view(r@) + section_words(lv, i as int) == operations_of(app@, help_output@),
        decreases ls@.len() - i,
    {
        let w = split_whitespace(ls[i].as_str());
        let ghost before = strings_view(r@);
        if w.len() > 0 {
            r.push(w[0].clone());
            assert(strings_view(w@)[0] == w@[0]@);
            assert(before + section_words(lv, i as int) =~= strings_view(r@) + section_words(
                lv,
                i + 1,
            ));
        }
        i += 1;
    }
    assert(section_words(lv, i as int) =~= seq![]);
    assert(strings_view(r@) =~= operations_of(app@, help_output@));
    r
}

/// The script with its invalid operation replaced by the closest of
/// `operations`, the operations that the program lists.
pub fn get_new_command(
    command: &CrabCommand,
    _system_shell: Option<&Shell>,
    operations: &Vec<String>,
) -> (r: Vec<String>)
    ensures
        strings_view(r@) == fixes(*command, strings_view(operations@)),
{
    let mut r: Vec<String> = Vec::new();
    if let Some(output) = &command.output {
        let w = split_whitespace(output.as_str());
        if w.len() > 0 {
            let invalid = &w[w.len() - 1];
            assert(strings_view(w@).last() == invalid@);
            let best = get_close_matches(invalid.as_str(), operations, Some(1), Some(60));
            if best.len() > 0 {
                assert(strings_view(best@)[0] == best@[0]@);
                r.push(replace_argument(command.script.as_str(), invalid.as_str(), best[0].as_str()));
            }
        }
    }
    assert(strings_view(r@) =~= fixes(*command, strings_view(operations@)));
    r
}

pub fn get_rule() -> (r: Rule)
    ensures
        r.name@ == "apt_invalid_operation"@,
        r.kind == RuleKind::AptInvalidOperation,
        r.priority == default_priority(),
        r.enabled_by_default,
        r.requires_output,
        r.side_effect is None,
{
    Rule::new(
        String::from_str("apt_invalid_operation"),
        None,
        None,
        None,
        RuleKind::AptInvalidOperation,
        None,
    )
}

} // verus!
