//! Rules, the registry of all rules, and the dispatcher that asks each of
//! them for corrections and ranks what they propose.
use vstd::prelude::*;
use crate::command::{CorrectedCommand, CrabCommand, SideEffect};
use crate::shell::Shell;
use crate::text::{concat, starts_with, strings_view};

pub mod apt_invalid_operation;
pub mod brew_install;
pub mod cargo_no_command;
pub mod cp_create_destination;
pub mod fix_file;
pub mod git_add;
pub mod git_pull;
pub mod git_support;
pub mod sl_ls;
pub mod touch;
pub mod utils;

verus! {

/// Which heuristic a rule applies.
#[derive(Clone, Copy, Debug, PartialEq, Eq, Structural)]
pub enum RuleKind {
    AptInvalidOperation,
    BrewInstall,
    CargoNoCommand,
    CpCreateDestination,
    FixFile,
    GitAdd,
    GitPull,
    SlLs,
    Touch,
}

/// What the rules learn from outside the command: the operations its
/// program lists in its help, the paths known to exist, the regular files
/// among them, and the editor the user has chosen.
pub struct Environment {
    pub operations: Vec<String>,
    pub existing_paths: Vec<String>,
    pub existing_files: Vec<String>,
    pub editor: Option<String>,
}

/// One heuristic with its ranking data.
pub struct Rule {
    pub name: String,
    pub enabled_by_default: bool,
    pub priority: u16,
    pub requires_output: bool,
    pub kind: RuleKind,
    pub side_effect: Option<SideEffect>,
}

/// The rank of a rule's first suggestion when none is given.
pub open spec fn default_priority() -> u16 {
    1000
}

impl Rule {
    /// A rule with the defaults for what is not given: enabled, priority
    /// 1000, needing the command's output.
    pub fn new(
        name: String,
        enabled_by_default: Option<bool>,
        priority: Option<u16>,
        requires_output: Option<bool>,
        kind: RuleKind,
        side_effect: Option<SideEffect>,
    ) -> (r: Rule)
        ensures
            r.name == name,
            r.enabled_by_default == match enabled_by_default {
                Some(b) => b,
                None => true,
            },
            r.priority == match priority {
                Some(p) => p,
                None => default_priority(),
            },
            r.requires_output == match requires_output {
                Some(b) => b,
                None => true,
            },
            r.kind == kind,
            r.side_effect == side_effect,
    {
        Rule {
            name,
            enabled_by_default: match enabled_by_default {
                Some(b) => b,
                None => true,
            },
            priority: match priority {
                Some(p) => p,
                None => 1000,
            },
            requires_output: match requires_output {
                Some(b) => b,
                None => true,
            },
            kind,
            side_effect,
        }
    }
}

/// The script of `c` is run through `sudo`.
pub open spec fn has_sudo(c: CrabCommand) -> bool {
    "sudo "@.is_prefix_of(c.script@)
}

/// `d` is `c` with the leading `"sudo "` of its script removed.
pub open spec fn is_unprivileged_form(d: CrabCommand, c: CrabCommand) -> bool {
    &&& d.script@ == c.script@.subrange(5, c.script@.len() as int)
    &&& d.output == c.output
    &&& d.exit_code == c.exit_code
    &&& d.wf()
}

/// `command` with the leading `"sudo "` removed from its script.
fn strip_sudo(command: &CrabCommand) -> (r: CrabCommand)
    requires
        has_sudo(*command),
    ensures
        is_unprivileged_form(r, *command),
{
    proof {
        reveal_strlit("sudo ");
    }
    let n = command.script.as_str().unicode_len();
    let rest = String::from_str(command.script.as_str().substring_char(5, n));
    command.update(Some(rest), None, None)
}

/// `match_function` applied to `command`, or, when its script starts with
/// `"sudo "`, to the same command without that prefix.
pub fn match_rule_without_sudo<F: Fn(&CrabCommand) -> bool>(
    match_function: F,
    command: &CrabCommand,
) -> (r: bool)
    requires
        forall|c: &CrabCommand| match_function.requires((c,)),
    ensures
        !has_sudo(*command) ==> match_function.ensures((command,), r),
        has_sudo(*command) ==> exists|d: CrabCommand|
            is_unprivileged_form(d, *command) && match_function.ensures((&d,), r),
{
    if !starts_with(command.script.as_str(), "sudo ") {
        match_function(command)
    } else {
        let d = strip_sudo(command);
        let r = match_function(&d);
        assert(is_unprivileged_form(d, *command) && match_function.ensures((&d,), r));
        r
    }
}

/// The scripts of `v`, each prefixed with `"sudo "`.
pub open spec fn with_sudo(v: Seq<Seq<char>>) -> Seq<Seq<char>> {
    v.map_values(|s: Seq<char>| "sudo "@ + s)
}

/// `get_new_command_function` applied to `command`, or, when its script
/// starts with `"sudo "`, to the same command without that prefix, with the
/// prefix put back on every suggestion.
pub fn get_new_command_without_sudo<F: Fn(&CrabCommand) -> Vec<String>>(
    get_new_command_function: F,
    command: &CrabCommand,
) -> (r: Vec<String>)
    requires
        forall|c: &CrabCommand| get_new_command_function.requires((c,)),
    ensures
        !has_sudo(*command) ==> get_new_command_function.ensures((command,), r),
        has_sudo(*command) ==> exists|d: CrabCommand, inner: Vec<String>|
            is_unprivileged_form(d, *command) && get_new_command_function.ensures((&d,), inner)
                && strings_view(r@) == with_sudo(strings_view(inner@)),
        has_sudo(*command) ==> forall|i: int|
            0 <= i < r@.len() ==> "sudo "@.is_prefix_of(#[trigger] r@[i]@),
{
    if !starts_with(command.script.as_str(), "sudo ") {
        return get_new_command_function(command);
    }
    let d = strip_sudo(command);
    let inner = get_new_command_function(&d);
    let mut r: Vec<String> = Vec::new();
    let mut i: usize = 0;
    while i < inner.len()
        invariant
            i <= inner@.len(),
            strings_view(r@) == with_sudo(strings_view(inner@)).take(i as int),
        decreases inner@.len() - i,
    {
        r.push(concat("sudo ", inner[i].as_str()));
        assert(with_sudo(strings_view(inner@)).take(i + 1) =~= with_sudo(strings_view(inner@)).take(
            i as int,
        ).push("sudo "@ + inner@[i as int]@));
        assert(strings_view(r@) =~= with_sudo(strings_view(inner@)).take(i + 1));
        i += 1;
    }
    assert(with_sudo(strings_view(inner@)).take(inner@.len() as int) =~= with_sudo(
        strings_view(inner@),
    ));
    assert forall|i: int| 0 <= i < r@.len() implies "sudo "@.is_prefix_of(#[trigger] r@[i]@) by {
        assert(r@[i]@ == strings_view(r@)[i]);
        assert(r@[i]@.subrange(0, 5) =~= "sudo "@) by {
            reveal_strlit("sudo ");
        }
    }
    assert(is_unprivileged_form(d, *command) && get_new_command_function.ensures((&d,), inner));
    r
}

/// A suggestion as the dispatcher ranks it: its script, its priority and
/// the tag of its action.
pub type Entry = (Seq<char>, int, Option<Seq<char>>);

pub open spec fn entry(c: CorrectedCommand) -> Entry {
    (
        c.script@,
        c.priority as int,
        match c.side_effect {
            Some(e) => Some(e.tag@),
            None => None,
        },
    )
}

pub open spec fn entries(v: Seq<CorrectedCommand>) -> Seq<Entry> {
    v.map_values(|c: CorrectedCommand| entry(c))
}

/// `x` placed after every entry of `r` whose priority is not greater.
pub open spec fn insert_by_priority(r: Seq<Entry>, x: Entry) -> Seq<Entry>
    decreases r.len(),
{
    if r.len() == 0 {
        seq![x]
    } else if r[0].1 <= x.1 {
        seq![r[0]] + insert_by_priority(r.drop_first(), x)
    } else {
        seq![x] + r
    }
}

/// `s` sorted by ascending priority; entries of equal priority keep their order.
pub open spec fn sorted_by_priority(s: Seq<Entry>) -> Seq<Entry>
    decreases s.len(),
{
    if s.len() == 0 {
        seq![]
    } else {
        insert_by_priority(sorted_by_priority(s.drop_last()), s.last())
    }
}

/// `s` without every entry whose script equals that of the entry just before it.
pub open spec fn dedup_adjacent(s: Seq<Entry>) -> Seq<Entry>
    decreases s.len(),
{
    if s.len() == 0 {
        seq![]
    } else {
        let d = dedup_adjacent(s.drop_last());
        if s.len() >= 2 && s[s.len() - 2].0 == s.last().0 {
            d
        } else {
            d.push(s.last())
        }
    }
}

/// The final list: sorted by priority, then adjacent duplicates removed.
pub open spec fn organized(s: Seq<Entry>) -> Seq<Entry> {
    dedup_adjacent(sorted_by_priority(s))
}

proof fn lemma_insert_by_priority_at(r: Seq<Entry>, x: Entry, p: int)
    requires
        0 <= p <= r.len(),
        forall|k: int| 0 <= k < p ==> (#[trigger] r[k]).1 <= x.1,
        p < r.len() ==> r[p].1 > x.1,
    ensures
        insert_by_priority(r, x) == r.take(p) + seq![x] + r.skip(p),
    decreases p,
{
    if p == 0 {
        if r.len() == 0 {
            assert(r.take(0) + seq![x] + r.skip(0) =~= seq![x]);
        } else {
            assert(r.take(0) + seq![x] + r.skip(0) =~= seq![x] + r);
        }
    } else {
        let rest = r.drop_first();
        assert forall|k: int| 0 <= k < p - 1 implies (#[trigger] rest[k]).1 <= x.1 by {
            assert(rest[k] == r[k + 1]);
        }
        lemma_insert_by_priority_at(rest, x, p - 1);
        assert(seq![r[0]] + (rest.take(p - 1) + seq![x] + rest.skip(p - 1)) =~= r.take(p) + seq![x]
            + r.skip(p));
    }
}

/// Sorts `corrected_commands` by ascending priority, keeping the order of
/// equal priorities, then drops every entry whose script equals that of the
/// entry just before it.
pub fn organize_commands(corrected_commands: Vec<CorrectedCommand>) -> (r: Vec<CorrectedCommand>)
    ensures
        entries(r@) == organized(entries(corrected_commands@)),
{
    let ghost input = entries(corrected_commands@);
    let mut rest = corrected_commands;
    let mut sorted: Vec<CorrectedCommand> = Vec::new();
    let ghost taken: int = 0;
    while rest.len() > 0
        invariant
            0 <= taken <= input.len(),
            entries(rest@) == input.skip(taken),
            entries(sorted@) == sorted_by_priority(input.take(taken)),
        decreases rest@.len(),
    {
        let ghost before = rest@;
        assert(entries(before).len() == before.len());
        let x = rest.remove(0);
        let ghost ex = entry(x);
        assert(ex == input[taken]) by {
            assert(x == before[0]);
            assert(entries(before)[0] == entry(before[0]));
            assert(input.skip(taken)[0] == input[taken]);
        }
        assert(rest@ =~= before.drop_first());
        assert(entries(rest@) =~= entries(before).drop_first());
        assert(input.skip(taken).drop_first() =~= input.skip(taken + 1));
        let mut p: usize = 0;
        while p < sorted.len() && sorted[p].priority <= x.priority
            invariant
                p <= sorted@.len(),
                entry(x) == ex,
                forall|k: int| 0 <= k < p ==> (#[trigger] entries(sorted@)[k]).1 <= ex.1,
            decreases sorted@.len() - p,
        {
            p += 1;
        }
        proof {
            lemma_insert_by_priority_at(entries(sorted@), ex, p as int);
            assert(input.take(taken + 1).drop_last() =~= input.take(taken));
        }
        sorted.insert(p, x);
        assert(entries(sorted@) =~= sorted_by_priority(input.take(taken + 1)));
        proof {
            taken = taken + 1;
        }
    }
    assert(input.take(taken) =~= input);
    let ghost sorted_view = entries(sorted@);
    let mut out: Vec<CorrectedCommand> = Vec::new();
    let mut prev: Option<String> = None;
    let ghost seen: int = 0;
    while sorted.len() > 0
        invariant
            0 <= seen <= sorted_view.len(),
            entries(sorted@) == sorted_view.skip(seen),
            entries(out@) == dedup_adjacent(sorted_view.take(seen)),
            seen == 0 <==> prev is None,
            prev matches Some(s) ==> s@ == sorted_view[seen - 1].0,
        decreases sorted@.len(),
    {
        let ghost before = sorted@;
        assert(entries(before).len() == before.len());
        let x = sorted.remove(0);
        assert(entry(x) == sorted_view[seen]) by {
            assert(x == before[0]);
            assert(entries(before)[0] == entry(before[0]));
            assert(sorted_view.skip(seen)[0] == sorted_view[seen]);
        }
        assert(sorted@ =~= before.drop_first());
        assert(entries(sorted@) =~= entries(before).drop_first());
        assert(sorted_view.skip(seen).drop_first() =~= sorted_view.skip(seen + 1));
        assert(sorted_view.take(seen + 1).drop_last() =~= sorted_view.take(seen));
        let duplicate = match &prev {
            Some(s) => *s == x.script,
            None => false,
        };
        prev = Some(x.script.clone());
        if !duplicate {
            out.push(x);
        }
        assert(entries(out@) =~= dedup_adjacent(sorted_view.take(seen + 1)));
        proof {
            seen = seen + 1;
        }
    }
    assert(sorted_view.take(seen) =~= sorted_view);
    out
}

/// A rule as the dispatcher sees it: what it applies, its priority, whether
/// it needs the command's output, and the tag of its action.
pub type RuleView = (RuleKind, int, bool, Option<Seq<char>>);

pub open spec fn rule_view(r: Rule) -> RuleView {
    (
        r.kind,
        r.priority as int,
        r.requires_output,
        match r.side_effect {
            Some(e) => Some(e.tag@),
            None => None,
        },
    )
}

pub open spec fn rule_views(rules: Seq<Rule>) -> Seq<RuleView> {
    rules.map_values(|r: Rule| rule_view(r))
}

/// Whether the heuristic `kind` recognises the failure of `c`.
pub open spec fn kind_matches(kind: RuleKind, c: CrabCommand, env: Environment) -> bool {
    match kind {
        RuleKind::AptInvalidOperation => apt_invalid_operation::matches(c),
        RuleKind::BrewInstall => brew_install::matches(c),
        RuleKind::CargoNoCommand => cargo_no_command::matches(c),
        RuleKind::CpCreateDestination => cp_create_destination::matches(c),
        RuleKind::FixFile => fix_file::matches(
            c,
            fix_file::editor_view(env.editor),
            strings_view(env.existing_files@),
        ),
        RuleKind::GitAdd => git_add::matches(c, strings_view(env.existing_paths@)),
        RuleKind::GitPull => git_pull::matches(c),
        RuleKind::SlLs => sl_ls::matches(c),
        RuleKind::Touch => touch::matches(c),
    }
}

/// The scripts that the heuristic `kind` proposes for `c`.
pub open spec fn kind_fixes(kind: RuleKind, c: CrabCommand, shell: Shell, env: Environment) -> Seq<
    Seq<char>,
> {
    match kind {
        RuleKind::AptInvalidOperation => apt_invalid_operation::fixes(
            c,
            strings_view(env.operations@),
        ),
        RuleKind::BrewInstall => brew_install::fixes(c),
        RuleKind::CargoNoCommand => cargo_no_command::fixes(c),
        RuleKind::CpCreateDestination => cp_create_destination::fixes(c, shell),
        RuleKind::FixFile => fix_file::fixes(
            c,
            shell,
            fix_file::editor_view(env.editor),
            strings_view(env.existing_files@),
        ),
        RuleKind::GitAdd => git_add::fixes(c, shell, strings_view(env.existing_paths@)),
        RuleKind::GitPull => git_pull::fixes(c, shell),
        RuleKind::SlLs => seq!["ls"@],
        RuleKind::Touch => touch::fixes(c, shell),
    }
}

/// The rule applies to `c`: it has the output it needs and it recognises the failure.
pub open spec fn applies(r: RuleView, c: CrabCommand, env: Environment) -> bool {
    !(c.output is None && r.2) && kind_matches(r.0, c, env)
}

/// The `i`-th suggestion of a rule is ranked `priority * (i + 1)`.
pub open spec fn numbered(fixes: Seq<Seq<char>>, priority: int, tag: Option<Seq<char>>) -> Seq<
    Entry,
> {
    Seq::new(fixes.len(), |i: int| (fixes[i], priority * (i + 1), tag))
}

pub open spec fn rule_entries(r: RuleView, c: CrabCommand, shell: Shell, env: Environment) -> Seq<
    Entry,
> {
    numbered(kind_fixes(r.0, c, shell, env), r.1, r.3)
}

/// The suggestions of every rule that applies, rule after rule.
pub open spec fn collected(rules: Seq<RuleView>, c: CrabCommand, shell: Shell, env: Environment) -> Seq<
    Entry,
>
    decreases rules.len(),
{
    if rules.len() == 0 {
        seq![]
    } else {
        let before = collected(rules.drop_last(), c, shell, env);
        if applies(rules.last(), c, env) {
            before + rule_entries(rules.last(), c, shell, env)
        } else {
            before
        }
    }
}

/// The final, ranked suggestions of `rules` for `c`.
pub open spec fn corrections(rules: Seq<RuleView>, c: CrabCommand, shell: Shell, env: Environment) -> Seq<
    Entry,
> {
    organized(collected(rules, c, shell, env))
}

impl Rule {
    /// Whether this rule applies to `command`: never when the command has no
    /// output and the rule needs it; else as its heuristic decides.
    pub fn is_match(&self, command: &CrabCommand, system_shell: &Shell, env: &Environment) -> (r:
        bool)
        ensures
            r == applies(rule_view(*self), *command, *env),
    {
        if command.output.is_none() && self.requires_output {
            return false;
        }
        let shell = Some(system_shell);
        match self.kind {
            RuleKind::AptInvalidOperation => apt_invalid_operation::match_rule(command, shell),
            RuleKind::BrewInstall => brew_install::match_rule(command, shell),
            RuleKind::CargoNoCommand => cargo_no_command::match_rule(command, shell),
            RuleKind::CpCreateDestination => cp_create_destination::match_rule(command, shell),
            RuleKind::FixFile => fix_file::match_rule(
                command,
                shell,
                &env.editor,
                &env.existing_files,
            ),
            RuleKind::GitAdd => git_add::match_rule(command, shell, &env.existing_paths),
            RuleKind::GitPull => git_pull::match_rule(command, shell),
            RuleKind::SlLs => sl_ls::match_rule(command, shell),
            RuleKind::Touch => touch::match_rule(command, shell),
        }
    }

    /// The suggestions of this rule for `command`, the `i`-th ranked
    /// `priority * (i + 1)` and carrying the rule's action.
    pub fn get_corrected_commands(
        &self,
        command: &CrabCommand,
        system_shell: &Shell,
        env: &Environment,
    ) -> (r: Vec<CorrectedCommand>)
        ensures
            entries(r@) == rule_entries(rule_view(*self), *command, *system_shell, *env),
    {
        let shell = Some(system_shell);
        let fixes = match self.kind {
            RuleKind::AptInvalidOperation => apt_invalid_operation::get_new_command(
                command,
                shell,
                &env.operations,
            ),
            RuleKind::BrewInstall => brew_install::get_new_command(command, shell),
            RuleKind::CargoNoCommand => cargo_no_command::get_new_command(command, shell),
            RuleKind::CpCreateDestination => cp_create_destination::get_new_command(command, shell),
            RuleKind::FixFile => fix_file::get_new_command(
                command,
                shell,
                &env.editor,
                &env.existing_files,
            ),
            RuleKind::GitAdd => git_add::get_new_command(command, shell, &env.existing_paths),
            RuleKind::GitPull => git_pull::get_new_command(command, shell),
            RuleKind::SlLs => sl_ls::get_new_command(command, shell),
            RuleKind::Touch => touch::get_new_command(command, shell),
        };
        let ghost target = rule_entries(rule_view(*self), *command, *system_shell, *env);
        assert(strings_view(fixes@) == kind_fixes(self.kind, *command, *system_shell, *env));
        let mut r: Vec<CorrectedCommand> = Vec::new();
        let mut n: usize = 0;
        while n < fixes.len()
            invariant
                n <= fixes@.len(),
                target == rule_entries(rule_view(*self), *command, *system_shell, *env),
                strings_view(fixes@) == kind_fixes(self.kind, *command, *system_shell, *env),
                entries(r@) == target.take(n as int),
                r@.len() == n,
                target.len() == fixes@.len(),
            decreases fixes@.len() - n,
        {
            let side_effect = match &self.side_effect {
                Some(e) => Some(e.copy()),
                None => None,
            };
            assert((n as u128 + 1) * (self.priority as u128) <= 0x1_0000_0000_0000_0000 * 0x1_0000)
                by (nonlinear_arith)
                requires
                    n < 0x1_0000_0000_0000_0000,
                    self.priority < 0x1_0000,
            ;
            let priority = (n as u128 + 1) * (self.priority as u128);
            let ghost before = entries(r@);
            r.push(CorrectedCommand::new(fixes[n].clone(), side_effect, priority));
            assert(strings_view(fixes@)[n as int] == fixes@[n as int]@);
            assert(entries(r@) =~= before.push(entry(r@[n as int])));
            assert(priority == (self.priority as int) * (n + 1)) by (nonlinear_arith)
                requires
                    priority == (n as u128 + 1) * (self.priority as u128),
            ;
            assert(target[n as int] == entry(r@[n as int]));
            assert(entries(r@) =~= target.take(n + 1));
            n += 1;
        }
        assert(target.take(fixes@.len() as int) =~= target);
        r
    }
}

/// Every rule applied to `command` in turn; the suggestions of those that
/// apply are ranked by priority, and adjacent repeats of a script dropped.
pub fn get_corrected_commands_with(
    rules: &Vec<Rule>,
    command: &CrabCommand,
    system_shell: &Shell,
    env: &Environment,
) -> (r: Vec<CorrectedCommand>)
    ensures
        entries(r@) == corrections(rule_views(rules@), *command, *system_shell, *env),
{
    let ghost views = rule_views(rules@);
    let mut all: Vec<CorrectedCommand> = Vec::new();
    let mut i: usize = 0;
    while i < rules.len()
        invariant
            i <= rules@.len(),
            views == rule_views(rules@),
            entries(all@) == collected(views.take(i as int), *command, *system_shell, *env),
        decreases rules@.len() - i,
    {
        let rule = &rules[i];
        assert(views.take(i + 1).drop_last() =~= views.take(i as int));
        assert(views.take(i + 1).last() == rule_view(*rule));
        if rule.is_match(command, system_shell, env) {
            let mut found = rule.get_corrected_commands(command, system_shell, env);
            let ghost before = entries(all@);
            let ghost added = entries(found@);
            all.append(&mut found);
            assert(entries(all@) =~= before + added);
        }
        i += 1;
    }
    assert(views.take(rules@.len() as int) =~= views);
    organize_commands(all)
}

/// The paths whose existence the rules ask about for `c`: the path git
/// reports as unknown, then the files that the output names.
pub open spec fn paths_to_check_spec(c: CrabCommand) -> Seq<Seq<char>> {
    let unknown = match git_add::pathspec_of(c) {
        Some(p) => seq![p],
        None => seq![],
    };
    match c.output {
        Some(o) => unknown + fix_file::named_files_from(o@, 0),
        None => unknown,
    }
}

/// The paths whose existence the rules ask about for `command`; the caller
/// looks them up and hands back those that exist in an [`Environment`].
pub fn paths_to_check(command: &CrabCommand) -> (r: Vec<String>)
    ensures
        strings_view(r@) == paths_to_check_spec(*command),
{
    let mut r: Vec<String> = Vec::new();
    if let Some(p) = git_add::missing_pathspec(command) {
        r.push(p);
    }
    if let Some(output) = &command.output {
        let mut named = fix_file::named_files(output.as_str());
        let ghost before = strings_view(r@);
        let ghost added = strings_view(named@);
        r.append(&mut named);
        assert(strings_view(r@) =~= before + added);
    }
    assert(strings_view(r@) =~= paths_to_check_spec(*command));
    r
}

/// The rules this library knows, by what they apply and how they rank.
pub open spec fn registry() -> Seq<RuleView> {
    seq![
        (RuleKind::AptInvalidOperation, 1000, true, None),
        (RuleKind::BrewInstall, 1000, true, None),
        (RuleKind::CargoNoCommand, 1000, true, None),
        (RuleKind::CpCreateDestination, 1000, true, None),
        (RuleKind::FixFile, 1000, true, None),
        (RuleKind::GitAdd, 1100, true, None),
        (RuleKind::GitPull, 1000, true, None),
        (RuleKind::SlLs, 1000, true, None),
        (RuleKind::Touch, 1000, true, None),
    ]
}

/// Every rule this library knows, in alphabetical order of their names.
pub fn get_rules() -> (r: Vec<Rule>)
    ensures
        rule_views(r@) == registry(),
{
    let r = vec![
        apt_invalid_operation::get_rule(),
        brew_install::get_rule(),
        cargo_no_command::get_rule(),
        cp_create_destination::get_rule(),
        fix_file::get_rule(),
        git_add::get_rule(),
        git_pull::get_rule(),
        sl_ls::get_rule(),
        touch::get_rule(),
    ];
    assert(rule_views(r@) =~= registry());
    r
}

/// The ranked corrections that the rules of this library propose for `command`.
pub fn get_corrected_commands(command: &CrabCommand, system_shell: &Shell, env: &Environment) -> (r:
    Vec<CorrectedCommand>)
    ensures
        entries(r@) == corrections(registry(), *command, *system_shell, *env),
{
    let rules = get_rules();
    get_corrected_commands_with(&rules, command, system_shell, env)
}

/// Entries in ascending order of priority.
pub open spec fn priority_sorted(s: Seq<Entry>) -> bool {
    forall|i: int, j: int| 0 <= i < j < s.len() ==> (#[trigger] s[i]).1 <= (#[trigger] s[j]).1
}

proof fn lemma_insert_sorted(r: Seq<Entry>, x: Entry)
    requires
        priority_sorted(r),
    ensures
        priority_sorted(insert_by_priority(r, x)),
        insert_by_priority(r, x).len() == r.len() + 1,
        forall|k: int|
            0 <= k < insert_by_priority(r, x).len() ==> #[trigger] insert_by_priority(r, x)[k] == x
                || r.contains(insert_by_priority(r, x)[k]),
    decreases r.len(),
{
    if r.len() > 0 && r[0].1 <= x.1 {
        let rest = r.drop_first();
        lemma_insert_sorted(rest, x);
        let ins = insert_by_priority(rest, x);
        let res = insert_by_priority(r, x);
        assert(res == seq![r[0]] + ins);
        assert forall|k: int| 0 <= k < res.len() implies #[trigger] res[k] == x || r.contains(
            res[k],
        ) by {
            if k > 0 {
                assert(res[k] == ins[k - 1]);
                if res[k] != x {
                    let j = choose|j: int| 0 <= j < rest.len() && rest[j] == ins[k - 1];
                    assert(r[j + 1] == res[k]);
                }
            } else {
                assert(r[0] == res[0]);
            }
        }
        assert forall|i: int, j: int| 0 <= i < j < res.len() implies (#[trigger] res[i]).1 <= (
        #[trigger] res[j]).1 by {
            if i == 0 {
                assert(res[j] == ins[j - 1]);
                if ins[j - 1] != x {
                    let m = choose|m: int| 0 <= m < rest.len() && rest[m] == ins[j - 1];
                    assert(r[m + 1] == res[j]);
                }
            } else {
                assert(res[i] == ins[i - 1] && res[j] == ins[j - 1]);
            }
        }
    } else if r.len() > 0 {
        let res = insert_by_priority(r, x);
        assert(res == seq![x] + r);
        assert forall|k: int| 0 <= k < res.len() implies #[trigger] res[k] == x || r.contains(
            res[k],
        ) by {
            if k > 0 {
                assert(res[k] == r[k - 1]);
            }
        }
        assert forall|i: int, j: int| 0 <= i < j < res.len() implies (#[trigger] res[i]).1 <= (
        #[trigger] res[j]).1 by {
            if i == 0 {
                assert(res[j] == r[j - 1]);
                assert(r[0].1 <= r[j - 1].1);
            } else {
                assert(res[i] == r[i - 1] && res[j] == r[j - 1]);
            }
        }
    }
}

proof fn lemma_sorted_by_priority(s: Seq<Entry>)
    ensures
        priority_sorted(sorted_by_priority(s)),
    decreases s.len(),
{
    if s.len() > 0 {
        lemma_sorted_by_priority(s.drop_last());
        lemma_insert_sorted(sorted_by_priority(s.drop_last()), s.last());
    }
}

proof fn lemma_dedup_sorted(s: Seq<Entry>)
    requires
        priority_sorted(s),
    ensures
        priority_sorted(dedup_adjacent(s)),
        forall|k: int| 0 <= k < dedup_adjacent(s).len() ==> s.contains(#[trigger] dedup_adjacent(s)[k]),
    decreases s.len(),
{
    if s.len() > 0 {
        let p = s.drop_last();
        assert(priority_sorted(p)) by {
            assert forall|i: int, j: int| 0 <= i < j < p.len() implies (#[trigger] p[i]).1 <= (
            #[trigger] p[j]).1 by {
                assert(p[i] == s[i] && p[j] == s[j]);
            }
        }
        lemma_dedup_sorted(p);
        let d = dedup_adjacent(p);
        assert forall|k: int| 0 <= k < d.len() implies s.contains(#[trigger] d[k]) by {
            let j = choose|j: int| 0 <= j < p.len() && p[j] == d[k];
            assert(s[j] == d[k]);
        }
        if !(s.len() >= 2 && s[s.len() - 2].0 == s.last().0) {
            let res = d.push(s.last());
            assert(res == dedup_adjacent(s));
            assert forall|k: int| 0 <= k < res.len() implies s.contains(#[trigger] res[k]) by {
                if k < d.len() {
                    assert(res[k] == d[k]);
                } else {
                    assert(res[k] == s[s.len() - 1]);
                }
            }
            assert forall|i: int, j: int| 0 <= i < j < res.len() implies (#[trigger] res[i]).1 <= (
            #[trigger] res[j]).1 by {
                assert(res[i] == d[i]);
                if j < d.len() {
                    assert(res[j] == d[j]);
                } else {
                    let m = choose|m: int| 0 <= m < s.len() && s[m] == d[i];
                    assert(res[j] == s[s.len() - 1]);
                    if m < s.len() - 1 {
                        assert(s[m].1 <= s[s.len() - 1].1);
                    }
                }
            }
        }
    }
}

/// The ranked list is in ascending order of priority: an entry of lower
/// priority always comes before one of higher priority.
pub proof fn lemma_priority_order(s: Seq<Entry>)
    ensures
        forall|i: int, j: int|
            0 <= i < organized(s).len() && 0 <= j < organized(s).len() && (#[trigger] organized(
                s,
            )[i]).1 < (#[trigger] organized(s)[j]).1 ==> i < j,
{
    lemma_sorted_by_priority(s);
    lemma_dedup_sorted(sorted_by_priority(s));
    let o = organized(s);
    assert forall|i: int, j: int|
        0 <= i < o.len() && 0 <= j < o.len() && (#[trigger] o[i]).1 < (#[trigger] o[j]).1 implies i
        < j by {
        if j < i {
            assert(o[j].1 <= o[i].1);
        }
    }
}

/// Only neighbours are merged: a list in which no entry has the script of the
/// entry just before it is kept whole, whatever duplicates it holds further apart.
pub proof fn lemma_dedup_adjacent_only(s: Seq<Entry>)
    requires
        forall|k: int| 1 <= k < s.len() ==> (#[trigger] s[k - 1]).0 != s[k].0,
    ensures
        dedup_adjacent(s) == s,
    decreases s.len(),
{
    if s.len() > 0 {
        let p = s.drop_last();
        assert forall|k: int| 1 <= k < p.len() implies (#[trigger] p[k - 1]).0 != p[k].0 by {
            assert(p[k - 1] == s[k - 1] && p[k] == s[k]);
        }
        lemma_dedup_adjacent_only(p);
        if s.len() >= 2 {
            assert(s[s.len() - 2].0 != s[s.len() - 1].0);
        }
        assert(p.push(s.last()) =~= s);
    }
}

/// The ranked corrections are a function of the command, the shell, the
/// environment and the rules: two runs on the same inputs give the same list.
pub proof fn lemma_deterministic(
    rules: Seq<RuleView>,
    c: CrabCommand,
    shell: Shell,
    env: Environment,
    first: Seq<Entry>,
    second: Seq<Entry>,
)
    requires
        first == corrections(rules, c, shell, env),
        second == corrections(rules, c, shell, env),
    ensures
        first == second,
{
}

} // verus!
