//! Program checks and helpers shared by the rules.
use vstd::prelude::*;
use crate::command::CrabCommand;
use crate::external::{captures, file_name, file_name_of, regex_captures_of};
use crate::shell::{joined, Shell};
use crate::text::{concat, ends_with, equal, replace_first, replaced_first, strings_view};

verus! {

/// The base name of the first word of `c`, or the empty word.
pub open spec fn app_name(c: CrabCommand) -> Seq<char> {
    match file_name_of(c.script_parts@[0]@) {
        Some(n) => n,
        None => Seq::empty(),
    }
}

/// `c` has more than `at_least` words (none when not given) and the base
/// name of its first word is one of `app_names`.
pub open spec fn is_app_spec(c: CrabCommand, app_names: Seq<&str>, at_least: Option<usize>) -> bool {
    let min: int = match at_least {
        Some(n) => n as int,
        None => 0,
    };
    c.script_parts@.len() > min && exists|k: int| 0 <= k < app_names.len() && app_names[k]@ == app_name(c)
}

/// Every command is refused whose program is not among `app_names`,
/// whatever its output.
pub proof fn lemma_app_check_rejects_other_apps(
    c: CrabCommand,
    app_names: Seq<&str>,
    at_least: Option<usize>,
)
    requires
        forall|k: int| 0 <= k < app_names.len() ==> (#[trigger] app_names[k])@ != app_name(c),
    ensures
        !is_app_spec(c, app_names, at_least),
        forall|o: Option<String>|
            !is_app_spec((CrabCommand { output: o, ..c }), app_names, at_least),
{
}

/// Whether `command` runs one of `app_names` with more than `at_least` words.
pub fn is_app(command: &CrabCommand, app_names: &Vec<&str>, at_least: Option<usize>) -> (r: bool)
    ensures
        r == is_app_spec(*command, app_names@, at_least),
{
    let min: usize = match at_least {
        Some(n) => n,
        None => 0,
    };
    if command.script_parts.len() <= min {
        return false;
    }
    let name = match file_name(command.script_parts[0].as_str()) {
        Some(n) => n,
        None => String::new(),
    };
    let mut k: usize = 0;
    while k < app_names.len()
        invariant
            k <= app_names@.len(),
            command.script_parts@.len() > min,
            min == match at_least {
                Some(n) => n,
                None => 0,
            },
            name@ == app_name(*command),
            forall|t: int| 0 <= t < k ==> app_names@[t]@ != app_name(*command),
        decreases app_names@.len() - k,
    {
        if equal(app_names[k], name.as_str()) {
            assert(app_names@[k as int]@ == app_name(*command));
            return true;
        }
        k += 1;
    }
    false
}

/// `func` applied to `command` when `command` runs one of `app_names` with
/// more than `at_least` words; `false`, without calling `func`, otherwise.
pub fn match_rule_with_is_app<F: Fn(&CrabCommand) -> bool>(
    func: F,
    command: &CrabCommand,
    app_names: Vec<&str>,
    at_least: Option<usize>,
) -> (r: bool)
    requires
        is_app_spec(*command, app_names@, at_least) ==> func.requires((command,)),
    ensures
        !is_app_spec(*command, app_names@, at_least) ==> !r,
        is_app_spec(*command, app_names@, at_least) ==> func.ensures((command,), r),
{
    if is_app(command, &app_names, at_least) {
        func(command)
    } else {
        false
    }
}

/// A match predicate narrowed to the commands that run one of `app_names`
/// with more than `at_least` words.
pub struct AppMatcher<'a, F> {
    pub app_names: Vec<&'a str>,
    pub at_least: Option<usize>,
    pub rule_logic: F,
}

/// The predicate `rule_logic`, narrowed to the program run.
pub fn is_app_match_rule<'a, F: Fn(&CrabCommand) -> bool>(
    app_names: Vec<&'a str>,
    at_least: Option<usize>,
    rule_logic: F,
) -> (r: AppMatcher<'a, F>)
    ensures
        r.app_names@ == app_names@,
        r.at_least == at_least,
        r.rule_logic == rule_logic,
{
    AppMatcher { app_names, at_least, rule_logic }
}

impl<'a, F: Fn(&CrabCommand) -> bool> AppMatcher<'a, F> {
    /// `rule_logic` applied to `command` when the program matches; `false`,
    /// without calling it, otherwise.
    pub fn call(&self, command: &CrabCommand, system_shell: Option<&Shell>) -> (r: bool)
        requires
            is_app_spec(*command, self.app_names@, self.at_least) ==> self.rule_logic.requires(
                (command,),
            ),
        ensures
            !is_app_spec(*command, self.app_names@, self.at_least) ==> !r,
            is_app_spec(*command, self.app_names@, self.at_least) ==> self.rule_logic.ensures(
                (command,),
                r,
            ),
    {
        if is_app(command, &self.app_names, self.at_least) {
            (self.rule_logic)(command)
        } else {
            false
        }
    }
}

/// `first`, then `second` once `first` has succeeded, in the syntax of `shell`.
pub open spec fn and_then(shell: Shell, first: Seq<char>, second: Seq<char>) -> Seq<char> {
    first + shell.and_operator() + second
}

/// The script that runs `first` and, once it has succeeded, `second`.
pub fn run_before(shell: &Shell, first: String, second: &str) -> (r: String)
    ensures
        r@ == and_then(*shell, first@, second@),
{
    let ghost f = first@;
    let v = vec![first, String::from_str(second)];
    let r = shell.and(&v);
    assert(strings_view(v@) =~= seq![f, second@]);
    assert(seq![f, second@].drop_last() =~= seq![f]);
    assert(joined(seq![f], shell.and_operator()) == f);
    assert(joined(seq![f, second@], shell.and_operator()) == f + shell.and_operator() + second@);
    r
}

/// The script that creates the directory `dir` and then runs `script`.
pub open spec fn mkdir_then(shell: Shell, dir: Seq<char>, script: Seq<char>) -> Seq<char> {
    and_then(shell, "mkdir -p "@ + dir, script)
}

/// Creates the directory `dir`, then runs `script` again.
pub fn mkdir_and_retry(shell: &Shell, dir: &str, script: &str) -> (r: String)
    ensures
        r@ == mkdir_then(*shell, dir@, script@),
{
    run_before(shell, concat("mkdir -p ", dir), script)
}

/// `script` with the argument `from` replaced by `to`: the last word when
/// `script` ends with it, else its first occurrence as a whole word.
pub open spec fn replaced_argument(script: Seq<char>, from: Seq<char>, to: Seq<char>) -> Seq<char> {
    let tail = " "@ + from;
    if tail.is_suffix_of(script) {
        script.subrange(0, script.len() - tail.len()) + " "@ + to
    } else {
        replaced_first(script, " "@ + from + " "@, " "@ + to + " "@)
    }
}

/// Replaces the argument `from` of `script` by `to`, see [`replaced_argument`].
pub fn replace_argument(script: &str, from: &str, to: &str) -> (r: String)
    ensures
        r@ == replaced_argument(script@, from@, to@),
{
    let tail = concat(" ", from);
    if ends_with(script, tail.as_str()) {
        let n = script.unicode_len();
        let head = script.substring_char(0, n - tail.unicode_len());
        let r = concat(head, " ");
        let mut r = r;
        r.append(to);
        return r;
    }
    let mut old = concat(" ", from);
    old.append(" ");
    let mut new = concat(" ", to);
    new.append(" ");
    replace_first(script, old.as_str(), new.as_str())
}

/// Group `index` of the first match of `pattern` in `haystack`.
pub open spec fn group_of(pattern: Seq<char>, haystack: Seq<char>, index: int) -> Option<Seq<char>> {
    match regex_captures_of(pattern, haystack) {
        Some(g) => if 0 <= index < g.len() {
            g[index]
        } else {
            None
        },
        None => None,
    }
}

/// Group `index` of the first match of `pattern` in `haystack`, if it took part in the match.
pub fn capture_group(pattern: &str, haystack: &str, index: usize) -> (r: Option<String>)
    ensures
        match r {
            Some(s) => group_of(pattern@, haystack@, index as int) == Some(s@),
            None => group_of(pattern@, haystack@, index as int) is None,
        },
{
    match captures(pattern, haystack) {
        Some(g) => {
            if index < g.len() {
                match &g[index] {
                    Some(s) => Some(s.clone()),
                    None => None,
                }
            } else {
                None
            }
        },
        None => None,
    }
}

} // verus!
