//! The failing invocation under examination.
use vstd::prelude::*;
use crate::external::{shell_split, shell_words_of};
use crate::text::{split_whitespace, strings_view, words};

verus! {

/// The words of a script: split as a POSIX shell would, or at white space
/// when its quoting is unbalanced.
pub open spec fn tokens_of(script: Seq<char>) -> Seq<Seq<char>> {
    match shell_words_of(script) {
        Some(w) => w,
        None => words(script),
    }
}

/// Splits `script` into its words, see [`tokens_of`].
pub fn split_command(script: &str) -> (r: Vec<String>)
    ensures
        strings_view(r@) == tokens_of(script@),
{
    match shell_split(script) {
        Some(w) => w,
        None => split_whitespace(script),
    }
}

/// A copy of a list of strings.
pub fn copy_strings(v: &Vec<String>) -> (r: Vec<String>)
    ensures
        r@ == v@,
{
    let mut r: Vec<String> = Vec::new();
    let mut i: usize = 0;
    while i < v.len()
        invariant
            i <= v@.len(),
            r@ == v@.take(i as int),
        decreases v@.len() - i,
    {
        r.push(v[i].clone());
        assert(v@.take(i + 1) =~= v@.take(i as int).push(v@[i as int]));
        i += 1;
    }
    assert(v@.take(v@.len() as int) =~= v@);
    r
}

/// One failing invocation: the script as typed, its words, and the output it
/// printed, when that was captured.
pub struct CrabCommand {
    pub script: String,
    pub script_parts: Vec<String>,
    pub output: Option<String>,
    pub exit_code: Option<i32>,
}

impl CrabCommand {
    /// The words are those of the script.
    pub open spec fn wf(&self) -> bool {
        strings_view(self.script_parts@) == tokens_of(self.script@)
    }

    /// The invocation of `script`, with its words split from it.
    pub fn new(script: String, output: Option<String>, exit_code: Option<i32>) -> (r: CrabCommand)
        ensures
            r.script == script,
            r.output == output,
            r.exit_code == exit_code,
            r.wf(),
    {
        let script_parts = split_command(script.as_str());
        CrabCommand { script, script_parts, output, exit_code }
    }

    /// A new invocation with the fields given replaced; the words are split
    /// again only when the script is replaced. `self` is left as it is.
    pub fn update(
        &self,
        script: Option<String>,
        output: Option<String>,
        exit_code: Option<i32>,
    ) -> (r: CrabCommand)
        ensures
            r.script == match script {
                Some(s) => s,
                None => self.script,
            },
            r.output == match output {
                Some(o) => Some(o),
                None => self.output,
            },
            r.exit_code == match exit_code {
                Some(c) => Some(c),
                None => self.exit_code,
            },
            script is Some ==> r.wf(),
            script is None ==> r.script_parts@ == self.script_parts@,
    {
        let output = match output {
            Some(o) => Some(o),
            None => self.output.clone(),
        };
        let exit_code = match exit_code {
            Some(c) => Some(c),
            None => self.exit_code,
        };
        match script {
            Some(s) => CrabCommand::new(s, output, exit_code),
            None => CrabCommand {
                script: self.script.clone(),
                script_parts: copy_strings(&self.script_parts),
                output,
                exit_code,
            },
        }
    }
}

/// One proposed replacement script, with its rank (lower is shown first) and
/// the action to perform once it is chosen.
pub struct CorrectedCommand {
    pub script: String,
    pub side_effect: Option<SideEffect>,
    pub priority: u128,
}

/// An action attached to a suggestion, named by its tag; this library never
/// performs it.
pub struct SideEffect {
    pub tag: String,
}

impl SideEffect {
    pub fn copy(&self) -> (r: SideEffect)
        ensures
            r == *self,
    {
        SideEffect { tag: self.tag.clone() }
    }
}

impl CorrectedCommand {
    pub fn new(script: String, side_effect: Option<SideEffect>, priority: u128) -> (r:
        CorrectedCommand)
        ensures
            r.script == script,
            r.side_effect == side_effect,
            r.priority == priority,
    {
        CorrectedCommand { script, side_effect, priority }
    }
}

} // verus!
