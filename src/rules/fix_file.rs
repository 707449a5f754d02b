//! The output names a file and line where an error was found: open the
//! editor there, then run the script again.
use vstd::prelude::*;
use crate::command::CrabCommand;
use crate::rules::utils::{and_then, capture_group, group_of, run_before};
use crate::rules::{default_priority, Rule, RuleKind};
use crate::shell::Shell;
use crate::text::{concat, equal, strings_view};

verus! {

/// The number of output formats recognised.
pub const PATTERN_COUNT: usize = 12;

/// The output formats that name a file and a line, most specific first.
pub open spec fn pattern(k: int) -> Seq<char> {
    if k == 0 {
        "(?m)^    at (?P<file>[^:\n]+):(?P<line>[0-9]+):(?P<col>[0-9]+)"@
    } else if k == 1 {
        "(?m)^   (?P<file>[^:\n]+):(?P<line>[0-9]+):(?P<col>[0-9]+)"@
    } else if k == 2 {
        "(?m)^  File \"(?P<file>[^:\n]+)\", line (?P<line>[0-9]+)"@
    } else if k == 3 {
        "(?m)^awk: (?P<file>[^:\n]+):(?P<line>[0-9]+):"@
    } else if k == 4 {
        "(?m)^fatal: bad config file line (?P<line>[0-9]+) in (?P<file>[^:\n]+)"@
    } else if k == 5 {
        "(?m)^llc: (?P<file>[^:\n]+):(?P<line>[0-9]+):(?P<col>[0-9]+):"@
    } else if k == 6 {
        "(?m)^lua: (?P<file>[^:\n]+):(?P<line>[0-9]+):"@
    } else if k == 7 {
        "(?m)^(?P<file>[^:\n]+) \\(line (?P<line>[0-9]+)\\):"@
    } else if k == 8 {
        "(?m)^(?P<file>[^:\n]+): line (?P<line>[0-9]+): "@
    } else if k == 9 {
        "(?m)^(?P<file>[^:\n]+):(?P<line>[0-9]+):(?P<col>[0-9]+)"@
    } else if k == 10 {
        "(?m)^(?P<file>[^:\n]+):(?P<line>[0-9]+):"@
    } else {
        "(?m)^at (?P<file>[^:\n]+) line (?P<line>[0-9]+)"@
    }
}

/// The group that holds the file name in pattern `k`.
pub open spec fn file_group(k: int) -> int {
    if k == 4 {
        2
    } else {
        1
    }
}

/// The group that holds the line number in pattern `k`.
pub open spec fn line_group(k: int) -> int {
    if k == 4 {
        1
    } else {
        2
    }
}

fn pattern_at(k: usize) -> (r: (&'static str, usize, usize))
    requires
        k < PATTERN_COUNT,
    ensures
        r.0@ == pattern(k as int),
        r.1 == file_group(k as int),
        r.2 == line_group(k as int),
{
    if k == 0 {
        ("(?m)^    at (?P<file>[^:\n]+):(?P<line>[0-9]+):(?P<col>[0-9]+)", 1, 2)
    } else if k == 1 {
        ("(?m)^   (?P<file>[^:\n]+):(?P<line>[0-9]+):(?P<col>[0-9]+)", 1, 2)
    } else if k == 2 {
        ("(?m)^  File \"(?P<file>[^:\n]+)\", line (?P<line>[0-9]+)", 1, 2)
    } else if k == 3 {
        ("(?m)^awk: (?P<file>[^:\n]+):(?P<line>[0-9]+):", 1, 2)
    } else if k == 4 {
        ("(?m)^fatal: bad config file line (?P<line>[0-9]+) in (?P<file>[^:\n]+)", 2, 1)
    } else if k == 5 {
        ("(?m)^llc: (?P<file>[^:\n]+):(?P<line>[0-9]+):(?P<col>[0-9]+):", 1, 2)
    } else if k == 6 {
        ("(?m)^lua: (?P<file>[^:\n]+):(?P<line>[0-9]+):", 1, 2)
    } else if k == 7 {
        ("(?m)^(?P<file>[^:\n]+) \\(line (?P<line>[0-9]+)\\):", 1, 2)
    } else if k == 8 {
        ("(?m)^(?P<file>[^:\n]+): line (?P<line>[0-9]+): ", 1, 2)
    } else if k == 9 {
        ("(?m)^(?P<file>[^:\n]+):(?P<line>[0-9]+):(?P<col>[0-9]+)", 1, 2)
    } else if k == 10 {
        ("(?m)^(?P<file>[^:\n]+):(?P<line>[0-9]+):", 1, 2)
    } else {
        ("(?m)^at (?P<file>[^:\n]+) line (?P<line>[0-9]+)", 1, 2)
    }
}

/// A file and a line number, as the output names them.
pub struct FileMatch {
    pub file: String,
    pub line: String,
}

/// The first pattern from `k` on whose match names a file among `files`
/// and a line: that file and line.
pub open spec fn search_from(o: Seq<char>, files: Seq<Seq<char>>, k: int) -> Option<
    (Seq<char>, Seq<char>),
>
    decreases PATTERN_COUNT - k,
{
    if k < 0 || k >= PATTERN_COUNT {
        None
    } else {
        match (group_of(pattern(k), o, file_group(k)), group_of(pattern(k), o, line_group(k))) {
            (Some(f), Some(l)) => if files.contains(f) {
                Some((f, l))
            } else {
                search_from(o, files, k + 1)
            },
            _ => search_from(o, files, k + 1),
        }
    }
}

/// The file names that the patterns find in `o`, whether or not they exist.
pub open spec fn named_files_from(o: Seq<char>, k: int) -> Seq<Seq<char>>
    decreases PATTERN_COUNT - k,
{
    if k < 0 || k >= PATTERN_COUNT {
        seq![]
    } else {
        match group_of(pattern(k), o, file_group(k)) {
            Some(f) => seq![f] + named_files_from(o, k + 1),
            None => named_files_from(o, k + 1),
        }
    }
}

pub open spec fn matches(c: CrabCommand, editor: Option<Seq<char>>, files: Seq<Seq<char>>) -> bool {
    match c.output {
        Some(o) => editor is Some && search_from(o@, files, 0) is Some,
        None => false,
    }
}

/// The editor opened at the file and line found, then the script.
pub open spec fn fixes(
    c: CrabCommand,
    shell: Shell,
    editor: Option<Seq<char>>,
    files: Seq<Seq<char>>,
) -> Seq<Seq<char>> {
    match (c.output, editor) {
        (Some(o), Some(e)) => match search_from(o@, files, 0) {
            Some((f, l)) => seq![edit_then(shell, e, f, l, c.script@)],
            None => seq![],
        },
        _ => seq![],
    }
}

fn contains_string(v: &Vec<String>, s: &str) -> (r: bool)
    ensures
        r == strings_view(v@).contains(s@),
{
    let mut k: usize = 0;
    while k < v.len()
        invariant
            k <= v@.len(),
            forall|t: int| 0 <= t < k ==> v@[t]@ != s@,
        decreases v@.len() - k,
    {
        if equal(v[k].as_str(), s) {
            assert(strings_view(v@)[k as int] == s@);
            return true;
        }
        k += 1;
    }
    assert(!strings_view(v@).contains(s@)) by {
        if strings_view(v@).contains(s@) {
            let t = choose|t: int| 0 <= t < v@.len() && strings_view(v@)[t] == s@;
            assert(v@[t]@ == s@);
        }
    }
    false
}

/// The first file among `files` that `output` names with a line number.
pub fn search(output: &str, files: &Vec<String>) -> (r: Option<FileMatch>)
    ensures
        match r {
            Some(m) => search_from(output@, strings_view(files@), 0) == Some((m.file@, m.line@)),
            None => search_from(output@, strings_view(files@), 0) is None,
        },
{
    let mut k: usize = 0;
    while k < PATTERN_COUNT
        invariant
            k <= PATTERN_COUNT,
            search_from(output@, strings_view(files@), k as int) == search_from(
                output@,
                strings_view(files@),
                0,
            ),
        decreases PATTERN_COUNT - k,
    {
        let (pat, fg, lg) = pattern_at(k);
        let file = capture_group(pat, output, fg);
        let line = capture_group(pat, output, lg);
        if let (Some(file), Some(line)) = (file, line) {
            if contains_string(files, file.as_str()) {
                return Some(FileMatch { file, line });
            }
        }
        k += 1;
    }
    None
}

/// The file names that the patterns find in `output`: the paths whose
/// existence decides this rule.
pub fn named_files(output: &str) -> (r: Vec<String>)
    ensures
        strings_view(r@) == named_files_from(output@, 0),
{
    let mut r: Vec<String> = Vec::new();
    let mut k: usize = 0;
    while k < PATTERN_COUNT
        invariant
            k <= PATTERN_COUNT,
            strings_view(r@) + named_files_from(output@, k as int) == named_files_from(output@, 0),
        decreases PATTERN_COUNT - k,
    {
        let (pat, fg, _) = pattern_at(k);
        if let Some(file) = capture_group(pat, output, fg) {
            let ghost before = strings_view(r@);
            r.push(file);
            assert(before + named_files_from(output@, k as int) =~= strings_view(r@)
                + named_files_from(output@, k + 1));
        }
        k += 1;
    }
    assert(strings_view(r@) =~= named_files_from(output@, 0));
    r
}

/// The script that opens `editor` on `file` at `line`, then runs `script`.
pub open spec fn edit_then(
    shell: Shell,
    editor: Seq<char>,
    file: Seq<char>,
    line: Seq<char>,
    script: Seq<char>,
) -> Seq<char> {
    and_then(shell, editor + " "@ + file + " +"@ + line, script)
}

/// Opens `editor` on `file` at `line`, then runs `script` again.
pub fn edit_and_retry(shell: &Shell, editor: &str, file: &str, line: &str, script: &str) -> (r:
    String)
    ensures
        r@ == edit_then(*shell, editor@, file@, line@, script@),
{
    let mut call = concat(editor, " ");
    call.append(file);
    call.append(" +");
    call.append(line);
    run_before(shell, call, script)
}

pub open spec fn editor_view(editor: Option<String>) -> Option<Seq<char>> {
    match editor {
        Some(e) => Some(e@),
        None => None,
    }
}

/// Whether an editor is set and the output names one of `existing_files` with a line.
pub fn match_rule(
    command: &CrabCommand,
    _system_shell: Option<&Shell>,
    editor: &Option<String>,
    existing_files: &Vec<String>,
) -> (r: bool)
    ensures
        r == matches(*command, editor_view(*editor), strings_view(existing_files@)),
{
    if editor.is_none() {
        return false;
    }
    match &command.output {
        Some(output) => search(output.as_str(), existing_files).is_some(),
        None => false,
    }
}

pub fn get_new_command(
    command: &CrabCommand,
    system_shell: Option<&Shell>,
    editor: &Option<String>,
    existing_files: &Vec<String>,
) -> (r: Vec<String>)
    requires
        system_shell is Some,
    ensures
        strings_view(r@) == fixes(
            *command,
            *system_shell.unwrap(),
            editor_view(*editor),
            strings_view(existing_files@),
        ),
{
    let shell = system_shell.unwrap();
    let mut r: Vec<String> = Vec::new();
    if let (Some(output), Some(editor)) = (&command.output, editor) {
        if let Some(m) = search(output.as_str(), existing_files) {
            r.push(
                edit_and_retry(
                    shell,
                    editor.as_str(),
                    m.file.as_str(),
                    m.line.as_str(),
                    command.script.as_str(),
                ),
            );
        }
    }
    assert(strings_view(r@) =~= fixes(
        *command,
        *shell,
        editor_view(*editor),
        strings_view(existing_files@),
    ));
    r
}

pub fn get_rule() -> (r: Rule)
    ensures
        r.name@ == "fix_file"@,
        r.kind == RuleKind::FixFile,
        r.priority == default_priority(),
        r.enabled_by_default,
        r.requires_output,
        r.side_effect is None,
{
    Rule::new(String::from_str("fix_file"), None, None, None, RuleKind::FixFile, None)
}

} // verus!
