use ohcrab::command::CrabCommand;
use ohcrab::rules::fix_file::{get_new_command, match_rule, named_files, search};
use ohcrab::shell::Shell;

struct TestCase<'a> {
    script: &'a str,
    file: &'a str,
    line: &'a str,
    output: &'a str,
}

const TESTS: &[TestCase] = &[
    TestCase {
        script: "gcc a.c",
        file: "a.c",
        line: "3",
        output: "a.c: In function 'main':\na.c:3:1: error: expected expression before '}' token\n }",
    },
    TestCase {
        script: "python a.py",
        file: "a.py",
        line: "2",
        output: "  File \"a.py\", line 2\n      +\n          ^\nSyntaxError: invalid syntax",
    },
    TestCase {
        script: "cargo build",
        file: "src/lib.rs",
        line: "3",
        output: "   Compiling test v0.1.0 (file:///tmp/fix-error/test)\n   src/lib.rs:3:5: 3:6 error: unexpected token: `+`\n   src/lib.rs:3     +\n                    ^\nCould not compile `test`.",
    },
    TestCase {
        script: "node fuck.js",
        file: "/tmp/dir/fuck.js",
        line: "2",
        output: "{file}:2\nconole.log(arg);\n^\nReferenceError: conole is not defined\n    at {file}:2:5",
    },
    TestCase {
        script: "git st",
        file: "/tmp/dir/.git/config",
        line: "1",
        output: "fatal: bad config file line 1 in {file}",
    },
    TestCase {
        script: "bash a.sh",
        file: "/tmp/dir/a.sh",
        line: "2",
        output: "{file}: line 2: foo: command not found",
    },
];

#[test]
fn fix_file_match_and_get_new_command() {
    for test in TESTS {
        let output = test.output.replace("{file}", test.file);
        let command = CrabCommand::new(test.script.to_string(), Some(output), None);
        let editor = Some("dummy_editor".to_string());
        let files = vec![test.file.to_string()];
        assert!(match_rule(&command, None, &editor, &files), "{}", test.script);
        let expected = format!("dummy_editor {} +{} && {}", test.file, test.line, test.script);
        assert_eq!(get_new_command(&command, Some(&Shell::Bash), &editor, &files), vec![expected]);
    }
}

#[test]
fn test_no_editor() {
    let test = &TESTS[0];
    let command = CrabCommand::new(test.script.to_string(), Some(test.output.to_string()), None);
    assert!(!match_rule(&command, None, &None, &vec!["a.c".to_string()]));
}

#[test]
fn test_not_file() {
    let test = &TESTS[0];
    let command = CrabCommand::new(test.script.to_string(), Some(test.output.to_string()), None);
    assert!(!match_rule(&command, None, &Some("dummy_editor".to_string()), &vec![]));
}

#[test]
fn fix_file_search_and_named_files() {
    let output = "a.c:3:1: error";
    let found = search(output, &vec!["a.c".to_string()]).unwrap();
    assert_eq!((found.file.as_str(), found.line.as_str()), ("a.c", "3"));
    assert!(search(output, &vec!["b.c".to_string()]).is_none());
    assert_eq!(named_files(output), vec!["a.c", "a.c"]);
}
