use ohcrab::command::{split_command, CrabCommand};
use ohcrab::shell::Shell;
use ohcrab::text::{replace, split, split_whitespace, trim_end};

#[test]
fn quoted_words_stay_together() {
    let c = CrabCommand::new("git commit -m \"a b\"".to_owned(), None, None);
    assert_eq!(c.script_parts, vec!["git", "commit", "-m", "a b"]);
}

#[test]
fn unbalanced_quotes_fall_back_to_white_space() {
    assert_eq!(split_command("echo \"a b"), vec!["echo", "\"a", "b"]);
}

#[test]
fn update_leaves_the_receiver_unchanged() {
    let c = CrabCommand::new("sudo ls -la".to_owned(), Some("out".to_owned()), Some(1));
    let d = c.update(Some("ls -la".to_owned()), None, None);
    assert_eq!(d.script, "ls -la");
    assert_eq!(d.script_parts, vec!["ls", "-la"]);
    assert_eq!(d.output, Some("out".to_owned()));
    assert_eq!(d.exit_code, Some(1));
    assert_eq!(c.script, "sudo ls -la");
    let e = c.update(None, Some("new".to_owned()), None);
    assert_eq!(e.script_parts, c.script_parts);
    assert_eq!(e.output, Some("new".to_owned()));
}

#[test]
fn shells_sequence_statements() {
    let v = vec!["a".to_string(), "b".to_string(), "c".to_string()];
    assert_eq!(Shell::Bash.and(&v), "a && b && c");
    assert_eq!(Shell::Zsh.and(&v), "a && b && c");
    assert_eq!(Shell::Tcsh.and(&v), "a && b && c");
    assert_eq!(Shell::Fish.and(&v), "a; and b; and c");
    assert_eq!(Shell::Bash.and(&vec![]), "");
}

#[test]
fn shells_quote_words() {
    assert_eq!(Shell::Bash.quote("plain"), Some("plain".to_string()));
    assert_eq!(Shell::Bash.quote("a b"), Some("'a b'".to_string()));
    assert_eq!(Shell::Bash.quote(""), Some("''".to_string()));
    assert_eq!(Shell::Bash.quote("a\0b"), None);
}

#[test]
fn text_operations_follow_std() {
    assert_eq!(replace("a-b-c", "-", "+"), "a+b+c");
    assert_eq!(replace("abc", "", "."), ".a.b.c.");
    assert_eq!(replace("aaa", "aa", "b"), "ba");
    assert_eq!(split("a, b, , c", ", "), vec!["a", "b", "", "c"]);
    assert_eq!(split_whitespace("  a \t b\n"), vec!["a", "b"]);
    assert_eq!(trim_end("x y \n\t"), "x y");
}
