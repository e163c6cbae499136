use shell_core::autocomplete::{Completion, ShellAutocomplete};
use shell_core::search::Entry;

fn text(words: &[&str]) -> Vec<String> {
    words.iter().map(|w| w.to_string()).collect()
}

#[test]
fn one_match_replaces_the_line() {
    let a = ShellAutocomplete::with_names(&text(&["ls", "lsof"]));
    assert_eq!(a.complete("ex"), Completion::Replace("exit ".to_string()));
    assert_eq!(a.complete("exit"), Completion::Replace("exit ".to_string()));
    assert_eq!(a.complete("lso"), Completion::Replace("lsof ".to_string()));
    assert_eq!(a.complete("h"), Completion::Replace("history ".to_string()));
}

#[test]
fn several_matches_are_listed_in_order() {
    let a = ShellAutocomplete::with_names(&text(&["lsof", "ls", "cat", "ls"]));
    assert_eq!(a.complete("l"), Completion::Candidates(text(&["ls", "lsof"])));
    assert_eq!(a.complete("ls"), Completion::Candidates(text(&["ls", "lsof"])));
    assert_eq!(a.complete("e"), Completion::Candidates(text(&["echo", "exit"])));
    assert_eq!(a.complete("c"), Completion::Candidates(text(&["cat", "cd"])));
    assert_eq!(
        a.complete(""),
        Completion::Candidates(text(&[
            "cat", "cd", "echo", "exit", "history", "ls", "lsof", "pwd", "type"
        ]))
    );
}

#[test]
fn no_match_rings_the_bell() {
    let a = ShellAutocomplete::with_names(&text(&["ls"]));
    assert_eq!(a.complete("x"), Completion::Bell);
    assert_eq!(a.complete("lss"), Completion::Bell);
    assert_eq!(a.complete("ls "), Completion::Bell);
    assert_eq!(a.complete("echo hi"), Completion::Bell);
}

#[test]
fn every_builtin_can_be_completed() {
    let a = ShellAutocomplete::with_names(&vec![]);
    assert_eq!(
        a.complete(""),
        Completion::Candidates(text(&["cd", "echo", "exit", "history", "pwd", "type"]))
    );
    let b = ShellAutocomplete::new(&vec![]);
    assert_eq!(b.complete(""), a.complete(""));
}

#[test]
fn only_files_that_may_be_executed_are_offered() {
    let dirs = vec![vec![
        Entry { name: "zz-gone".to_string(), path: "/surely/not/there".to_string() },
        Entry { name: "zz-passwd".to_string(), path: "/etc/passwd".to_string() },
        Entry { name: "zz-sh".to_string(), path: "/bin/sh".to_string() },
    ]];
    let a = ShellAutocomplete::new(&dirs);
    assert_eq!(a.complete("zz-g"), Completion::Bell);
    assert_eq!(a.complete("ty"), Completion::Replace("type ".to_string()));
    match a.complete("zz") {
        Completion::Bell => {}
        Completion::Replace(t) => assert!(t == "zz-sh " || t == "zz-passwd "),
        Completion::Candidates(v) => assert_eq!(v, text(&["zz-passwd", "zz-sh"])),
    }
}
