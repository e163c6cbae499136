use shell_core::trie::Trie;

fn sorted(mut v: Vec<String>) -> Vec<String> {
    v.sort();
    v
}

fn stored() -> Trie {
    let mut t = Trie::new();
    for name in ["echo", "exit", "ls", "lsof"] {
        t.add(name);
    }
    t
}

#[test]
fn fuzzy_finds_every_name_with_the_prefix() {
    let t = stored();
    assert_eq!(sorted(t.fuzzy("l")), vec!["ls", "lsof"]);
    assert_eq!(sorted(t.fuzzy("ex")), vec!["exit"]);
    assert_eq!(sorted(t.fuzzy("e")), vec!["echo", "exit"]);
    assert_eq!(sorted(t.fuzzy("")), vec!["echo", "exit", "ls", "lsof"]);
}

#[test]
fn fuzzy_includes_the_prefix_when_it_is_a_name() {
    let t = stored();
    assert_eq!(sorted(t.fuzzy("ls")), vec!["ls", "lsof"]);
    assert_eq!(sorted(t.fuzzy("lsof")), vec!["lsof"]);
}

#[test]
fn fuzzy_of_an_unknown_prefix_is_empty() {
    let t = stored();
    assert_eq!(t.fuzzy("x"), Vec::<String>::new());
    assert_eq!(t.fuzzy("lsofx"), Vec::<String>::new());
    assert_eq!(t.fuzzy("ec ho"), Vec::<String>::new());
    assert_eq!(Trie::new().fuzzy(""), Vec::<String>::new());
}

#[test]
fn adding_twice_stores_once() {
    let mut t = stored();
    t.add("ls");
    t.add("echo");
    assert_eq!(sorted(t.list_all()), vec!["echo", "exit", "ls", "lsof"]);
}

#[test]
fn list_all_leaves_the_empty_name_out() {
    let mut t = Trie::new();
    t.add("");
    t.add("a");
    assert_eq!(t.list_all(), vec!["a"]);
    assert_eq!(sorted(t.fuzzy("")), vec!["", "a"]);
}

#[test]
fn names_beyond_ascii_are_kept_whole() {
    let mut t = Trie::new();
    t.add("caf\u{e9}");
    t.add("cat");
    assert_eq!(sorted(t.fuzzy("ca")), vec!["caf\u{e9}", "cat"]);
    assert_eq!(t.fuzzy("caf"), vec!["caf\u{e9}"]);
}
