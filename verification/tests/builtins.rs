use shell_core::builtins::{ChildOrStatus, Effect, Outcome, Reply, Request};
use shell_core::search::{executables, locate, select, Entry};
use shell_core::command::Command;
use shell_core::pipeline::parse;
use shell_core::shell::Shell;
use shell_core::shell_io::{Input, Mode, Output};

fn text(words: &[&str]) -> Vec<String> {
    words.iter().map(|w| w.to_string()).collect()
}

fn session() -> Shell {
    Shell::new(text(&["/bin", "/usr/bin"]), "/work".to_string(), "/work/.hist".to_string())
}

fn stage(line: &str) -> Command {
    let mut stages = parse(line).unwrap();
    assert_eq!(stages.len(), 1);
    stages.remove(0)
}

fn nothing() -> Reply {
    Reply { path: None, content: None }
}

fn path(p: &str) -> Reply {
    Reply { path: Some(p.to_string()), content: None }
}

fn content(bytes: &[u8]) -> Reply {
    Reply { path: None, content: Some(bytes.to_vec()) }
}

fn done(status: i32, out: &str, err: &str, effect: Effect) -> Outcome {
    Outcome {
        result: ChildOrStatus::Status(status),
        out: out.to_string(),
        err: err.to_string(),
        effect,
        stdin: Input::Stdin,
        stdout: Output::Stdout,
        stderr: Output::Stderr,
    }
}

fn run(shell: &mut Shell, line: &str, reply: Reply) -> Outcome {
    stage(line).execute(shell, reply)
}

fn entry(dir: &str, name: &str) -> Entry {
    Entry { name: name.to_string(), path: format!("{}/{}", dir, name) }
}

#[test]
fn echo_joins_its_arguments_with_blanks() {
    let mut sh = session();
    assert_eq!(run(&mut sh, "echo hello   world", nothing()), done(0, "hello world\n", "", Effect::Nothing));
    assert_eq!(run(&mut sh, "echo", nothing()), done(0, "\n", "", Effect::Nothing));
    assert_eq!(run(&mut sh, "echo ' a' 'b '", nothing()), done(0, " a b \n", "", Effect::Nothing));
    assert_eq!(run(&mut sh, "echo '' x", path("/bin/echo")), done(0, " x\n", "", Effect::Nothing));
}

#[test]
fn a_builtin_hands_its_streams_over() {
    let mut sh = session();
    let mut c = stage("echo hi >> f 2> g");
    let o = c.execute(&mut sh, nothing());
    assert_eq!(o.stdin, Input::Stdin);
    assert_eq!(o.stdout, Output::File("f".to_string(), Mode::Append));
    assert_eq!(o.stderr, Output::File("g".to_string(), Mode::Truncate));
    assert_eq!(o.out, "hi\n");
    assert_eq!(c.stdin, Input::Taken);
    assert_eq!(c.stdout, Output::Taken);
    assert_eq!(c.stderr, Output::Taken);
    assert_eq!(c.args, text(&["echo", "hi"]));
}

#[test]
fn type_reports_builtins_whatever_was_found() {
    let mut sh = session();
    for name in ["exit", "echo", "type", "pwd", "cd", "history"] {
        let line = format!("type {}", name);
        let said = format!("{} is a shell builtin\n", name);
        assert_eq!(run(&mut sh, &line, nothing()), done(0, &said, "", Effect::Nothing));
        assert_eq!(run(&mut sh, &line, path("/bin/other")), done(0, &said, "", Effect::Nothing));
        assert_eq!(stage(&line).request(&None), Request::Nothing);
    }
}

#[test]
fn type_reports_programs_and_strangers() {
    let mut sh = session();
    assert_eq!(stage("type ls").request(&None), Request::Locate("ls".to_string()));
    assert_eq!(run(&mut sh, "type ls", path("/bin/ls")), done(0, "ls is /bin/ls\n", "", Effect::Nothing));
    assert_eq!(run(&mut sh, "type nope", nothing()), done(0, "", "nope: not found\n", Effect::Nothing));
    assert_eq!(run(&mut sh, "type", nothing()), done(1, "", "Usage: type <command>\n", Effect::Nothing));
    assert_eq!(stage("type").request(&None), Request::Nothing);
}

#[test]
fn pwd_prints_the_working_directory() {
    let mut sh = session();
    assert_eq!(run(&mut sh, "pwd", nothing()), done(0, "/work\n", "", Effect::Nothing));
    assert_eq!(stage("pwd").request(&None), Request::Nothing);
}

#[test]
fn cd_to_a_missing_directory_changes_nothing() {
    let mut sh = session();
    assert_eq!(stage("cd /nowhere").request(&None), Request::Enter("/nowhere".to_string()));
    assert_eq!(
        run(&mut sh, "cd /nowhere", nothing()),
        done(1, "", "cd: /nowhere: No such file or directory\n", Effect::Nothing)
    );
    assert_eq!(sh.pwd, "/work");
    assert_eq!(
        run(&mut sh, "cd", nothing()),
        done(1, "", "cd: No such file or directory\n", Effect::Nothing)
    );
    assert_eq!(stage("cd").request(&None), Request::Nothing);
    assert_eq!(sh.pwd, "/work");
}

#[test]
fn cd_goes_home_for_a_tilde() {
    let mut sh = session();
    let home = Some("/home/u".to_string());
    assert_eq!(stage("cd ~").request(&home), Request::Enter("/home/u".to_string()));
    assert_eq!(stage("cd ~").request(&None), Request::Enter("~".to_string()));
    assert_eq!(stage("cd ~/x").request(&home), Request::Enter("~/x".to_string()));
    assert_eq!(
        run(&mut sh, "cd ~", path("/home/u")),
        done(0, "", "", Effect::Nothing)
    );
    assert_eq!(sh.pwd, "/home/u");
    assert_eq!(
        run(&mut sh, "cd ~", nothing()),
        done(1, "", "cd: ~: No such file or directory\n", Effect::Nothing)
    );
    assert_eq!(sh.pwd, "/home/u");
}

#[test]
fn cd_takes_the_canonical_path() {
    let mut sh = session();
    assert_eq!(
        run(&mut sh, "cd ../tmp/.", path("/tmp")),
        done(0, "", "", Effect::Nothing)
    );
    assert_eq!(sh.pwd, "/tmp");
    assert_eq!(run(&mut sh, "pwd", nothing()), done(0, "/tmp\n", "", Effect::Nothing));
}

#[test]
fn exit_ends_the_process_with_the_code() {
    let mut sh = session();
    sh.execute("exit 3".to_string()).unwrap();
    assert_eq!(
        run(&mut sh, "exit 3", nothing()),
        done(
            3,
            "",
            "",
            Effect::Exit { code: 3, file: "/work/.hist".to_string(), text: "exit 3\n".to_string() }
        )
    );
    assert_eq!(
        run(&mut sh, "exit -1", nothing()).effect,
        Effect::Exit { code: -1, file: "/work/.hist".to_string(), text: "exit 3\n".to_string() }
    );
}

#[test]
fn exit_without_a_number_goes_on() {
    let mut sh = session();
    sh.execute("ls".to_string()).unwrap();
    let saved = Effect::Write { file: "/work/.hist".to_string(), text: "ls\n".to_string() };
    assert_eq!(run(&mut sh, "exit", nothing()), done(1, "", "Usage: exit <exit_code>", saved.clone()));
    assert_eq!(run(&mut sh, "exit now", nothing()), done(1, "", "invalid error code", saved.clone()));
    assert_eq!(
        run(&mut sh, "exit 2147483648", nothing()),
        done(1, "", "invalid error code", saved.clone())
    );
    assert_eq!(run(&mut sh, "exit 1.5", nothing()), done(1, "", "invalid error code", saved));
}

#[test]
fn history_lists_the_last_lines_with_their_numbers() {
    let mut sh = session();
    for line in ["echo a", "ls -l", "history 2"] {
        sh.execute(line.to_string()).unwrap();
    }
    assert_eq!(
        run(&mut sh, "history 2", nothing()),
        done(0, "    2  ls -l\n    3  history 2\n", "", Effect::Nothing)
    );
    assert_eq!(
        run(&mut sh, "history", nothing()),
        done(0, "    1  echo a\n    2  ls -l\n    3  history 2\n", "", Effect::Nothing)
    );
    assert_eq!(
        run(&mut sh, "history 10", nothing()),
        done(0, "    1  echo a\n    2  ls -l\n    3  history 2\n", "", Effect::Nothing)
    );
    assert_eq!(run(&mut sh, "history 0", nothing()), done(0, "", "", Effect::Nothing));
    assert_eq!(
        run(&mut sh, "history 1 2 3", nothing()),
        done(0, "    3  history 2\n", "", Effect::Nothing)
    );
}

#[test]
fn history_numbers_grow_past_nine() {
    let mut sh = session();
    for i in 0..12 {
        sh.execute(format!("l{}", i)).unwrap();
    }
    assert_eq!(
        run(&mut sh, "history 4", nothing()),
        done(0, "    9  l8\n    10  l9\n    11  l10\n    12  l11\n", "", Effect::Nothing)
    );
}

#[test]
fn history_refuses_what_is_no_number() {
    let mut sh = session();
    sh.execute("ls".to_string()).unwrap();
    assert_eq!(
        run(&mut sh, "history x", nothing()),
        done(1, "", "invalid digit found in string", Effect::Nothing)
    );
    assert_eq!(
        run(&mut sh, "history -3", nothing()),
        done(1, "", "invalid digit found in string", Effect::Nothing)
    );
    assert_eq!(
        run(&mut sh, "history ''", nothing()),
        done(1, "", "cannot parse integer from empty string", Effect::Nothing)
    );
    assert_eq!(
        run(&mut sh, "history 99999999999999999999999", nothing()),
        done(1, "", "number too large to fit in target type", Effect::Nothing)
    );
}

#[test]
fn history_appends_only_what_is_new() {
    let mut sh = session();
    for line in ["a", "b", "history -a f"] {
        sh.execute(line.to_string()).unwrap();
    }
    assert_eq!(stage("history -a f").request(&None), Request::Nothing);
    assert_eq!(
        run(&mut sh, "history -a f", nothing()),
        done(
            0,
            "",
            "",
            Effect::Append { file: "f".to_string(), text: "a\nb\nhistory -a f\n".to_string() }
        )
    );
    assert_eq!(sh.appended, 3);
    for line in ["c", "history -a f"] {
        sh.execute(line.to_string()).unwrap();
    }
    assert_eq!(
        run(&mut sh, "history -a f", nothing()),
        done(0, "", "", Effect::Append { file: "f".to_string(), text: "c\nhistory -a f\n".to_string() })
    );
    assert_eq!(sh.appended, 5);
    assert_eq!(sh.history.len(), 5);
}

#[test]
fn history_appends_nothing_when_nothing_is_new() {
    let mut sh = session();
    for line in ["a", "b"] {
        sh.execute(line.to_string()).unwrap();
    }
    assert_eq!(
        run(&mut sh, "history -a f", nothing()),
        done(0, "", "", Effect::Append { file: "f".to_string(), text: "a\nb\n".to_string() })
    );
    assert_eq!(run(&mut sh, "history -a f", nothing()), done(0, "", "", Effect::Nothing));
    assert_eq!(run(&mut sh, "history -a g", nothing()), done(0, "", "", Effect::Nothing));
    assert_eq!(sh.appended, 2);
    assert_eq!(sh.history, text(&["a", "b"]));
    let mut empty = session();
    assert_eq!(run(&mut empty, "history -a f", nothing()), done(0, "", "", Effect::Nothing));
    assert_eq!(empty.appended, 0);
}

#[test]
fn the_builtins_can_be_run_on_their_own() {
    let mut sh = session();
    for name in ["exit", "echo", "type", "pwd", "cd", "history"] {
        let said = format!("{} is a shell builtin\n", name);
        let line = format!("type {}", name);
        assert_eq!(stage(&line).cmd_type(None), done(0, &said, "", Effect::Nothing));
        assert_eq!(
            stage(&line).cmd_type(Some(format!("/bin/{}", name))),
            done(0, &said, "", Effect::Nothing)
        );
    }
    assert_eq!(
        stage("cd /nowhere").cd(&mut sh, None),
        done(1, "", "cd: /nowhere: No such file or directory\n", Effect::Nothing)
    );
    assert_eq!(sh.pwd, "/work");
    assert_eq!(stage("cd /etc/passwd").cd(&mut sh, None).result, ChildOrStatus::Status(1));
    assert_eq!(sh.pwd, "/work");
    assert_eq!(stage("cd x").cd(&mut sh, Some("/y".to_string())), done(0, "", "", Effect::Nothing));
    assert_eq!(sh.pwd, "/y");
    assert_eq!(stage("echo a b").echo(), done(0, "a b\n", "", Effect::Nothing));
    assert_eq!(stage("pwd").pwd(&"/p".to_string()), done(0, "/p\n", "", Effect::Nothing));
    assert_eq!(stage("history x").history(&mut sh, None).result, ChildOrStatus::Status(1));
    assert_eq!(stage("exit x").exit(&sh).result, ChildOrStatus::Status(1));
}

#[test]
fn history_writes_the_whole_log() {
    let mut sh = session();
    for line in ["a", "", "b c"] {
        sh.execute(line.to_string()).unwrap();
    }
    assert_eq!(
        run(&mut sh, "history -w out", nothing()),
        done(0, "", "", Effect::Write { file: "out".to_string(), text: "a\n\nb c\n".to_string() })
    );
    assert_eq!(sh.appended, 0);
}

#[test]
fn history_reads_a_file_into_the_log() {
    let mut sh = session();
    sh.execute("first".to_string()).unwrap();
    assert_eq!(stage("history -r f").request(&None), Request::Read("f".to_string()));
    assert_eq!(run(&mut sh, "history -r f", content(b"x\ny z\n")), done(0, "", "", Effect::Nothing));
    assert_eq!(sh.history, text(&["first", "x", "y z"]));
    assert_eq!(
        run(&mut sh, "history -r f", nothing()),
        done(1, "", "history: f: cannot read file\n", Effect::Nothing)
    );
    assert_eq!(sh.history, text(&["first", "x", "y z"]));
}

#[test]
fn history_with_an_unknown_flag_does_nothing() {
    let mut sh = session();
    sh.execute("a".to_string()).unwrap();
    assert_eq!(run(&mut sh, "history -x f", content(b"q\n")), done(0, "", "", Effect::Nothing));
    assert_eq!(run(&mut sh, "history 1 f", nothing()), done(0, "", "", Effect::Nothing));
    assert_eq!(sh.history, text(&["a"]));
    assert_eq!(sh.appended, 0);
}

#[test]
fn a_program_that_was_found_is_to_be_started() {
    let mut sh = session();
    let mut c = stage("ls -l /tmp 2> e");
    assert_eq!(c.request(&None), Request::Locate("ls".to_string()));
    assert_eq!(
        c.execute(&mut sh, path("/bin/ls")),
        Outcome {
            result: ChildOrStatus::Child {
                program: "/bin/ls".to_string(),
                args: text(&["ls", "-l", "/tmp"])
            },
            out: String::new(),
            err: String::new(),
            effect: Effect::Nothing,
            stdin: Input::Stdin,
            stdout: Output::Stdout,
            stderr: Output::File("e".to_string(), Mode::Truncate),
        }
    );
}

#[test]
fn a_program_that_was_not_found_fails_alone() {
    let mut sh = session();
    assert_eq!(
        run(&mut sh, "nope -x", nothing()),
        done(1, "", "nope: command not found\n", Effect::Nothing)
    );
    let mut stages = parse("nope | echo hi").unwrap();
    let first = stages[0].execute(&mut sh, nothing());
    let second = stages[1].execute(&mut sh, nothing());
    assert_eq!(first.result, ChildOrStatus::Status(1));
    assert_eq!(first.stdout, Output::Pipe(0));
    assert_eq!(second.result, ChildOrStatus::Status(0));
    assert_eq!(second.out, "hi\n");
    assert_eq!(second.stdin, Input::Pipe(0));
}

#[test]
fn wait_takes_the_code_of_a_program_and_the_status_of_a_builtin() {
    let child = ChildOrStatus::Child { program: "/bin/false".to_string(), args: text(&["false"]) };
    assert_eq!(child.clone().wait(Some(1)), 1);
    assert_eq!(child.clone().wait(Some(0)), 0);
    assert_eq!(child.clone().wait(Some(-7)), -7);
    assert_eq!(child.wait(None), 0);
    assert_eq!(ChildOrStatus::Status(5).wait(None), 5);
    assert_eq!(ChildOrStatus::Status(5).wait(Some(9)), 5);
}

#[test]
fn the_status_of_a_pipeline_is_that_of_its_last_stage() {
    let mut sh = session();
    let run_false = ChildOrStatus::Child { program: "/bin/false".to_string(), args: text(&["false"]) };
    let run_true = ChildOrStatus::Child { program: "/bin/true".to_string(), args: text(&["true"]) };
    let statuses = vec![run_false.clone().wait(Some(1)), run_true.clone().wait(Some(0))];
    assert_eq!(sh.finish(&statuses), 0);
    assert_eq!(sh.status_code, 0);
    let statuses = vec![run_true.wait(Some(0)), run_false.wait(Some(1))];
    assert_eq!(sh.finish(&statuses), 1);
    assert_eq!(sh.status_code, 1);
    assert_eq!(sh.finish(&vec![]), 1);
    assert_eq!(sh.status_code, 1);
}

#[test]
fn the_first_entry_of_the_name_wins() {
    let dirs = vec![
        vec![entry("/a", "x"), entry("/a", "ls")],
        vec![],
        vec![entry("/b", "ls"), entry("/b", "cat")],
    ];
    assert_eq!(locate(&"ls".to_string(), &dirs), Some("/a/ls".to_string()));
    assert_eq!(locate(&"cat".to_string(), &dirs), Some("/b/cat".to_string()));
    assert_eq!(locate(&"l".to_string(), &dirs), None);
    assert_eq!(locate(&"ls".to_string(), &vec![]), None);
}

#[test]
fn only_files_that_may_be_executed_are_kept() {
    let dirs = vec![
        vec![
            Entry { name: "sh".to_string(), path: "/bin/sh".to_string() },
            Entry { name: "nope".to_string(), path: "/bin/surely-not-there".to_string() },
        ],
        vec![Entry { name: "passwd".to_string(), path: "/etc/passwd".to_string() }],
    ];
    let kept = executables(&dirs);
    assert_eq!(kept.len(), 2);
    assert!(kept[0].iter().all(|e| dirs[0].contains(e)));
    assert!(kept[1].iter().all(|e| dirs[1].contains(e)));
    assert!(!kept[0].iter().any(|e| e.name == "nope"));
    let c = Command::new("x".to_string());
    assert_eq!(c.find_executable(&"nope".to_string(), &dirs), None);
    assert_eq!(c.find_executable(&"other".to_string(), &dirs), None);
    let found = c.find_executable(&"sh".to_string(), &dirs);
    assert!(found == None || found == Some("/bin/sh".to_string()));
}

#[test]
fn select_keeps_what_the_answers_say() {
    let dirs = vec![
        vec![entry("/a", "x"), entry("/a", "ls"), entry("/a", "y")],
        vec![entry("/b", "ls")],
        vec![entry("/c", "cat")],
    ];
    assert_eq!(
        select(&dirs, &vec![vec![true, false, true], vec![true], vec![false]]),
        vec![vec![entry("/a", "x"), entry("/a", "y")], vec![entry("/b", "ls")], vec![]]
    );
    assert_eq!(
        select(&dirs, &vec![vec![false, true], vec![]]),
        vec![vec![entry("/a", "ls")], vec![], vec![]]
    );
    assert_eq!(
        select(&dirs, &vec![vec![true, true, true, true], vec![true, true], vec![true], vec![true]]),
        dirs
    );
    let kept = select(&dirs, &vec![vec![false, false, true], vec![true], vec![true]]);
    assert_eq!(locate(&"ls".to_string(), &kept), Some("/b/ls".to_string()));
}
