use shell_core::command::Command;
use shell_core::pipeline::{build, parse, SyntaxDefect};
use shell_core::shell_io::{Input, Mode, Output};
use shell_core::tokenizer::Token;

fn text(words: &[&str]) -> Vec<String> {
    words.iter().map(|w| w.to_string()).collect()
}

fn bare(words: &[&str]) -> Vec<Token> {
    words.iter().map(|w| Token { text: w.to_string(), bare: true }).collect()
}

fn stage(args: &[&str], stdin: Input, stdout: Output, stderr: Output) -> Command {
    Command { name: args[0].to_string(), args: text(args), stdin, stdout, stderr }
}

#[test]
fn a_line_without_words_has_no_stage() {
    assert_eq!(parse(""), Ok(vec![]));
    assert_eq!(parse("   "), Ok(vec![]));
    assert_eq!(build(vec![]), Ok(vec![]));
}

#[test]
fn a_plain_command_is_one_stage_on_the_own_streams() {
    assert_eq!(
        parse("echo hello world"),
        Ok(vec![stage(&["echo", "hello", "world"], Input::Stdin, Output::Stdout, Output::Stderr)])
    );
}

#[test]
fn stdout_redirection_truncates_or_appends() {
    for op in [">", "1>"] {
        assert_eq!(
            parse(&format!("echo hi {} f", op)),
            Ok(vec![stage(
                &["echo", "hi"],
                Input::Stdin,
                Output::File("f".to_string(), Mode::Truncate),
                Output::Stderr
            )])
        );
    }
    for op in [">>", "1>>"] {
        assert_eq!(
            parse(&format!("echo hi {} f", op)),
            Ok(vec![stage(
                &["echo", "hi"],
                Input::Stdin,
                Output::File("f".to_string(), Mode::Append),
                Output::Stderr
            )])
        );
    }
}

#[test]
fn stderr_redirection_truncates_or_appends() {
    assert_eq!(
        parse("ls nowhere 2> err"),
        Ok(vec![stage(
            &["ls", "nowhere"],
            Input::Stdin,
            Output::Stdout,
            Output::File("err".to_string(), Mode::Truncate)
        )])
    );
    assert_eq!(
        parse("ls nowhere 2>> err"),
        Ok(vec![stage(
            &["ls", "nowhere"],
            Input::Stdin,
            Output::Stdout,
            Output::File("err".to_string(), Mode::Append)
        )])
    );
}

#[test]
fn words_after_a_redirection_stay_arguments() {
    assert_eq!(
        parse("echo a > f b 2> g c"),
        Ok(vec![stage(
            &["echo", "a", "b", "c"],
            Input::Stdin,
            Output::File("f".to_string(), Mode::Truncate),
            Output::File("g".to_string(), Mode::Truncate)
        )])
    );
}

#[test]
fn the_first_redirection_of_a_stream_wins() {
    assert_eq!(
        parse("echo a > f >> g 2>> h 2> i"),
        Ok(vec![stage(
            &["echo", "a"],
            Input::Stdin,
            Output::File("f".to_string(), Mode::Truncate),
            Output::File("h".to_string(), Mode::Append)
        )])
    );
}

#[test]
fn the_word_after_an_operator_is_its_target_whatever_it_is() {
    assert_eq!(
        parse("echo > 2> x"),
        Ok(vec![stage(
            &["echo", "x"],
            Input::Stdin,
            Output::File("2>".to_string(), Mode::Truncate),
            Output::Stderr
        )])
    );
}

#[test]
fn neighbours_share_one_pipe() {
    assert_eq!(
        parse("cat f | grep x | wc -l"),
        Ok(vec![
            stage(&["cat", "f"], Input::Stdin, Output::Pipe(0), Output::Stderr),
            stage(&["grep", "x"], Input::Pipe(0), Output::Pipe(1), Output::Stderr),
            stage(&["wc", "-l"], Input::Pipe(1), Output::Stdout, Output::Stderr),
        ])
    );
}

#[test]
fn only_the_last_stage_carries_redirections() {
    assert_eq!(
        parse("a > x 2> y | b >> z 2>> w"),
        Ok(vec![
            stage(&["a"], Input::Stdin, Output::Pipe(0), Output::Stderr),
            stage(
                &["b"],
                Input::Pipe(0),
                Output::File("z".to_string(), Mode::Append),
                Output::File("w".to_string(), Mode::Append)
            ),
        ])
    );
}

#[test]
fn an_empty_segment_fails_the_line() {
    for line in ["| a", "a |", "a | | b", "|", "a | > f", "> f", "'' x", "a | '' | b"] {
        assert_eq!(parse(line), Err(SyntaxDefect::EmptySegment), "{}", line);
    }
}

#[test]
fn an_operator_without_target_fails_the_line() {
    for line in ["echo >", "echo a 2>>", "a 1> | b", ">", "a > f >>", "| a >", "a | 2>"] {
        assert_eq!(parse(line), Err(SyntaxDefect::MissingTarget), "{}", line);
    }
}

#[test]
fn operators_inside_words_are_plain_characters() {
    assert_eq!(
        parse("echo a>b c|d"),
        Ok(vec![stage(&["echo", "a>b", "c|d"], Input::Stdin, Output::Stdout, Output::Stderr)])
    );
}

#[test]
fn build_takes_the_words_as_they_are() {
    assert_eq!(
        build(bare(&["echo", "a b", "|", "cat"])),
        Ok(vec![
            stage(&["echo", "a b"], Input::Stdin, Output::Pipe(0), Output::Stderr),
            stage(&["cat"], Input::Pipe(0), Output::Stdout, Output::Stderr),
        ])
    );
}

#[test]
fn a_quoted_operator_is_a_plain_word() {
    let own = |args: &[&str]| Ok(vec![stage(args, Input::Stdin, Output::Stdout, Output::Stderr)]);
    assert_eq!(parse("echo '|'"), own(&["echo", "|"]));
    assert_eq!(parse("echo a \"|\" b"), own(&["echo", "a", "|", "b"]));
    assert_eq!(parse("echo \\| cat"), own(&["echo", "|", "cat"]));
    assert_eq!(parse("echo '>' f"), own(&["echo", ">", "f"]));
    assert_eq!(parse("echo \">>\" f"), own(&["echo", ">>", "f"]));
    assert_eq!(parse("echo 2\\> f"), own(&["echo", "2>", "f"]));
    assert_eq!(parse("echo '1>'"), own(&["echo", "1>"]));
    assert_eq!(parse("'|'"), own(&["|"]));
    assert_eq!(parse("echo \\>"), own(&["echo", ">"]));
}

#[test]
fn the_target_of_an_operator_may_be_quoted() {
    assert_eq!(
        parse("echo hi > '>' 2> \"a b\""),
        Ok(vec![stage(
            &["echo", "hi"],
            Input::Stdin,
            Output::File(">".to_string(), Mode::Truncate),
            Output::File("a b".to_string(), Mode::Truncate)
        )])
    );
    assert_eq!(
        parse("echo hi '|' cat | wc"),
        Ok(vec![
            stage(&["echo", "hi", "|", "cat"], Input::Stdin, Output::Pipe(0), Output::Stderr),
            stage(&["wc"], Input::Pipe(0), Output::Stdout, Output::Stderr),
        ])
    );
}

#[test]
fn build_tells_operators_by_the_mark_on_the_word() {
    let quoted = |w: &str| Token { text: w.to_string(), bare: false };
    let mut words = bare(&["echo"]);
    words.push(quoted("|"));
    words.push(quoted(">"));
    assert_eq!(
        build(words),
        Ok(vec![stage(&["echo", "|", ">"], Input::Stdin, Output::Stdout, Output::Stderr)])
    );
    assert_eq!(build(bare(&["echo", "|"])), Err(SyntaxDefect::EmptySegment));
    assert_eq!(build(bare(&["echo", ">"])), Err(SyntaxDefect::MissingTarget));
}
