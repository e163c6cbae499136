use shell_core::tokenizer::{tokenize, Token};

fn words(line: &str) -> Vec<String> {
    tokenize(line).into_iter().map(|t| t.text).collect()
}

fn bare(line: &str) -> Vec<bool> {
    tokenize(line).into_iter().map(|t| t.bare).collect()
}

#[test]
fn quoted_words_keep_their_blanks() {
    assert_eq!(words("echo 'a b' \"c\\\"d\""), vec!["echo", "a b", "c\"d"]);
}

#[test]
fn blank_lines_have_no_words() {
    assert_eq!(words(""), Vec::<String>::new());
    assert_eq!(words("   \t  "), Vec::<String>::new());
}

#[test]
fn touching_pieces_form_one_word() {
    assert_eq!(words("fo\"o\"bar"), vec!["foobar"]);
    assert_eq!(words("a'b c'\"d e\"f"), vec!["ab cd ef"]);
}

#[test]
fn unquoted_backslash_escapes_the_next_character() {
    assert_eq!(words("a\\ b c"), vec!["a b", "c"]);
    assert_eq!(words("\\'x\\'"), vec!["'x'"]);
    assert_eq!(words("a\\\\b"), vec!["a\\b"]);
}

#[test]
fn single_quotes_are_literal() {
    assert_eq!(words("'a\\nb' 'c\"d' '$x\\'"), vec!["a\\nb", "c\"d", "$x\\"]);
}

#[test]
fn double_quotes_escape_only_a_few() {
    assert_eq!(words("\"a\\\\b\""), vec!["a\\b"]);
    assert_eq!(words("\"a\\$b\\`c\""), vec!["a$b`c"]);
    assert_eq!(words("\"a\\nb\\'c\""), vec!["a\\nb\\'c"]);
    assert_eq!(words("\"a\\\nb\""), vec!["a\nb"]);
}

#[test]
fn empty_quotes_make_an_empty_word() {
    assert_eq!(words("echo '' x"), vec!["echo", "", "x"]);
    assert_eq!(words("\"\""), vec![""]);
}

#[test]
fn white_space_of_every_kind_separates() {
    assert_eq!(words("a\tb\nc\rd\x0Ce  f"), vec!["a", "b", "c", "d", "e", "f"]);
}

#[test]
fn lone_marks_stand_for_nothing() {
    assert_eq!(words("echo 'abc"), vec!["echo", "abc"]);
    assert_eq!(words("echo \"a b"), vec!["echo", "a", "b"]);
    assert_eq!(words("abc\\"), vec!["abc"]);
    assert_eq!(words("\\"), Vec::<String>::new());
}

#[test]
fn operators_are_words_of_their_own_only_between_blanks() {
    assert_eq!(words("a | b > c 2>> d"), vec!["a", "|", "b", ">", "c", "2>>", "d"]);
    assert_eq!(words("a|b>c"), vec!["a|b>c"]);
}

#[test]
fn joined_plain_words_come_apart() {
    let all = vec!["echo", "-n", "a=b", "x>y", "|x", "#", "caf\u{e9}"];
    for n in 0..=all.len() {
        let given: Vec<String> = all[..n].iter().map(|w| w.to_string()).collect();
        assert_eq!(words(&given.join(" ")), given);
    }
}

#[test]
fn a_word_is_bare_only_if_all_of_it_is() {
    assert_eq!(bare("echo | > 2>> x"), vec![true, true, true, true, true]);
    assert_eq!(bare("'|' \"|\" \\| a'|'"), vec![false, false, false, false]);
    assert_eq!(words("'|' \"|\" \\| a'|'"), vec!["|", "|", "|", "a|"]);
    assert_eq!(bare("'>' \">>\" 2\\> '1'>"), vec![false, false, false, false]);
    assert_eq!(words("'>' \">>\" 2\\> '1'>"), vec![">", ">>", "2>", "1>"]);
    assert_eq!(bare("'' x ''y"), vec![false, true, false]);
    assert_eq!(bare("a 'b' c"), vec![true, false, true]);
}

#[test]
fn lone_marks_leave_a_word_bare() {
    assert_eq!(tokenize("'| x"), vec![
        Token { text: "|".to_string(), bare: true },
        Token { text: "x".to_string(), bare: true },
    ]);
    assert_eq!(tokenize(">\\"), vec![Token { text: ">".to_string(), bare: true }]);
}

#[test]
fn single_quoted_text_is_taken_as_it_stands() {
    for t in ["", "a b", "\\n", "$x `y` \"z\"", "|", "  "] {
        assert_eq!(
            tokenize(&format!("'{}'", t)),
            vec![Token { text: t.to_string(), bare: false }]
        );
    }
}
