//! Splits a raw input line into words, honouring quotes and backslashes,
//! and keeps of each word whether it was written bare.
use vstd::prelude::*;
use crate::text::{chars_of, joined, push_char};

verus! {

/// A word of a line.
#[derive(Clone, Debug, PartialEq, Eq)]
pub struct Token {
    /// What the word stands for, once quotes and backslashes are taken
    /// away.
    pub text: String,
    /// Whether the word was written bare: no part of it stood in quotes
    /// or behind a backslash. Only a bare word can be an operator.
    pub bare: bool,
}

/// A word as plain values.
pub struct Word {
    pub text: Seq<char>,
    pub bare: bool,
}

impl DeepView for Token {
    type V = Word;

    open spec fn deep_view(&self) -> Word {
        Word { text: self.text@, bare: self.bare }
    }
}

/// The words with the texts `ws`, each of them bare.
pub open spec fn bare_words(ws: Seq<Seq<char>>) -> Seq<Word> {
    Seq::new(ws.len(), |k: int| Word { text: ws[k], bare: true })
}

/// Unquoted, these characters separate words.
pub open spec fn is_space(c: char) -> bool {
    c == ' ' || c == '\t' || c == '\n' || c == '\r' || c == '\x0C'
}

/// Inside double quotes a backslash is special only before these.
pub open spec fn is_escapable(c: char) -> bool {
    c == '"' || c == '\\' || c == '`' || c == '$' || c == '\n'
}

/// Length of the single-quoted text that starts at `from`, if a closing
/// quote follows it.
pub open spec fn single_len(s: Seq<char>, from: int) -> Option<nat>
    decreases s.len() - from,
{
    if from < 0 || from >= s.len() {
        None
    } else if s[from] == '\'' {
        Some(0)
    } else {
        match single_len(s, from + 1) {
            Some(n) => Some(n + 1),
            None => None,
        }
    }
}

/// Length of the double-quoted text that starts at `from`, if a closing
/// quote follows it. A backslash before an escapable character hides it.
pub open spec fn double_len(s: Seq<char>, from: int) -> Option<nat>
    decreases s.len() - from,
{
    if from < 0 || from >= s.len() {
        None
    } else if s[from] == '"' {
        Some(0)
    } else if s[from] == '\\' && from + 1 < s.len() && is_escapable(s[from + 1]) {
        match double_len(s, from + 2) {
            Some(n) => Some(n + 2),
            None => None,
        }
    } else {
        match double_len(s, from + 1) {
            Some(n) => Some(n + 1),
            None => None,
        }
    }
}

/// What the double-quoted text `s[from..to]` stands for: a backslash before
/// an escapable character yields that character, everything else is literal.
pub open spec fn unescaped(s: Seq<char>, from: int, to: int) -> Seq<char>
    decreases to - from,
{
    if from < 0 || from >= to || to > s.len() {
        Seq::empty()
    } else if s[from] == '\\' && from + 1 < to && is_escapable(s[from + 1]) {
        seq![s[from + 1]] + unescaped(s, from + 2, to)
    } else {
        seq![s[from]] + unescaped(s, from + 1, to)
    }
}

/// The word under construction, if one has begun.
pub open spec fn pending(open: bool, cur: Seq<char>, bare: bool) -> Seq<Word> {
    if open {
        seq![Word { text: cur, bare }]
    } else {
        Seq::empty()
    }
}

/// The words of `s[i..]`, where `cur` is what the word at `i` holds so far,
/// `open` says whether that word has begun, and `bare` whether all of it
/// was written bare so far.
///
/// A quote mark without a partner and a backslash at the very end stand for
/// nothing: they neither begin nor end a word, and leave it bare.
pub open spec fn tokens_from(s: Seq<char>, i: int, open: bool, cur: Seq<char>, bare: bool) -> Seq<
    Word,
>
    decreases s.len() - i,
{
    if i < 0 || i >= s.len() {
        pending(open, cur, bare)
    } else if is_space(s[i]) {
        pending(open, cur, bare) + tokens_from(s, i + 1, false, Seq::empty(), true)
    } else if s[i] == '\'' {
        proof {
            single_len_fits(s, i + 1);
        }
        match single_len(s, i + 1) {
            Some(n) => tokens_from(s, i + 2 + n, true, cur + s.subrange(i + 1, i + 1 + n), false),
            None => tokens_from(s, i + 1, open, cur, bare),
        }
    } else if s[i] == '"' {
        proof {
            double_len_fits(s, i + 1);
        }
        match double_len(s, i + 1) {
            Some(n) => tokens_from(s, i + 2 + n, true, cur + unescaped(s, i + 1, i + 1 + n), false),
            None => tokens_from(s, i + 1, open, cur, bare),
        }
    } else if s[i] == '\\' {
        if i + 1 < s.len() {
            tokens_from(s, i + 2, true, cur.push(s[i + 1]), false)
        } else {
            tokens_from(s, i + 1, open, cur, bare)
        }
    } else {
        tokens_from(s, i + 1, true, cur.push(s[i]), bare)
    }
}

/// The words of the line `s`.
pub open spec fn tokens(s: Seq<char>) -> Seq<Word> {
    tokens_from(s, 0, false, Seq::empty(), true)
}

/// A character that stands for itself outside quotes.
pub open spec fn is_plain(c: char) -> bool {
    !is_space(c) && c != '\'' && c != '"' && c != '\\'
}

/// A line of white space alone has no words.
pub proof fn blank_line_has_no_words(s: Seq<char>)
    requires
        forall|i: int| 0 <= i < s.len() ==> is_space(#[trigger] s[i]),
    ensures
        tokens(s) == Seq::<Word>::empty(),
{
    blank_rest_has_no_words(s, 0);
}

proof fn blank_rest_has_no_words(s: Seq<char>, i: int)
    requires
        0 <= i,
        forall|k: int| i <= k < s.len() ==> is_space(#[trigger] s[k]),
    ensures
        tokens_from(s, i, false, Seq::empty(), true) == Seq::<Word>::empty(),
    decreases s.len() - i,
{
    if i < s.len() {
        assert(is_space(s[i]));
        blank_rest_has_no_words(s, i + 1);
    }
}

/// A line of plain characters is one word: itself, written bare.
pub proof fn plain_line_is_one_word(s: Seq<char>)
    requires
        s.len() > 0,
        forall|i: int| 0 <= i < s.len() ==> is_plain(#[trigger] s[i]),
    ensures
        tokens(s) == seq![Word { text: s, bare: true }],
{
    plain_rest_is_one_word(s, 0, false, Seq::empty(), true);
    assert(Seq::<char>::empty() + s.subrange(0, s.len() as int) == s);
}

proof fn plain_rest_is_one_word(s: Seq<char>, i: int, open: bool, cur: Seq<char>, bare: bool)
    requires
        0 <= i <= s.len(),
        open || i < s.len(),
        forall|k: int| i <= k < s.len() ==> is_plain(#[trigger] s[k]),
    ensures
        tokens_from(s, i, open, cur, bare) == seq![
            Word { text: cur + s.subrange(i, s.len() as int), bare },
        ],
    decreases s.len() - i,
{
    if i < s.len() {
        assert(is_plain(s[i]));
        plain_rest_is_one_word(s, i + 1, true, cur.push(s[i]), bare);
        assert(cur.push(s[i]) + s.subrange(i + 1, s.len() as int) == cur + s.subrange(
            i,
            s.len() as int,
        ));
    } else {
        assert(cur + s.subrange(i, s.len() as int) == cur);
    }
}

/// A text in single quotes is one word that holds the text as it stands,
/// whatever the text holds but a single quote, and the word is not bare.
pub proof fn single_quoted_text_is_literal(t: Seq<char>)
    requires
        forall|i: int| 0 <= i < t.len() ==> #[trigger] t[i] != '\'',
    ensures
        tokens(seq!['\''] + t + seq!['\'']) == seq![Word { text: t, bare: false }],
{
    let s = seq!['\''] + t + seq!['\''];
    quoted_text_ends_at_quote(t, 0);
    assert(s.subrange(1, 1 + t.len() as int) == t);
    assert(Seq::<char>::empty() + t == t);
    assert(tokens_from(s, 2 + t.len() as int, true, t, false) == seq![
        Word { text: t, bare: false },
    ]);
}

proof fn quoted_text_ends_at_quote(t: Seq<char>, k: int)
    requires
        0 <= k <= t.len(),
        forall|i: int| 0 <= i < t.len() ==> #[trigger] t[i] != '\'',
    ensures
        single_len(seq!['\''] + t + seq!['\''], 1 + k) == Some((t.len() - k) as nat),
    decreases t.len() - k,
{
    let s = seq!['\''] + t + seq!['\''];
    if k < t.len() {
        assert(s[1 + k] == t[k]);
        quoted_text_ends_at_quote(t, k + 1);
    } else {
        assert(s[1 + k] == '\'');
    }
}

/// Words of plain characters that were joined with single blanks come
/// apart again as they were, each of them bare.
pub proof fn joined_words_come_apart(ws: Seq<Seq<char>>)
    requires
        forall|k: int| 0 <= k < ws.len() ==> (#[trigger] ws[k]).len() > 0,
        forall|k: int, i: int|
            0 <= k < ws.len() && 0 <= i < ws[k].len() ==> is_plain(#[trigger] ws[k][i]),
    ensures
        tokens(joined(ws, " "@)) == bare_words(ws),
    decreases ws.len(),
{
    reveal_strlit(" ");
    assert(" "@ == seq![' ']);
    if ws.len() == 0 {
        assert(bare_words(ws) == Seq::<Word>::empty());
    } else if ws.len() == 1 {
        plain_line_is_one_word(ws[0]);
        assert(bare_words(ws) == seq![Word { text: ws[0], bare: true }]);
    } else {
        let head = ws.drop_last();
        let a = joined(head, seq![' ']);
        let b = ws.last();
        joined_words_come_apart(head);
        joined_words_are_simple(head);
        plain_line_is_one_word(b);
        assert forall|i: int| 0 <= i < b.len() implies is_simple(#[trigger] b[i]) by {
            assert(is_plain(ws[ws.len() - 1][i]));
        }
        blank_splits_simple_lines(a, b, 0, false, Seq::empty(), true);
        assert(bare_words(head) + seq![Word { text: b, bare: true }] == bare_words(ws));
    }
}

/// A plain character or a blank.
spec fn is_simple(c: char) -> bool {
    is_plain(c) || c == ' '
}

proof fn joined_words_are_simple(ws: Seq<Seq<char>>)
    requires
        forall|k: int, i: int|
            0 <= k < ws.len() && 0 <= i < ws[k].len() ==> is_plain(#[trigger] ws[k][i]),
    ensures
        forall|i: int|
            0 <= i < joined(ws, seq![' ']).len() ==> is_simple(#[trigger] joined(ws, seq![' '])[i]),
    decreases ws.len(),
{
    if ws.len() >= 2 {
        let head = ws.drop_last();
        joined_words_are_simple(head);
        let a = joined(head, seq![' ']);
        let s = joined(ws, seq![' ']);
        assert forall|i: int| 0 <= i < s.len() implies is_simple(#[trigger] s[i]) by {
            if i < a.len() {
                assert(s[i] == a[i]);
            } else if i > a.len() {
                assert(s[i] == ws[ws.len() - 1][i - a.len() - 1]);
            }
        }
    } else if ws.len() == 1 {
        assert forall|i: int| 0 <= i < ws[0].len() implies is_simple(#[trigger] ws[0][i]) by {
            assert(is_plain(ws[0][i]));
        }
    }
}

/// In a line of plain characters and blanks, what follows a text is read
/// as if it stood alone.
proof fn simple_rest_stands_alone(
    a: Seq<char>,
    b: Seq<char>,
    j: int,
    open: bool,
    cur: Seq<char>,
    bare: bool,
)
    requires
        0 <= j <= b.len(),
        forall|i: int| 0 <= i < b.len() ==> is_simple(#[trigger] b[i]),
    ensures
        tokens_from(a + b, a.len() + j, open, cur, bare) == tokens_from(b, j, open, cur, bare),
    decreases b.len() - j,
{
    if j < b.len() {
        assert((a + b)[a.len() + j] == b[j]);
        assert(is_simple(b[j]));
        if is_space(b[j]) {
            simple_rest_stands_alone(a, b, j + 1, false, Seq::empty(), true);
        } else {
            simple_rest_stands_alone(a, b, j + 1, true, cur.push(b[j]), bare);
        }
    }
}

/// A blank between two lines of plain characters and blanks splits the
/// words of the one from those of the other.
proof fn blank_splits_simple_lines(
    a: Seq<char>,
    b: Seq<char>,
    i: int,
    open: bool,
    cur: Seq<char>,
    bare: bool,
)
    requires
        0 <= i <= a.len(),
        forall|k: int| 0 <= k < a.len() ==> is_simple(#[trigger] a[k]),
        forall|k: int| 0 <= k < b.len() ==> is_simple(#[trigger] b[k]),
    ensures
        tokens_from(a + seq![' '] + b, i, open, cur, bare) == tokens_from(a, i, open, cur, bare)
            + tokens(b),
    decreases a.len() - i,
{
    let s = a + seq![' '] + b;
    if i < a.len() {
        assert(s[i] == a[i]);
        assert(is_simple(a[i]));
        if is_space(a[i]) {
            blank_splits_simple_lines(a, b, i + 1, false, Seq::empty(), true);
            assert(pending(open, cur, bare) + (tokens_from(a, i + 1, false, Seq::empty(), true)
                + tokens(b)) == (pending(open, cur, bare) + tokens_from(
                a,
                i + 1,
                false,
                Seq::empty(),
                true,
            )) + tokens(b));
        } else {
            blank_splits_simple_lines(a, b, i + 1, true, cur.push(a[i]), bare);
        }
    } else {
        assert(s[i] == ' ');
        simple_rest_stands_alone(a + seq![' '], b, 0, false, Seq::empty(), true);
    }
}

fn space(c: char) -> (b: bool)
    ensures
        b == is_space(c),
{
    c == ' ' || c == '\t' || c == '\n' || c == '\r' || c == '\x0C'
}

fn escapable(c: char) -> (b: bool)
    ensures
        b == is_escapable(c),
{
    c == '"' || c == '\\' || c == '`' || c == '$' || c == '\n'
}

/// The quote that closes a single-quoted text stands within the line.
pub proof fn single_len_fits(s: Seq<char>, from: int)
    requires
        0 <= from <= s.len(),
    ensures
        single_len(s, from) matches Some(n) ==> from + n < s.len(),
    decreases s.len() - from,
{
    if from < s.len() && s[from] != '\'' {
        single_len_fits(s, from + 1);
    }
}

/// The quote that closes a double-quoted text stands within the line.
pub proof fn double_len_fits(s: Seq<char>, from: int)
    requires
        0 <= from <= s.len(),
    ensures
        double_len(s, from) matches Some(n) ==> from + n < s.len(),
    decreases s.len() - from,
{
    if from < s.len() && s[from] != '"' {
        if s[from] == '\\' && from + 1 < s.len() && is_escapable(s[from + 1]) {
            double_len_fits(s, from + 2);
        } else {
            double_len_fits(s, from + 1);
        }
    }
}

/// Where the single quote that closes the text at `from` stands.
fn closing_single(s: &Vec<char>, from: usize) -> (r: Option<usize>)
    requires
        from <= s.len(),
    ensures
        match r {
            Some(j) => single_len(s@, from as int) == Some((j - from) as nat) && from <= j < s.len(),
            None => single_len(s@, from as int) is None,
        },
{
    let n = s.len();
    let mut j: usize = from;
    while j < n
        invariant
            n == s.len(),
            from <= j <= n,
            single_len(s@, from as int) == match single_len(s@, j as int) {
                Some(k) => Some((k + (j - from)) as nat),
                None => None,
            },
        decreases n - j,
    {
        if s[j] == '\'' {
            return Some(j);
        }
        j = j + 1;
    }
    None
}

/// Where the double quote that closes the text at `from` stands.
fn closing_double(s: &Vec<char>, from: usize) -> (r: Option<usize>)
    requires
        from <= s.len(),
    ensures
        match r {
            Some(j) => double_len(s@, from as int) == Some((j - from) as nat) && from <= j < s.len(),
            None => double_len(s@, from as int) is None,
        },
{
    let n = s.len();
    let mut j: usize = from;
    while j < n
        invariant
            n == s.len(),
            from <= j <= n,
            double_len(s@, from as int) == match double_len(s@, j as int) {
                Some(k) => Some((k + (j - from)) as nat),
                None => None,
            },
        decreases n - j,
    {
        if s[j] == '"' {
            return Some(j);
        }
        if s[j] == '\\' && j + 1 < n && escapable(s[j + 1]) {
            j = j + 2;
        } else {
            j = j + 1;
        }
    }
    None
}

/// Appends to `cur` what the double-quoted text `s[from..to]` stands for.
fn push_unescaped(cur: &mut String, s: &Vec<char>, from: usize, to: usize)
    requires
        from <= to <= s.len(),
    ensures
        final(cur)@ == old(cur)@ + unescaped(s@, from as int, to as int),
{
    let mut j: usize = from;
    while j < to
        invariant
            from <= j <= to <= s.len(),
            cur@ + unescaped(s@, j as int, to as int) == old(cur)@ + unescaped(
                s@,
                from as int,
                to as int,
            ),
        decreases to - j,
    {
        if s[j] == '\\' && j + 1 < to && escapable(s[j + 1]) {
            push_char(cur, s[j + 1]);
            j = j + 2;
        } else {
            push_char(cur, s[j]);
            j = j + 1;
        }
    }
}

/// Appends the characters `s[from..to]` to `cur`.
fn push_range(cur: &mut String, s: &Vec<char>, from: usize, to: usize)
    requires
        from <= to <= s.len(),
    ensures
        final(cur)@ == old(cur)@ + s@.subrange(from as int, to as int),
{
    let mut j: usize = from;
    while j < to
        invariant
            from <= j <= to <= s.len(),
            cur@ == old(cur)@ + s@.subrange(from as int, j as int),
        decreases to - j,
    {
        push_char(cur, s[j]);
        j = j + 1;
    }
}

/// Splits `line` into its words.
///
/// Unquoted white space separates words and is dropped; an unquoted
/// backslash makes the next character literal; text in single quotes is
/// taken as it stands; in double quotes a backslash is special only before
/// `"`, `\`, `` ` ``, `$` and a line feed. Pieces that touch form one word,
/// which is bare only if all its pieces are.
pub fn tokenize(line: &str) -> (r: Vec<Token>)
    ensures
        r.deep_view() == tokens(line@),
{
    let s = chars_of(line);
    let n = s.len();
    let mut out: Vec<Token> = Vec::new();
    let mut cur = String::new();
    let mut open = false;
    let mut bare = true;
    let mut i: usize = 0;
    while i < n
        invariant
            n == s.len(),
            s@ == line@,
            i <= n,
            !open ==> cur@ == Seq::<char>::empty() && bare,
            out.deep_view() + tokens_from(s@, i as int, open, cur@, bare) == tokens(line@),
        decreases n - i,
    {
        let c = s[i];
        if space(c) {
            if open {
                let ghost before = out.deep_view();
                out.push(Token { text: cur, bare });
                assert(out.deep_view() == before + pending(true, out[out.len() - 1].text@, bare));
                cur = String::new();
                open = false;
                bare = true;
            }
            i = i + 1;
        } else if c == '\'' {
            match closing_single(&s, i + 1) {
                Some(j) => {
                    push_range(&mut cur, &s, i + 1, j);
                    open = true;
                    bare = false;
                    i = j + 1;
                },
                None => {
                    i = i + 1;
                },
            }
        } else if c == '"' {
            match closing_double(&s, i + 1) {
                Some(j) => {
                    push_unescaped(&mut cur, &s, i + 1, j);
                    open = true;
                    bare = false;
                    i = j + 1;
                },
                None => {
                    i = i + 1;
                },
            }
        } else if c == '\\' {
            if i + 1 < n {
                push_char(&mut cur, s[i + 1]);
                open = true;
                bare = false;
                i = i + 2;
            } else {
                i = i + 1;
            }
        } else {
            push_char(&mut cur, c);
            open = true;
            i = i + 1;
        }
    }
    if open {
        let ghost before = out.deep_view();
        out.push(Token { text: cur, bare });
        assert(out.deep_view() == before + pending(true, out[out.len() - 1].text@, bare));
    }
    out
}

} // verus!
