//! The state of a session, with its history.
use vstd::prelude::*;
use vstd::string::StringExecFns;
use vstd::utf8::{decode_utf8, valid_utf8};
use crate::command::Command;
use crate::pipeline::{defect, is_pipeline, parse, well_formed, SyntaxDefect};
use crate::text::{chars_of, decode, join, joined, lossy_text, string_of};
use crate::tokenizer::tokens;

verus! {

/// What a session holds.
pub struct Shell {
    /// The status of the last pipeline that ran.
    pub status_code: i32,
    /// The directories that are searched for programs, in order.
    pub path: Vec<String>,
    /// The working directory.
    pub pwd: String,
    /// The file that the history is saved to at exit.
    pub hist_file: String,
    /// The lines entered so far, oldest first.
    pub history: Vec<String>,
    /// How many lines of the history were already appended to a file.
    pub appended: usize,
}

/// A session as plain values.
pub struct Session {
    pub status: i32,
    pub path: Seq<Seq<char>>,
    pub pwd: Seq<char>,
    pub hist_file: Seq<char>,
    pub history: Seq<Seq<char>>,
    pub appended: nat,
}

impl View for Shell {
    type V = Session;

    open spec fn view(&self) -> Session {
        Session {
            status: self.status_code,
            path: self.path.deep_view(),
            pwd: self.pwd@,
            hist_file: self.hist_file@,
            history: self.history.deep_view(),
            appended: self.appended as nat,
        }
    }
}

/// The text of a history file that holds `lines`: the lines with a line
/// feed between each two, and one at the end.
pub open spec fn file_text(lines: Seq<Seq<char>>) -> Seq<char> {
    joined(lines, "\n"@) + "\n"@
}

/// The text that is added to a history file for the lines `lines`: none
/// where there is no line, so that the file stays as it was.
pub open spec fn appended_text(lines: Seq<Seq<char>>) -> Seq<char> {
    if lines.len() == 0 {
        Seq::empty()
    } else {
        file_text(lines)
    }
}

/// White space as Unicode defines it.
pub open spec fn is_white(c: char) -> bool {
    ||| '\u{9}' <= c <= '\u{d}'
    ||| c == ' '
    ||| c == '\u{85}'
    ||| c == '\u{a0}'
    ||| c == '\u{1680}'
    ||| '\u{2000}' <= c <= '\u{200a}'
    ||| c == '\u{2028}'
    ||| c == '\u{2029}'
    ||| c == '\u{202f}'
    ||| c == '\u{205f}'
    ||| c == '\u{3000}'
}

/// How many characters of white space stand at `i` and after.
pub open spec fn white_after(s: Seq<char>, i: int) -> nat
    decreases s.len() - i,
{
    if i < 0 || i >= s.len() || !is_white(s[i]) {
        0
    } else {
        1 + white_after(s, i + 1)
    }
}

/// How many characters of white space stand before `i`.
pub open spec fn white_before(s: Seq<char>, i: int) -> nat
    decreases i,
{
    if i <= 0 || i > s.len() || !is_white(s[i - 1]) {
        0
    } else {
        1 + white_before(s, i - 1)
    }
}

/// How many characters stand at `i` before the next line feed or `end`.
pub open spec fn line_len(s: Seq<char>, i: int, end: int) -> nat
    decreases end - i,
{
    if i < 0 || i >= end || end > s.len() || s[i] == '\n' {
        0
    } else {
        1 + line_len(s, i + 1, end)
    }
}

/// The lines of `s[i..end]` that are not empty.
pub open spec fn lines_between(s: Seq<char>, i: int, end: int) -> Seq<Seq<char>>
    decreases end - i,
{
    if i < 0 || i >= end || end > s.len() {
        Seq::empty()
    } else {
        let n = line_len(s, i, end) as int;
        let rest = if i + n >= end {
            Seq::empty()
        } else {
            lines_between(s, i + n + 1, end)
        };
        if n > 0 {
            seq![s.subrange(i, i + n)] + rest
        } else {
            rest
        }
    }
}

/// The lines that a history file with the text `s` holds: the text
/// without the white space at its two ends is split at the line feeds, and
/// empty lines are left out.
pub open spec fn history_lines(s: Seq<char>) -> Seq<Seq<char>> {
    let start = white_after(s, 0) as int;
    lines_between(s, start, s.len() - white_before(s, s.len() as int))
}

/// Whether a line can be kept in a history file: it is not empty and
/// holds no line feed.
pub open spec fn storable(line: Seq<char>) -> bool {
    line.len() > 0 && forall|i: int| 0 <= i < line.len() ==> #[trigger] line[i] != '\n'
}

/// A history that was written to a file reads back as it was, as long as
/// its lines can be kept and it neither begins nor ends with white space.
pub proof fn history_reads_back(lines: Seq<Seq<char>>)
    requires
        forall|k: int| 0 <= k < lines.len() ==> storable(#[trigger] lines[k]),
        lines.len() > 0 ==> !is_white(lines.first().first()) && !is_white(lines.last().last()),
    ensures
        history_lines(file_text(lines)) == lines,
{
    reveal_strlit("\n");
    assert("\n"@ == seq!['\n']);
    let body = joined(lines, seq!['\n']);
    let text = file_text(lines);
    let n = body.len() as int;
    if lines.len() == 0 {
        assert(white_after(text, 1) == 0);
    } else {
        joined_lines_read_back(lines);
        joined_ends(lines);
        assert(white_before(text, n) == 0);
        same_lines(text, body, 0, n);
    }
}

/// The joined lines begin as the first line begins and end as the last
/// one ends.
proof fn joined_ends(lines: Seq<Seq<char>>)
    requires
        lines.len() > 0,
        forall|k: int| 0 <= k < lines.len() ==> storable(#[trigger] lines[k]),
    ensures
        joined(lines, seq!['\n']).len() > 0,
        joined(lines, seq!['\n']).first() == lines.first().first(),
        joined(lines, seq!['\n']).last() == lines.last().last(),
    decreases lines.len(),
{
    if lines.len() >= 2 {
        joined_ends(lines.drop_last());
    }
}

/// Lines that can be kept, joined by line feeds, are read as they were.
proof fn joined_lines_read_back(lines: Seq<Seq<char>>)
    requires
        lines.len() > 0,
        forall|k: int| 0 <= k < lines.len() ==> storable(#[trigger] lines[k]),
    ensures
        lines_between(
            joined(lines, seq!['\n']),
            0,
            joined(lines, seq!['\n']).len() as int,
        ) == lines,
    decreases lines.len(),
{
    let last = lines.last();
    if lines.len() == 1 {
        whole_line(last, 0);
        assert(last.subrange(0, last.len() as int) == last);
    } else {
        let head = lines.drop_last();
        joined_lines_read_back(head);
        one_more_line(joined(head, seq!['\n']), last, 0);
    }
}

/// The lines of a text are those of any text that begins with it, read
/// up to its end.
proof fn same_lines(s: Seq<char>, t: Seq<char>, i: int, end: int)
    requires
        0 <= i <= end,
        end == t.len(),
        end <= s.len(),
        forall|k: int| 0 <= k < end ==> s[k] == t[k],
    ensures
        lines_between(s, i, end) == lines_between(t, i, end),
    decreases end - i,
{
    if i < end {
        same_line_len(s, t, i, end);
        let n = line_len(s, i, end) as int;
        line_len_fits(s, i, end);
        assert(s.subrange(i, i + n) == t.subrange(i, i + n));
        if i + n < end {
            same_lines(s, t, i + n + 1, end);
        }
    }
}

proof fn same_line_len(s: Seq<char>, t: Seq<char>, i: int, end: int)
    requires
        0 <= i <= end,
        end <= t.len(),
        end <= s.len(),
        forall|k: int| 0 <= k < end ==> s[k] == t[k],
    ensures
        line_len(s, i, end) == line_len(t, i, end),
    decreases end - i,
{
    if i < end && s[i] != '\n' {
        same_line_len(s, t, i + 1, end);
    }
}

proof fn line_len_fits(s: Seq<char>, i: int, end: int)
    requires
        0 <= i <= end <= s.len(),
    ensures
        i + line_len(s, i, end) <= end,
    decreases end - i,
{
    if i < end && s[i] != '\n' {
        line_len_fits(s, i + 1, end);
    }
}

/// A line that can be kept is one line.
proof fn whole_line(b: Seq<char>, i: int)
    requires
        0 <= i <= b.len(),
        storable(b),
    ensures
        line_len(b, i, b.len() as int) == b.len() - i,
    decreases b.len() - i,
{
    if i < b.len() {
        whole_line(b, i + 1);
    }
}

/// The line at `i` is as long in `a` as it is where a line feed and more
/// follow `a`.
proof fn line_len_before_feed(a: Seq<char>, b: Seq<char>, i: int)
    requires
        0 <= i <= a.len(),
    ensures
        line_len(a + seq!['\n'] + b, i, (a.len() + 1 + b.len()) as int) == line_len(a, i, a.len() as int),
    decreases a.len() - i,
{
    if i < a.len() && a[i] != '\n' {
        line_len_before_feed(a, b, i + 1);
    }
}

/// What follows the line feed after `a` is the one line `b`.
proof fn last_line(a: Seq<char>, b: Seq<char>)
    requires
        storable(b),
    ensures
        lines_between(a + seq!['\n'] + b, (a.len() + 1) as int, (a.len() + 1 + b.len()) as int) == seq![b],
{
    let j = a + seq!['\n'] + b;
    let from = (a.len() + 1) as int;
    let end = j.len() as int;
    last_line_len(a, b, 0);
    assert(j.subrange(from, end) == b);
}

proof fn last_line_len(a: Seq<char>, b: Seq<char>, k: int)
    requires
        0 <= k <= b.len(),
        storable(b),
    ensures
        line_len(a + seq!['\n'] + b, (a.len() + 1 + k) as int, (a.len() + 1 + b.len()) as int) == b.len() - k,
    decreases b.len() - k,
{
    if k < b.len() {
        last_line_len(a, b, k + 1);
    }
}

/// Where a line feed and a line that can be kept follow a text, the
/// lines are those of the text and that line.
proof fn one_more_line(a: Seq<char>, b: Seq<char>, i: int)
    requires
        0 <= i <= a.len(),
        storable(b),
    ensures
        lines_between(a + seq!['\n'] + b, i, (a.len() + 1 + b.len()) as int) == lines_between(
            a,
            i,
            a.len() as int,
        ) + seq![b],
    decreases a.len() - i,
{
    let j = a + seq!['\n'] + b;
    line_len_before_feed(a, b, i);
    line_len_fits(a, i, a.len() as int);
    let n = line_len(a, i, a.len() as int) as int;
    let line = a.subrange(i, i + n);
    assert(j.subrange(i, i + n) == line);
    if i + n < a.len() {
        one_more_line(a, b, i + n + 1);
    } else {
        last_line(a, b);
    }
}

fn white(c: char) -> (b: bool)
    ensures
        b == is_white(c),
{
    ('\u{9}' <= c && c <= '\u{d}') || c == ' ' || c == '\u{85}' || c == '\u{a0}' || c == '\u{1680}'
        || ('\u{2000}' <= c && c <= '\u{200a}') || c == '\u{2028}' || c == '\u{2029}' || c
        == '\u{202f}' || c == '\u{205f}' || c == '\u{3000}'
}

impl Shell {
    /// What holds of every session: no more lines were appended to a file
    /// than there are.
    pub open spec fn wf(&self) -> bool {
        self.appended <= self.history@.len()
    }

    /// A session that starts in `pwd`, with an empty history.
    pub fn new(path: Vec<String>, pwd: String, hist_file: String) -> (s: Shell)
        ensures
            s.wf(),
            s@ == (Session {
                status: 0,
                path: path.deep_view(),
                pwd: pwd@,
                hist_file: hist_file@,
                history: Seq::empty(),
                appended: 0,
            }),
    {
        let s = Shell { status_code: 0, path, pwd, hist_file, history: Vec::new(), appended: 0 };
        assert(s.history.deep_view() == Seq::<Seq<char>>::empty());
        s
    }

    /// Takes a line in: it joins the history, whatever it holds, and its
    /// stages are handed back to be run.
    pub fn execute(&mut self, input: String) -> (r: Result<Vec<Command>, SyntaxDefect>)
        requires
            old(self).wf(),
        ensures
            final(self).wf(),
            final(self)@ == (Session { history: old(self)@.history.push(input@), ..old(self)@ }),
            match r {
                Ok(p) => defect(tokens(input@)) is None && is_pipeline(p@, tokens(input@))
                    && well_formed(p@),
                Err(d) => defect(tokens(input@)) == Some(d),
            },
    {
        let r = parse(input.as_str());
        let ghost before = self.history.deep_view();
        self.history.push(input);
        assert(self.history.deep_view() == before.push(input@));
        r
    }

    /// Records how a pipeline ended: its status is that of its last stage.
    /// Where no stage ran, the status stays.
    pub fn finish(&mut self, statuses: &Vec<i32>) -> (status: i32)
        ensures
            status == (if statuses@.len() > 0 {
                statuses@.last()
            } else {
                old(self).status_code
            }),
            final(self)@ == (Session { status, ..old(self)@ }),
            old(self).wf() ==> final(self).wf(),
    {
        if statuses.len() > 0 {
            self.status_code = statuses[statuses.len() - 1];
        }
        self.status_code
    }

    /// Adds the lines of a history file with the text `text` to the
    /// history.
    pub fn merge_history(&mut self, text: &str)
        ensures
            final(self)@ == (Session {
                history: old(self)@.history + history_lines(text@),
                ..old(self)@
            }),
            old(self).wf() ==> final(self).wf(),
    {
        let s = chars_of(text);
        let n = s.len();
        let mut start: usize = 0;
        while start < n && white(s[start])
            invariant
                n == s.len(),
                start <= n,
                white_after(s@, 0) == start + white_after(s@, start as int),
            decreases n - start,
        {
            start = start + 1;
        }
        let mut end: usize = n;
        while end > start && white(s[end - 1])
            invariant
                n == s.len(),
                start <= end <= n,
                start < n ==> !is_white(s@[start as int]) && start < end,
                white_before(s@, n as int) == (n - end) + white_before(s@, end as int),
            decreases end,
        {
            end = end - 1;
        }
        let ghost before = self.history.deep_view();
        let ghost all = history_lines(s@);
        let mut i: usize = start;
        while i < end
            invariant
                start <= i,
                end <= s.len(),
                all == history_lines(s@),
                self.history.deep_view() + lines_between(s@, i as int, end as int) == before + all,
                self.status_code == old(self).status_code,
                self.path == old(self).path,
                self.pwd == old(self).pwd,
                self.hist_file == old(self).hist_file,
                self.appended == old(self).appended,
                self.history@.len() >= old(self).history@.len(),
            decreases end + 1 - i,
        {
            let mut j: usize = i;
            while j < end && s[j] != '\n'
                invariant
                    i <= j <= end <= s.len(),
                    i + line_len(s@, i as int, end as int) == j + line_len(s@, j as int, end as int),
                decreases end - j,
            {
                j = j + 1;
            }
            if j > i {
                self.history.push(string_of(&s, i, j));
            }
            if j >= end {
                i = end;
            } else {
                i = j + 1;
            }
        }
    }

    /// Adds the lines of a history file with the content `bytes`, read as
    /// UTF-8 with a replacement for what is not valid, to the history.
    pub fn read_history(&mut self, bytes: &Vec<u8>)
        ensures
            final(self)@ == (Session {
                history: old(self)@.history + history_lines(lossy_text(bytes@)),
                ..old(self)@
            }),
            valid_utf8(bytes@) ==> final(self)@.history == old(self)@.history + history_lines(
                decode_utf8(bytes@),
            ),
            old(self).wf() ==> final(self).wf(),
    {
        let text = decode(bytes);
        self.merge_history(text.as_str());
    }

    /// The text of a history file that holds the whole history.
    pub fn write_history(&self) -> (text: String)
        ensures
            text@ == file_text(self@.history),
    {
        assert(self.history.deep_view().skip(0) == self.history.deep_view());
        join(&self.history, 0, "\n").concat("\n")
    }

    /// The text to append to a history file: the lines entered since the
    /// last such call, and nothing where none was entered. They count as
    /// appended from now on.
    pub fn append_history(&mut self) -> (text: String)
        requires
            old(self).wf(),
        ensures
            final(self).wf(),
            text@ == appended_text(old(self)@.history.skip(old(self)@.appended as int)),
            final(self)@ == (Session {
                appended: old(self)@.history.len(),
                ..old(self)@
            }),
    {
        if self.appended == self.history.len() {
            return String::new();
        }
        let text = join(&self.history, self.appended, "\n").concat("\n");
        self.appended = self.history.len();
        text
    }
}

impl Default for Shell {
    /// A session without search path, directory or history.
    fn default() -> (s: Shell)
        ensures
            s.wf(),
            s@ == (Session {
                status: 0,
                path: Seq::empty(),
                pwd: Seq::empty(),
                hist_file: Seq::empty(),
                history: Seq::empty(),
                appended: 0,
            }),
    {
        let s = Shell {
            status_code: 0,
            path: Vec::new(),
            pwd: String::new(),
            hist_file: String::new(),
            history: Vec::new(),
            appended: 0,
        };
        assert(s.path.deep_view() == Seq::<Seq<char>>::empty());
        s
    }
}

} // verus!
