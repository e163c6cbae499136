//! Builds the stages of a pipeline from the words of a line.
use vstd::prelude::*;
use vstd::string::StringExecFns;
use crate::command::Command;
use crate::shell_io::{Input, Mode, Output};
use crate::text::is_text;
use crate::tokenizer::{tokenize, tokens, Token, Word};

verus! {

/// Why a line cannot be run at all.
#[derive(Clone, Copy, Debug, PartialEq, Eq, Structural)]
pub enum SyntaxDefect {
    /// A segment of the pipeline names no command.
    EmptySegment,
    /// A redirection operator is the last word of its segment.
    MissingTarget,
}

impl SyntaxDefect {
    /// The defect in words, for the user.
    pub open spec fn text(self) -> Seq<char> {
        match self {
            SyntaxDefect::EmptySegment => "syntax error: empty pipeline segment"@,
            SyntaxDefect::MissingTarget => "syntax error: redirection without a target"@,
        }
    }

    /// Computes [`SyntaxDefect::text`].
    pub fn message(self) -> (m: String)
        ensures
            m@ == self.text(),
    {
        match self {
            SyntaxDefect::EmptySegment => String::from_str("syntax error: empty pipeline segment"),
            SyntaxDefect::MissingTarget => String::from_str(
                "syntax error: redirection without a target",
            ),
        }
    }
}

/// The word that separates two stages: `|`, written bare.
pub open spec fn is_pipe(w: Word) -> bool {
    w.bare && w.text == "|"@
}

/// A word that redirects standard output, written bare.
pub open spec fn is_stdout_op(w: Word) -> bool {
    w.bare && (w.text == ">"@ || w.text == "1>"@ || w.text == ">>"@ || w.text == "1>>"@)
}

/// A word that redirects standard error, written bare.
pub open spec fn is_stderr_op(w: Word) -> bool {
    w.bare && (w.text == "2>"@ || w.text == "2>>"@)
}

/// A redirection operator. A word of which any part stood in quotes or
/// behind a backslash is none, whatever it holds.
pub open spec fn is_redirect(w: Word) -> bool {
    is_stdout_op(w) || is_stderr_op(w)
}

/// The mode that a redirection operator asks for.
pub open spec fn mode_of(w: Word) -> Mode {
    if w.text == ">>"@ || w.text == "1>>"@ || w.text == "2>>"@ {
        Mode::Append
    } else {
        Mode::Truncate
    }
}

/// How many words stand at `i` before the next pipe operator.
pub open spec fn segment_len(t: Seq<Word>, i: int) -> nat
    decreases t.len() - i,
{
    if i < 0 || i >= t.len() || is_pipe(t[i]) {
        0
    } else {
        1 + segment_len(t, i + 1)
    }
}

/// The segments of `t[i..]`: the runs of words between pipe operators.
pub open spec fn segments_from(t: Seq<Word>, i: int) -> Seq<Seq<Word>>
    decreases t.len() - i,
{
    let j = i + segment_len(t, i);
    if i < 0 || j >= t.len() {
        seq![t.subrange(i, t.len() as int)]
    } else {
        seq![t.subrange(i, j)] + segments_from(t, j + 1)
    }
}

/// The segments of a line with the words `t`.
pub open spec fn segments(t: Seq<Word>) -> Seq<Seq<Word>> {
    segments_from(t, 0)
}

/// The texts of the words of `g[i..]` that are left once every
/// redirection operator and the word after it are taken out.
pub open spec fn words_from(g: Seq<Word>, i: int) -> Seq<Seq<char>>
    decreases g.len() - i,
{
    if i < 0 || i >= g.len() {
        Seq::empty()
    } else if is_redirect(g[i]) {
        if i + 1 >= g.len() {
            Seq::empty()
        } else {
            words_from(g, i + 2)
        }
    } else {
        seq![g[i].text] + words_from(g, i + 1)
    }
}

/// The command and its arguments in the segment `g`.
pub open spec fn words(g: Seq<Word>) -> Seq<Seq<char>> {
    words_from(g, 0)
}

/// Whether a redirection operator in `g[i..]` has no word after it.
pub open spec fn lacks_target_from(g: Seq<Word>, i: int) -> bool
    decreases g.len() - i,
{
    if i < 0 || i >= g.len() {
        false
    } else if is_redirect(g[i]) {
        i + 1 >= g.len() || lacks_target_from(g, i + 2)
    } else {
        lacks_target_from(g, i + 1)
    }
}

/// Whether a redirection operator in the segment `g` has no word after
/// it.
pub open spec fn lacks_target(g: Seq<Word>) -> bool {
    lacks_target_from(g, 0)
}

/// The first redirection in `g[i..]` of standard error (`err`) or of
/// standard output: its target and mode. The target is the text of the
/// word after the operator, whatever that word is.
pub open spec fn redirection_from(g: Seq<Word>, i: int, err: bool) -> Option<(Seq<char>, Mode)>
    decreases g.len() - i,
{
    if i < 0 || i >= g.len() {
        None
    } else if is_redirect(g[i]) {
        if i + 1 >= g.len() {
            None
        } else if is_stderr_op(g[i]) == err {
            Some((g[i + 1].text, mode_of(g[i])))
        } else {
            redirection_from(g, i + 2, err)
        }
    } else {
        redirection_from(g, i + 1, err)
    }
}

/// The first redirection in the segment `g` of standard error (`err`) or
/// of standard output.
pub open spec fn redirection(g: Seq<Word>, err: bool) -> Option<(Seq<char>, Mode)> {
    redirection_from(g, 0, err)
}

/// Whether the segment names a command.
pub open spec fn has_command(g: Seq<Word>) -> bool {
    words(g).len() > 0 && words(g)[0].len() > 0
}

/// The defect of a line with the words `t`, if it has one. A missing
/// target anywhere counts before a segment without a command.
pub open spec fn defect(t: Seq<Word>) -> Option<SyntaxDefect> {
    let segs = segments(t);
    if t.len() == 0 {
        None
    } else if exists|k: int| 0 <= k < segs.len() && lacks_target(#[trigger] segs[k]) {
        Some(SyntaxDefect::MissingTarget)
    } else if exists|k: int| 0 <= k < segs.len() && !has_command(#[trigger] segs[k]) {
        Some(SyntaxDefect::EmptySegment)
    } else {
        None
    }
}

/// The texts of the words `g[i..]`.
pub open spec fn texts_from(g: Seq<Word>, i: int) -> Seq<Seq<char>>
    decreases g.len() - i,
{
    if i < 0 || i >= g.len() {
        Seq::empty()
    } else {
        seq![g[i].text] + texts_from(g, i + 1)
    }
}

/// In a segment of which no word is a bare operator, every word is the
/// command or an argument, whatever it holds, and nothing is redirected.
pub proof fn words_of_plain_segment(g: Seq<Word>, i: int)
    requires
        0 <= i,
        forall|k: int| 0 <= k < g.len() ==> !is_redirect(#[trigger] g[k]),
    ensures
        words_from(g, i) == texts_from(g, i),
        !lacks_target_from(g, i),
        redirection_from(g, i, false) is None,
        redirection_from(g, i, true) is None,
    decreases g.len() - i,
{
    if i < g.len() {
        assert(!is_redirect(g[i]));
        words_of_plain_segment(g, i + 1);
    }
}

/// Whether `o` is the binding that the redirection `r` asks for, or
/// `inherited` where there is none.
pub open spec fn output_is(o: Output, r: Option<(Seq<char>, Mode)>, inherited: Output) -> bool {
    match r {
        Some((path, mode)) => o matches Output::File(p, m) && p@ == path && m == mode,
        None => o == inherited,
    }
}

/// Whether `c` is stage `k` of `n`, built from the segment `g`.
///
/// Pipe `k` joins stage `k` to stage `k + 1`. Only the last stage carries
/// redirections; in the others they are taken out of the arguments and
/// bind nothing.
pub open spec fn is_stage(c: Command, g: Seq<Word>, k: int, n: int) -> bool {
    &&& c.args.deep_view() == words(g)
    &&& words(g).len() > 0
    &&& c.name@ == words(g)[0]
    &&& c.stdin == (if k == 0 {
        Input::Stdin
    } else {
        Input::Pipe((k - 1) as usize)
    })
    &&& if k + 1 < n {
        c.stdout == Output::Pipe(k as usize) && c.stderr == Output::Stderr
    } else {
        output_is(c.stdout, redirection(g, false), Output::Stdout) && output_is(
            c.stderr,
            redirection(g, true),
            Output::Stderr,
        )
    }
}

/// Whether `p` holds the stages of a line with the words `t`: none for a
/// line without words, else one for each segment.
pub open spec fn is_pipeline(p: Seq<Command>, t: Seq<Word>) -> bool {
    if t.len() == 0 {
        p.len() == 0
    } else {
        &&& p.len() == segments(t).len()
        &&& forall|k: int|
            0 <= k < p.len() ==> is_stage(#[trigger] p[k], segments(t)[k], k, p.len() as int)
    }
}

/// What holds of every pipeline: each stage can run, neighbours share one
/// pipe, and only the ends touch a file or the interpreter's own streams.
pub open spec fn well_formed(p: Seq<Command>) -> bool {
    forall|k: int|
        0 <= k < p.len() ==> {
            &&& (#[trigger] p[k]).runnable()
            &&& k == 0 ==> p[k].stdin == Input::Stdin
            &&& k > 0 ==> p[k].stdin == Input::Pipe((k - 1) as usize)
            &&& k + 1 < p.len() ==> p[k].stdout == Output::Pipe(k as usize) && p[k].stderr
                == Output::Stderr
            &&& k + 1 == p.len() ==> (p[k].stdout is File || p[k].stdout == Output::Stdout) && (
            p[k].stderr is File || p[k].stderr == Output::Stderr)
        }
}

/// The stages built from a line without defect form a pipeline.
pub proof fn pipeline_is_well_formed(p: Seq<Command>, t: Seq<Word>)
    requires
        is_pipeline(p, t),
        defect(t) is None,
    ensures
        well_formed(p),
{
    assert forall|k: int| 0 <= k < p.len() implies {
        &&& (#[trigger] p[k]).runnable()
        &&& k == 0 ==> p[k].stdin == Input::Stdin
        &&& k > 0 ==> p[k].stdin == Input::Pipe((k - 1) as usize)
        &&& k + 1 < p.len() ==> p[k].stdout == Output::Pipe(k as usize) && p[k].stderr
            == Output::Stderr
        &&& k + 1 == p.len() ==> (p[k].stdout is File || p[k].stdout == Output::Stdout) && (
        p[k].stderr is File || p[k].stderr == Output::Stderr)
    } by {
        assert(has_command(segments(t)[k]));
    }
}

/// Whether `w` is the pipe operator.
fn pipe(w: &Token) -> (b: bool)
    ensures
        b == is_pipe(w.deep_view()),
{
    w.bare && is_text(&w.text, "|")
}

/// Whether `w` redirects standard output.
fn stdout_op(w: &Token) -> (b: bool)
    ensures
        b == is_stdout_op(w.deep_view()),
{
    w.bare && (is_text(&w.text, ">") || is_text(&w.text, "1>") || is_text(&w.text, ">>")
        || is_text(&w.text, "1>>"))
}

/// Whether `w` redirects standard error.
fn stderr_op(w: &Token) -> (b: bool)
    ensures
        b == is_stderr_op(w.deep_view()),
{
    w.bare && (is_text(&w.text, "2>") || is_text(&w.text, "2>>"))
}

/// The mode that the operator `w` asks for.
fn mode(w: &Token) -> (m: Mode)
    ensures
        m == mode_of(w.deep_view()),
{
    if is_text(&w.text, ">>") || is_text(&w.text, "1>>") || is_text(&w.text, "2>>") {
        Mode::Append
    } else {
        Mode::Truncate
    }
}

/// Where the segment that starts at `i` ends.
fn segment_end(t: &Vec<Token>, i: usize) -> (j: usize)
    requires
        i <= t.len(),
    ensures
        i <= j <= t.len(),
        j == i + segment_len(t.deep_view(), i as int),
{
    let mut j: usize = i;
    while j < t.len() && !pipe(&t[j])
        invariant
            i <= j <= t.len(),
            i + segment_len(t.deep_view(), i as int) == j + segment_len(t.deep_view(), j as int),
        decreases t.len() - j,
    {
        j = j + 1;
    }
    j
}

/// What one segment holds.
struct Segment {
    words: Vec<String>,
    out: Option<(String, Mode)>,
    err: Option<(String, Mode)>,
    lacks_target: bool,
}

/// Whether `found` is the redirection `r`.
spec fn found_is(found: Option<(String, Mode)>, r: Option<(Seq<char>, Mode)>) -> bool {
    match found {
        Some((p, m)) => r == Some((p@, m)),
        None => r is None,
    }
}

/// Reads the segment `t[i..j]`.
fn read_segment(t: &Vec<Token>, i: usize, j: usize) -> (s: Segment)
    requires
        i <= j <= t.len(),
    ensures
        ({
            let g = t.deep_view().subrange(i as int, j as int);
            &&& s.words.deep_view() == words(g)
            &&& s.lacks_target == lacks_target(g)
            &&& found_is(s.out, redirection(g, false))
            &&& found_is(s.err, redirection(g, true))
        }),
{
    let ghost g = t.deep_view().subrange(i as int, j as int);
    let mut kept: Vec<String> = Vec::new();
    let mut out: Option<(String, Mode)> = None;
    let mut err: Option<(String, Mode)> = None;
    let mut lacks = false;
    let mut p: usize = i;
    while p < j
        invariant
            i <= p <= j <= t.len(),
            g == t.deep_view().subrange(i as int, j as int),
            kept.deep_view() + words_from(g, p - i) == words(g),
            lacks ==> p == j && lacks_target(g),
            !lacks ==> lacks_target_from(g, p - i) == lacks_target(g),
            match out {
                Some((path, m)) => redirection(g, false) == Some((path@, m)),
                None => redirection(g, false) == redirection_from(g, p - i, false),
            },
            match err {
                Some((path, m)) => redirection(g, true) == Some((path@, m)),
                None => redirection(g, true) == redirection_from(g, p - i, true),
            },
        decreases j - p,
    {
        if stdout_op(&t[p]) || stderr_op(&t[p]) {
            if p + 1 >= j {
                lacks = true;
                p = j;
            } else {
                if stderr_op(&t[p]) {
                    if err.is_none() {
                        err = Some((t[p + 1].text.clone(), mode(&t[p])));
                    }
                } else {
                    if out.is_none() {
                        out = Some((t[p + 1].text.clone(), mode(&t[p])));
                    }
                }
                p = p + 2;
            }
        } else {
            kept.push(t[p].text.clone());
            p = p + 1;
        }
    }
    Segment { words: kept, out, err, lacks_target: lacks }
}

/// The binding that the redirection `found` asks for, or `inherited`.
fn bind(found: Option<(String, Mode)>, inherited: Output) -> (o: Output)
    ensures
        match found {
            Some((p, m)) => o == Output::File(p, m),
            None => o == inherited,
        },
{
    match found {
        Some((p, m)) => Output::File(p, m),
        None => inherited,
    }
}

proof fn segments_step(t: Seq<Word>, i: int)
    requires
        0 <= i <= t.len(),
    ensures
        ({
            let j = i + segment_len(t, i);
            &&& j <= t.len()
            &&& segments_from(t, i)[0] == t.subrange(i, j)
            &&& j >= t.len() ==> segments_from(t, i).len() == 1
            &&& j < t.len() ==> segments_from(t, i).skip(1) == segments_from(t, j + 1)
        }),
{
    segment_len_fits(t, i);
}

proof fn segment_len_fits(t: Seq<Word>, i: int)
    requires
        0 <= i <= t.len(),
    ensures
        i + segment_len(t, i) <= t.len(),
    decreases t.len() - i,
{
    if i < t.len() && !is_pipe(t[i]) {
        segment_len_fits(t, i + 1);
    }
}

/// The defect of the line with the words `t`.
fn find_defect(t: &Vec<Token>) -> (d: Option<SyntaxDefect>)
    ensures
        d == defect(t.deep_view()),
{
    if t.len() == 0 {
        return None;
    }
    let ghost tv = t.deep_view();
    let ghost segs = segments(tv);
    let mut missing = false;
    let mut empty = false;
    let mut i: usize = 0;
    let ghost mut k: int = 0;
    let mut done = false;
    while !done
        invariant
            tv == t.deep_view(),
            segs == segments(tv),
            i <= t.len(),
            0 <= k <= segs.len(),
            !done ==> segs.skip(k) == segments_from(tv, i as int),
            done ==> k == segs.len(),
            missing == exists|m: int| 0 <= m < k && lacks_target(#[trigger] segs[m]),
            empty == exists|m: int| 0 <= m < k && !has_command(#[trigger] segs[m]),
        decreases t.len() - i + (if done { 0int } else { 1int }),
    {
        let j = segment_end(t, i);
        proof {
            segments_step(tv, i as int);
        }
        let seg = read_segment(t, i, j);
        assert(segs[k] == tv.subrange(i as int, j as int));
        let named = seg.words.len() > 0 && !seg.words[0].as_str().is_empty();
        missing = missing || seg.lacks_target;
        empty = empty || !named;
        if j >= t.len() {
            done = true;
        } else {
            i = j + 1;
        }
        proof {
            k = k + 1;
        }
    }
    if missing {
        Some(SyntaxDefect::MissingTarget)
    } else if empty {
        Some(SyntaxDefect::EmptySegment)
    } else {
        None
    }
}

/// Builds the stages of the line with the words `tokens`.
///
/// A line without words has no stage. A line with a defect has none
/// either: it fails as a whole.
pub fn build(tokens: Vec<Token>) -> (r: Result<Vec<Command>, SyntaxDefect>)
    ensures
        match r {
            Ok(p) => defect(tokens.deep_view()) is None && is_pipeline(p@, tokens.deep_view())
                && well_formed(p@),
            Err(d) => defect(tokens.deep_view()) == Some(d),
        },
{
    match find_defect(&tokens) {
        Some(d) => {
            return Err(d);
        },
        None => {},
    }
    let mut stages: Vec<Command> = Vec::new();
    if tokens.len() == 0 {
        proof {
            pipeline_is_well_formed(stages@, tokens.deep_view());
        }
        return Ok(stages);
    }
    let ghost tv = tokens.deep_view();
    let ghost segs = segments(tv);
    let mut i: usize = 0;
    let mut done = false;
    while !done
        invariant
            tv == tokens.deep_view(),
            segs == segments(tv),
            defect(tv) is None,
            tv.len() > 0,
            i <= tokens.len(),
            stages.len() <= segs.len(),
            !done ==> segs.skip(stages.len() as int) == segments_from(tv, i as int),
            done ==> stages.len() == segs.len(),
            forall|m: int|
                0 <= m < stages.len() ==> is_stage(#[trigger] stages[m], segs[m], m, segs.len() as int),
        decreases tokens.len() - i + (if done { 0int } else { 1int }),
    {
        let k = stages.len();
        let j = segment_end(&tokens, i);
        proof {
            segments_step(tv, i as int);
        }
        assert(segs[k as int] == tv.subrange(i as int, j as int));
        let seg = read_segment(&tokens, i, j);
        let last = j >= tokens.len();
        let stdin = if k == 0 {
            Input::Stdin
        } else {
            Input::Pipe(k - 1)
        };
        let stdout = if last {
            bind(seg.out, Output::Stdout)
        } else {
            Output::Pipe(k)
        };
        let stderr = if last {
            bind(seg.err, Output::Stderr)
        } else {
            Output::Stderr
        };
        let name = seg.words[0].clone();
        let stage = Command::new(name).with_args(seg.words).with_stdin(stdin).with_stdout(
            stdout,
        ).with_stderr(stderr);
        if last {
            done = true;
        } else {
            i = j + 1;
        }
        stages.push(stage);
    }
    proof {
        pipeline_is_well_formed(stages@, tv);
    }
    Ok(stages)
}

/// The stages of `line`: its words, split at the pipe operators.
pub fn parse(line: &str) -> (r: Result<Vec<Command>, SyntaxDefect>)
    ensures
        match r {
            Ok(p) => defect(tokens(line@)) is None && is_pipeline(p@, tokens(line@)) && well_formed(
                p@,
            ),
            Err(d) => defect(tokens(line@)) == Some(d),
        },
{
    build(tokenize(line))
}

} // verus!
