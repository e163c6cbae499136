//! The builtin commands, and what a stage does when it is run.
//!
//! Nothing here touches the world outside. A stage first says what it
//! asks of the host ([`Command::request`]), then, given the answer, what
//! is to be done ([`Command::execute`]).
use vstd::prelude::*;
use vstd::string::StringExecFns;
use crate::command::Command;
use crate::shell::{file_text, history_lines, Session, Shell};
use crate::shell_io::{Input, Output};
use crate::number::{digits_of, parse_i32, parse_usize, push_decimal, signed_of, unsigned_of};
use crate::search::{
    executables, locate, located, located_is_an_entry, selected, selected_are_entries, Entry,
};
use crate::text::{is_text, join, joined, lossy_text, text_of};

verus! {

/// What became of a stage: a program for the host to start, or a builtin
/// that has ended with a status.
#[derive(Clone, Debug, PartialEq, Eq)]
pub enum ChildOrStatus {
    Child { program: String, args: Vec<String> },
    Status(i32),
}

/// What became of a stage, as plain values.
pub enum ChildOrStatusView {
    Child { program: Seq<char>, args: Seq<Seq<char>> },
    Status(i32),
}

impl View for ChildOrStatus {
    type V = ChildOrStatusView;

    open spec fn view(&self) -> ChildOrStatusView {
        match self {
            ChildOrStatus::Child { program, args } => ChildOrStatusView::Child {
                program: program@,
                args: args.deep_view(),
            },
            ChildOrStatus::Status(s) => ChildOrStatusView::Status(*s),
        }
    }
}

impl ChildOrStatus {
    /// The status of the stage, where `exit` is the exit code that the
    /// host saw of a program: a program of which it saw none counts as
    /// having ended well.
    pub open spec fn status(self, exit: Option<i32>) -> i32 {
        match self {
            ChildOrStatus::Child { .. } => match exit {
                Some(code) => code,
                None => 0,
            },
            ChildOrStatus::Status(s) => s,
        }
    }

    /// Computes [`ChildOrStatus::status`].
    pub fn wait(self, exit: Option<i32>) -> (status: i32)
        ensures
            status == self.status(exit),
    {
        match self {
            ChildOrStatus::Child { .. } => match exit {
                Some(code) => code,
                None => 0,
            },
            ChildOrStatus::Status(s) => s,
        }
    }
}

/// What a stage asks of the host before it can run.
#[derive(Clone, Debug, PartialEq, Eq)]
pub enum Request {
    Nothing,
    /// Where on the search path the program of this name is.
    Locate(String),
    /// Make this directory the working directory of the process, and say
    /// under which canonical path that was done. A directory that is
    /// missing or cannot be entered is answered with no path, and the
    /// process stays where it is.
    Enter(String),
    /// What this file holds.
    Read(String),
}

/// A request as plain values.
pub enum RequestView {
    Nothing,
    Locate(Seq<char>),
    Enter(Seq<char>),
    Read(Seq<char>),
}

impl View for Request {
    type V = RequestView;

    open spec fn view(&self) -> RequestView {
        match self {
            Request::Nothing => RequestView::Nothing,
            Request::Locate(n) => RequestView::Locate(n@),
            Request::Enter(d) => RequestView::Enter(d@),
            Request::Read(f) => RequestView::Read(f@),
        }
    }
}

/// The bytes in `o`, if there are any.
pub open spec fn bytes_of(o: Option<Vec<u8>>) -> Option<Seq<u8>> {
    match o {
        Some(b) => Some(b@),
        None => None,
    }
}

/// What the host answers. A part that was not asked for, or could not
/// be had or done, is `None`.
#[derive(Clone, Debug, PartialEq, Eq)]
pub struct Reply {
    /// The program that was found, or the canonical path of the directory
    /// that the process has entered.
    pub path: Option<String>,
    /// What the file holds.
    pub content: Option<Vec<u8>>,
}

/// A reply as plain values.
pub struct ReplyView {
    pub path: Option<Seq<char>>,
    pub content: Option<Seq<u8>>,
}

impl View for Reply {
    type V = ReplyView;

    open spec fn view(&self) -> ReplyView {
        ReplyView { path: text_of(self.path), content: bytes_of(self.content) }
    }
}

/// What the host is to do after a builtin has run.
#[derive(Clone, Debug, PartialEq, Eq)]
pub enum Effect {
    Nothing,
    /// Write `text` to `file`, then end the process with `code`, also
    /// where the file cannot be written.
    Exit { code: i32, file: String, text: String },
    /// Replace what `file` holds by `text`.
    Write { file: String, text: String },
    /// Add `text` to the end of `file`.
    Append { file: String, text: String },
}

/// An effect as plain values.
pub enum EffectView {
    Nothing,
    Exit { code: i32, file: Seq<char>, text: Seq<char> },
    Write { file: Seq<char>, text: Seq<char> },
    Append { file: Seq<char>, text: Seq<char> },
}

impl View for Effect {
    type V = EffectView;

    open spec fn view(&self) -> EffectView {
        match self {
            Effect::Nothing => EffectView::Nothing,
            Effect::Exit { code, file, text } => EffectView::Exit {
                code: *code,
                file: file@,
                text: text@,
            },
            Effect::Write { file, text } => EffectView::Write { file: file@, text: text@ },
            Effect::Append { file, text } => EffectView::Append { file: file@, text: text@ },
        }
    }
}

/// What running a stage comes to. The host writes `out` and `err` to the
/// streams `stdout` and `stderr`, which the stage hands over with `stdin`,
/// and carries out `effect`.
#[derive(Clone, Debug, PartialEq, Eq)]
pub struct Outcome {
    pub result: ChildOrStatus,
    pub out: String,
    pub err: String,
    pub effect: Effect,
    pub stdin: Input,
    pub stdout: Output,
    pub stderr: Output,
}

/// An outcome without the streams.
pub struct OutcomeView {
    pub result: ChildOrStatusView,
    pub out: Seq<char>,
    pub err: Seq<char>,
    pub effect: EffectView,
}

impl View for Outcome {
    type V = OutcomeView;

    open spec fn view(&self) -> OutcomeView {
        OutcomeView { result: self.result@, out: self.out@, err: self.err@, effect: self.effect@ }
    }
}

/// Whether `name` is one of the builtin commands.
pub open spec fn is_builtin(name: Seq<char>) -> bool {
    name == "exit"@ || name == "echo"@ || name == "type"@ || name == "pwd"@ || name == "cd"@
        || name == "history"@
}

/// A builtin that has ended.
pub open spec fn done(status: i32, out: Seq<char>, err: Seq<char>, effect: EffectView) -> OutcomeView {
    OutcomeView { result: ChildOrStatusView::Status(status), out, err, effect }
}

/// `echo`: the arguments with a blank between each two, and a line feed.
pub open spec fn echo_of(args: Seq<Seq<char>>) -> OutcomeView {
    done(0, joined(args.skip(1), " "@) + "\n"@, Seq::empty(), EffectView::Nothing)
}

/// `type`: a builtin is reported as one, whatever the search path holds;
/// another name with the program that was found, or as not found.
pub open spec fn type_of(args: Seq<Seq<char>>, located: Option<Seq<char>>) -> OutcomeView {
    if args.len() < 2 {
        done(1, Seq::empty(), "Usage: type <command>\n"@, EffectView::Nothing)
    } else if is_builtin(args[1]) {
        done(0, args[1] + " is a shell builtin\n"@, Seq::empty(), EffectView::Nothing)
    } else {
        match located {
            Some(p) => done(0, args[1] + " is "@ + p + "\n"@, Seq::empty(), EffectView::Nothing),
            None => done(0, Seq::empty(), args[1] + ": not found\n"@, EffectView::Nothing),
        }
    }
}

/// `pwd`: the working directory.
pub open spec fn pwd_of(pwd: Seq<char>) -> OutcomeView {
    done(0, pwd + "\n"@, Seq::empty(), EffectView::Nothing)
}

/// `exit`: the history is saved in any case; the process ends only with
/// a code that is an `i32`.
pub open spec fn exit_of(args: Seq<Seq<char>>, s: Session) -> OutcomeView {
    let file = s.hist_file;
    let text = file_text(s.history);
    if args.len() < 2 {
        done(1, Seq::empty(), "Usage: exit <exit_code>"@, EffectView::Write { file, text })
    } else {
        match signed_of(args[1], 0x8000_0000, 0x7fff_ffff) {
            Ok(code) => done(
                code as i32,
                Seq::empty(),
                Seq::empty(),
                EffectView::Exit { code: code as i32, file, text },
            ),
            Err(_) => done(1, Seq::empty(), "invalid error code"@, EffectView::Write { file, text }),
        }
    }
}

/// `cd`: `entered` is the canonical path of the directory asked for, if
/// the host has made it the working directory of the process. Where it
/// has not, `cd` fails.
pub open spec fn cd_of(args: Seq<Seq<char>>, entered: Option<Seq<char>>) -> OutcomeView {
    if args.len() < 2 {
        done(1, Seq::empty(), "cd: No such file or directory\n"@, EffectView::Nothing)
    } else {
        match entered {
            Some(dir) => done(0, Seq::empty(), Seq::empty(), EffectView::Nothing),
            None => done(
                1,
                Seq::empty(),
                "cd: "@ + args[1] + ": No such file or directory\n"@,
                EffectView::Nothing,
            ),
        }
    }
}

/// The directory that `cd` is to go to: the home directory for `~`.
pub open spec fn cd_target(arg: Seq<char>, home: Option<Seq<char>>) -> Seq<char> {
    if arg == "~"@ {
        match home {
            Some(h) => h,
            None => "~"@,
        }
    } else {
        arg
    }
}

/// The session after `cd`: its working directory is the one that the
/// process has entered, and stays where the process has entered none. So
/// the session and the process agree.
pub open spec fn cd_session(args: Seq<Seq<char>>, entered: Option<Seq<char>>, s: Session) -> Session {
    if args.len() >= 2 && entered is Some {
        Session { pwd: entered->0, ..s }
    } else {
        s
    }
}

/// One line of the history as `history` shows it; `i` counts from 0.
pub open spec fn history_entry(i: int, line: Seq<char>) -> Seq<char> {
    "    "@ + digits_of((i + 1) as nat) + "  "@ + line + "\n"@
}

/// The lines of the history from the one at `i` on, as `history` shows
/// them.
pub open spec fn listing(history: Seq<Seq<char>>, i: int) -> Seq<char>
    decreases history.len() - i,
{
    if i < 0 || i >= history.len() {
        Seq::empty()
    } else {
        history_entry(i, history[i]) + listing(history, i + 1)
    }
}

/// What `history -a` leaves to the host: the lines entered since the
/// last such call are to be added to `file`. Where none was entered
/// there is nothing to do, and the file stays as it was.
pub open spec fn append_effect(file: Seq<char>, s: Session) -> EffectView {
    let fresh = s.history.skip(s.appended as int);
    if fresh.len() == 0 {
        EffectView::Nothing
    } else {
        EffectView::Append { file, text: file_text(fresh) }
    }
}

/// `history`: with a flag and a file it reads, writes or appends; else
/// it shows the last lines, as many as asked for, or all. A file that
/// cannot be read and a count that is no number are reported.
pub open spec fn history_of(args: Seq<Seq<char>>, s: Session, content: Option<Seq<u8>>) -> OutcomeView {
    if args.len() == 3 {
        if args[1] == "-r"@ && content is None {
            done(1, Seq::empty(), "history: "@ + args[2] + ": cannot read file\n"@, EffectView::Nothing)
        } else if args[1] == "-w"@ {
            done(
                0,
                Seq::empty(),
                Seq::empty(),
                EffectView::Write { file: args[2], text: file_text(s.history) },
            )
        } else if args[1] == "-a"@ {
            done(0, Seq::empty(), Seq::empty(), append_effect(args[2], s))
        } else {
            done(0, Seq::empty(), Seq::empty(), EffectView::Nothing)
        }
    } else if args.len() > 1 {
        match unsigned_of(args[1], usize::MAX as nat) {
            Ok(n) => done(
                0,
                listing(
                    s.history,
                    if n < s.history.len() {
                        s.history.len() - n
                    } else {
                        0
                    },
                ),
                Seq::empty(),
                EffectView::Nothing,
            ),
            Err(e) => done(1, Seq::empty(), e.text(), EffectView::Nothing),
        }
    } else {
        done(0, listing(s.history, 0), Seq::empty(), EffectView::Nothing)
    }
}

/// The session after `history`.
pub open spec fn history_session(args: Seq<Seq<char>>, s: Session, content: Option<Seq<u8>>) -> Session {
    if args.len() == 3 && args[1] == "-r"@ && content is Some {
        Session { history: s.history + history_lines(lossy_text(content->0)), ..s }
    } else if args.len() == 3 && args[1] == "-a"@ {
        Session { appended: s.history.len(), ..s }
    } else {
        s
    }
}

/// A command that is no builtin: the program that was found is to be
/// started with the arguments of the stage.
pub open spec fn spawn_of(args: Seq<Seq<char>>, located: Option<Seq<char>>) -> OutcomeView {
    match located {
        Some(program) => OutcomeView {
            result: ChildOrStatusView::Child { program, args },
            out: Seq::empty(),
            err: Seq::empty(),
            effect: EffectView::Nothing,
        },
        None => done(1, Seq::empty(), args[0] + ": command not found\n"@, EffectView::Nothing),
    }
}

/// What running the stage with the arguments `args` comes to.
pub open spec fn outcome_of(args: Seq<Seq<char>>, s: Session, reply: ReplyView) -> OutcomeView {
    let name = args[0];
    if name == "exit"@ {
        exit_of(args, s)
    } else if name == "echo"@ {
        echo_of(args)
    } else if name == "type"@ {
        type_of(args, reply.path)
    } else if name == "pwd"@ {
        pwd_of(s.pwd)
    } else if name == "cd"@ {
        cd_of(args, reply.path)
    } else if name == "history"@ {
        history_of(args, s, reply.content)
    } else {
        spawn_of(args, reply.path)
    }
}

/// The session after the stage with the arguments `args` has run.
pub open spec fn session_after(args: Seq<Seq<char>>, s: Session, reply: ReplyView) -> Session {
    let name = args[0];
    if name == "cd"@ {
        cd_session(args, reply.path, s)
    } else if name == "history"@ {
        history_session(args, s, reply.content)
    } else {
        s
    }
}

/// What the stage with the arguments `args` asks of the host.
pub open spec fn request_of(args: Seq<Seq<char>>, home: Option<Seq<char>>) -> RequestView {
    let name = args[0];
    if name == "type"@ {
        if args.len() >= 2 && !is_builtin(args[1]) {
            RequestView::Locate(args[1])
        } else {
            RequestView::Nothing
        }
    } else if name == "cd"@ {
        if args.len() >= 2 {
            RequestView::Enter(cd_target(args[1], home))
        } else {
            RequestView::Nothing
        }
    } else if name == "history"@ {
        if args.len() == 3 && args[1] == "-r"@ {
            RequestView::Read(args[2])
        } else {
            RequestView::Nothing
        }
    } else if is_builtin(name) {
        RequestView::Nothing
    } else {
        RequestView::Locate(name)
    }
}

/// `type` on a builtin says so whatever the host found on the search
/// path, and asks the host nothing.
pub proof fn type_knows_builtins(
    args: Seq<Seq<char>>,
    s: Session,
    reply: ReplyView,
    home: Option<Seq<char>>,
)
    requires
        args.len() >= 2,
        args[0] == "type"@,
        is_builtin(args[1]),
    ensures
        outcome_of(args, s, reply) == done(
            0,
            args[1] + " is a shell builtin\n"@,
            Seq::empty(),
            EffectView::Nothing,
        ),
        session_after(args, s, reply) == s,
        request_of(args, home) == RequestView::Nothing,
{
    names_differ();
}

/// `cd` to a directory that does not exist or cannot be entered, or
/// without one, leaves the session as it was and fails with a message on
/// standard error, which names the directory where one was given.
pub proof fn cd_nowhere_changes_nothing(args: Seq<Seq<char>>, s: Session, reply: ReplyView)
    requires
        args.len() >= 1,
        args[0] == "cd"@,
        args.len() < 2 || reply.path is None,
    ensures
        session_after(args, s, reply) == s,
        outcome_of(args, s, reply).result == ChildOrStatusView::Status(1),
        outcome_of(args, s, reply).effect == EffectView::Nothing,
        outcome_of(args, s, reply).out.len() == 0,
        outcome_of(args, s, reply).err == (if args.len() < 2 {
            "cd: No such file or directory\n"@
        } else {
            "cd: "@ + args[1] + ": No such file or directory\n"@
        }),
{
    names_differ();
}

/// `cd ~` asks the host to enter the home directory, and where the host
/// has done so that is the working directory of the session, under the
/// canonical path that the host gives.
pub proof fn cd_tilde_goes_home(s: Session, home: Seq<char>, canonical: Seq<char>)
    ensures
        request_of(seq!["cd"@, "~"@], Some(home)) == RequestView::Enter(home),
        session_after(
            seq!["cd"@, "~"@],
            s,
            ReplyView { path: Some(canonical), content: None },
        ) == (Session { pwd: canonical, ..s }),
{
    names_differ();
}

/// After `history -a`, the next `history -a` adds the lines entered
/// since, and no others; where none was entered it leaves nothing to do,
/// so that the file stays as it was.
pub proof fn append_writes_only_new(
    first: Seq<char>,
    second: Seq<char>,
    s: Session,
    more: Seq<Seq<char>>,
    reply: ReplyView,
)
    requires
        s.appended <= s.history.len(),
    ensures
        ({
            let after = session_after(seq!["history"@, "-a"@, first], s, reply);
            let later = Session { history: after.history + more, ..after };
            let left = outcome_of(seq!["history"@, "-a"@, second], later, reply).effect;
            &&& more.len() == 0 ==> left == EffectView::Nothing
            &&& more.len() > 0 ==> left == EffectView::Append { file: second, text: file_text(more) }
            &&& session_after(seq!["history"@, "-a"@, second], later, reply) == (Session {
                appended: later.history.len(),
                ..later
            })
        }),
{
    names_differ();
    flags_differ();
    let after = session_after(seq!["history"@, "-a"@, first], s, reply);
    assert((after.history + more).skip(after.appended as int) == more);
}

/// The names of the builtins differ from each other: three of them by
/// their second character, the others by their length.
proof fn names_differ()
    ensures
        "exit"@ != "echo"@,
        "exit"@ != "type"@,
        "echo"@ != "type"@,
        "exit"@.len() == 4,
        "echo"@.len() == 4,
        "type"@.len() == 4,
        "pwd"@.len() == 3,
        "cd"@.len() == 2,
        "history"@.len() == 7,
{
    reveal_strlit("exit");
    reveal_strlit("echo");
    reveal_strlit("type");
    reveal_strlit("pwd");
    reveal_strlit("cd");
    reveal_strlit("history");
    assert("exit"@[1] == 'x');
    assert("echo"@[1] == 'c');
    assert("type"@[1] == 'y');
}

/// Whether the stage `after` is `before` with its streams handed over
/// to the outcome `o`.
pub open spec fn hands_over(before: Command, after: Command, o: Outcome) -> bool {
    &&& o.stdin == before.stdin
    &&& o.stdout == before.stdout
    &&& o.stderr == before.stderr
    &&& after.name == before.name
    &&& after.args == before.args
    &&& after.stdin == Input::Taken
    &&& after.stdout == Output::Taken
    &&& after.stderr == Output::Taken
}

/// Whether `name` is one of the builtin commands.
fn builtin(name: &String) -> (b: bool)
    ensures
        b == is_builtin(name@),
{
    is_text(name, "exit") || is_text(name, "echo") || is_text(name, "type") || is_text(name, "pwd")
        || is_text(name, "cd") || is_text(name, "history")
}

impl Command {
    /// Hands the streams of the stage over, with what is to be written to
    /// them.
    fn finish(&mut self, result: ChildOrStatus, out: String, err: String, effect: Effect) -> (o:
        Outcome)
        requires
            old(self).runnable(),
        ensures
            o.result == result,
            o.out == out,
            o.err == err,
            o.effect == effect,
            hands_over(*old(self), *final(self), o),
    {
        let (stdin, stdout, stderr) = self.take_io();
        Outcome { result, out, err, effect, stdin, stdout, stderr }
    }

    /// What the stage asks of the host before it runs, where `home` is
    /// the home directory of the user, if the host knows one.
    pub fn request(&self, home: &Option<String>) -> (r: Request)
        requires
            self.runnable(),
        ensures
            r@ == request_of(self.args.deep_view(), text_of(*home)),
    {
        if is_text(&self.name, "type") {
            if self.args.len() >= 2 && !builtin(&self.args[1]) {
                Request::Locate(self.args[1].clone())
            } else {
                Request::Nothing
            }
        } else if is_text(&self.name, "cd") {
            if self.args.len() >= 2 {
                if is_text(&self.args[1], "~") {
                    match home {
                        Some(h) => Request::Enter(h.clone()),
                        None => Request::Enter(String::from_str("~")),
                    }
                } else {
                    Request::Enter(self.args[1].clone())
                }
            } else {
                Request::Nothing
            }
        } else if is_text(&self.name, "history") {
            if self.args.len() == 3 && is_text(&self.args[1], "-r") {
                Request::Read(self.args[2].clone())
            } else {
                Request::Nothing
            }
        } else if builtin(&self.name) {
            Request::Nothing
        } else {
            Request::Locate(self.name.clone())
        }
    }

    /// Looks `cmd` up among the entries of the search path at which the
    /// host has a file that may be executed.
    ///
    /// Which entries those are is for the host to say: the result is the
    /// first entry of the name among what some answers select. So what is
    /// found is an entry of that name, and a name that no entry has is
    /// not found.
    pub fn find_executable(&self, cmd: &String, path: &Vec<Vec<Entry>>) -> (r: Option<String>)
        ensures
            exists|flags: Seq<Seq<bool>>|
                text_of(r) == located(cmd@, selected(path.deep_view(), flags), 0),
            r matches Some(p) ==> exists|d: int, e: int|
                0 <= d < path.len() && 0 <= e < path[d].len() && (#[trigger] path[d][e]).name@
                    == cmd@ && path[d][e].path@ == p@,
            (forall|d: int, e: int|
                0 <= d < path.len() && 0 <= e < path[d].len() ==> (#[trigger] path[d][e]).name@
                    != cmd@) ==> r is None,
    {
        let kept = executables(path);
        let r = locate(cmd, &kept);
        proof {
            let k = kept.deep_view();
            let p = path.deep_view();
            let flags = choose|flags: Seq<Seq<bool>>| k == selected(p, flags);
            selected_are_entries(p, flags);
            located_is_an_entry(cmd@, k, 0);
            match located(cmd@, k, 0) {
                Some(found) => {
                    let (a, e) = choose|a: int, e: int|
                        0 <= a < k.len() && 0 <= e < k[a].len() && (#[trigger] k[a][e]).name == cmd@
                            && k[a][e].path == found;
                    let f = choose|f: int| 0 <= f < p[a].len() && p[a][f] == k[a][e];
                    assert(path[a][f].name@ == cmd@ && path[a][f].path@ == found);
                },
                None => {},
            }
        }
        r
    }

    /// Runs `echo`.
    pub fn echo(&mut self) -> (o: Outcome)
        requires
            old(self).runnable(),
        ensures
            o@ == echo_of(old(self).args.deep_view()),
            hands_over(*old(self), *final(self), o),
    {
        let out = join(&self.args, 1, " ").concat("\n");
        self.finish(ChildOrStatus::Status(0), out, String::new(), Effect::Nothing)
    }

    /// Runs `pwd` in the working directory `pwd`.
    pub fn pwd(&mut self, pwd: &String) -> (o: Outcome)
        requires
            old(self).runnable(),
        ensures
            o@ == pwd_of(pwd@),
            hands_over(*old(self), *final(self), o),
    {
        let out = pwd.clone().concat("\n");
        self.finish(ChildOrStatus::Status(0), out, String::new(), Effect::Nothing)
    }

    /// Runs `type`, where `located` is the program that the host found
    /// under the name asked for, if it found one.
    ///
    /// A builtin is reported as one whatever the host found.
    pub fn cmd_type(&mut self, located: Option<String>) -> (o: Outcome)
        requires
            old(self).runnable(),
        ensures
            o@ == type_of(old(self).args.deep_view(), text_of(located)),
            old(self).args@.len() >= 2 && is_builtin(old(self).args@[1]@) ==> o@ == done(
                0,
                old(self).args@[1]@ + " is a shell builtin\n"@,
                Seq::empty(),
                EffectView::Nothing,
            ),
            hands_over(*old(self), *final(self), o),
    {
        if self.args.len() < 2 {
            let err = String::from_str("Usage: type <command>\n");
            return self.finish(ChildOrStatus::Status(1), String::new(), err, Effect::Nothing);
        }
        assert(self.args.deep_view()[1] == self.args@[1]@);
        if builtin(&self.args[1]) {
            let out = self.args[1].clone().concat(" is a shell builtin\n");
            return self.finish(ChildOrStatus::Status(0), out, String::new(), Effect::Nothing);
        }
        match located {
            Some(p) => {
                let out = self.args[1].clone().concat(" is ").concat(p.as_str()).concat("\n");
                self.finish(ChildOrStatus::Status(0), out, String::new(), Effect::Nothing)
            },
            None => {
                let err = self.args[1].clone().concat(": not found\n");
                self.finish(ChildOrStatus::Status(0), String::new(), err, Effect::Nothing)
            },
        }
    }

    /// Runs `exit`.
    pub fn exit(&mut self, shell: &Shell) -> (o: Outcome)
        requires
            old(self).runnable(),
        ensures
            o@ == exit_of(old(self).args.deep_view(), shell@),
            hands_over(*old(self), *final(self), o),
    {
        let file = shell.hist_file.clone();
        let text = shell.write_history();
        if self.args.len() < 2 {
            let err = String::from_str("Usage: exit <exit_code>");
            return self.finish(
                ChildOrStatus::Status(1),
                String::new(),
                err,
                Effect::Write { file, text },
            );
        }
        match parse_i32(self.args[1].as_str()) {
            Ok(code) => self.finish(
                ChildOrStatus::Status(code),
                String::new(),
                String::new(),
                Effect::Exit { code, file, text },
            ),
            Err(_) => {
                let err = String::from_str("invalid error code");
                self.finish(ChildOrStatus::Status(1), String::new(), err, Effect::Write { file, text })
            },
        }
    }

    /// Runs `cd`, where `entered` is the canonical path of the directory
    /// asked for, if the host has made it the working directory of the
    /// process.
    ///
    /// Where the host has entered no directory, the session stays as it
    /// was and `cd` fails with a message that names the directory.
    pub fn cd(&mut self, shell: &mut Shell, entered: Option<String>) -> (o: Outcome)
        requires
            old(self).runnable(),
        ensures
            o@ == cd_of(old(self).args.deep_view(), text_of(entered)),
            final(shell)@ == cd_session(old(self).args.deep_view(), text_of(entered), old(shell)@),
            old(self).args@.len() >= 2 && entered is None ==> {
                &&& final(shell)@ == old(shell)@
                &&& o@ == done(
                    1,
                    Seq::empty(),
                    "cd: "@ + old(self).args@[1]@ + ": No such file or directory\n"@,
                    EffectView::Nothing,
                )
            },
            old(self).args@.len() >= 2 && entered is Some ==> {
                &&& final(shell)@ == (Session { pwd: entered->0@, ..old(shell)@ })
                &&& o@ == done(0, Seq::empty(), Seq::empty(), EffectView::Nothing)
            },
            hands_over(*old(self), *final(self), o),
    {
        if self.args.len() < 2 {
            let err = String::from_str("cd: No such file or directory\n");
            return self.finish(ChildOrStatus::Status(1), String::new(), err, Effect::Nothing);
        }
        assert(self.args.deep_view()[1] == self.args@[1]@);
        match entered {
            Some(dir) => {
                shell.pwd = dir;
                self.finish(ChildOrStatus::Status(0), String::new(), String::new(), Effect::Nothing)
            },
            None => {
                let err = String::from_str("cd: ").concat(self.args[1].as_str()).concat(
                    ": No such file or directory\n",
                );
                self.finish(ChildOrStatus::Status(1), String::new(), err, Effect::Nothing)
            },
        }
    }

    /// Runs `history`, where `content` is what the file to read holds, if
    /// the host could read it.
    pub fn history(&mut self, shell: &mut Shell, content: Option<Vec<u8>>) -> (o: Outcome)
        requires
            old(self).runnable(),
            old(shell).wf(),
        ensures
            final(shell).wf(),
            o@ == history_of(old(self).args.deep_view(), old(shell)@, bytes_of(content)),
            final(shell)@ == history_session(
                old(self).args.deep_view(),
                old(shell)@,
                bytes_of(content),
            ),
            hands_over(*old(self), *final(self), o),
    {
        if self.args.len() == 3 {
            proof {
                flags_differ();
            }
            if is_text(&self.args[1], "-r") {
                match content {
                    Some(bytes) => {
                        shell.read_history(&bytes);
                    },
                    None => {
                        let err = String::from_str("history: ").concat(self.args[2].as_str()).concat(
                            ": cannot read file\n",
                        );
                        return self.finish(
                            ChildOrStatus::Status(1),
                            String::new(),
                            err,
                            Effect::Nothing,
                        );
                    },
                }
            } else if is_text(&self.args[1], "-w") {
                let effect = Effect::Write { file: self.args[2].clone(), text: shell.write_history() };
                return self.finish(ChildOrStatus::Status(0), String::new(), String::new(), effect);
            } else if is_text(&self.args[1], "-a") {
                let effect = if shell.appended < shell.history.len() {
                    Effect::Append { file: self.args[2].clone(), text: shell.append_history() }
                } else {
                    Effect::Nothing
                };
                return self.finish(ChildOrStatus::Status(0), String::new(), String::new(), effect);
            }
            return self.finish(
                ChildOrStatus::Status(0),
                String::new(),
                String::new(),
                Effect::Nothing,
            );
        }
        let len = shell.history.len();
        let mut from: usize = 0;
        if self.args.len() > 1 {
            match parse_usize(self.args[1].as_str()) {
                Ok(n) => {
                    if n < len {
                        from = len - n;
                    }
                },
                Err(e) => {
                    return self.finish(
                        ChildOrStatus::Status(1),
                        String::new(),
                        e.message(),
                        Effect::Nothing,
                    );
                },
            }
        }
        let mut out = String::new();
        let mut i: usize = from;
        let ghost h = shell.history.deep_view();
        while i < len
            invariant
                from <= i <= len,
                len == shell.history.len(),
                h == shell.history.deep_view(),
                out@ + listing(h, i as int) == listing(h, from as int),
            decreases len - i,
        {
            out.append("    ");
            push_decimal(&mut out, i + 1);
            out.append("  ");
            out.append(shell.history[i].as_str());
            out.append("\n");
            i = i + 1;
        }
        self.finish(ChildOrStatus::Status(0), out, String::new(), Effect::Nothing)
    }

    /// Runs the stage, given what the host answered.
    ///
    /// A builtin runs here and now, on the session; its output is handed
    /// back as text for the streams of the stage. Any other command is
    /// handed back as a program to start, or as not found.
    pub fn execute(&mut self, shell: &mut Shell, reply: Reply) -> (o: Outcome)
        requires
            old(self).runnable(),
            old(shell).wf(),
        ensures
            final(shell).wf(),
            o@ == outcome_of(old(self).args.deep_view(), old(shell)@, reply@),
            final(shell)@ == session_after(old(self).args.deep_view(), old(shell)@, reply@),
            hands_over(*old(self), *final(self), o),
    {
        proof {
            names_differ();
        }
        let Reply { path, content } = reply;
        if is_text(&self.name, "exit") {
            self.exit(shell)
        } else if is_text(&self.name, "echo") {
            self.echo()
        } else if is_text(&self.name, "type") {
            self.cmd_type(path)
        } else if is_text(&self.name, "pwd") {
            self.pwd(&shell.pwd)
        } else if is_text(&self.name, "cd") {
            self.cd(shell, path)
        } else if is_text(&self.name, "history") {
            self.history(shell, content)
        } else {
            match path {
                Some(program) => {
                    let args = self.args.clone();
                    self.finish(
                        ChildOrStatus::Child { program, args },
                        String::new(),
                        String::new(),
                        Effect::Nothing,
                    )
                },
                None => {
                    let err = self.name.clone().concat(": command not found\n");
                    self.finish(ChildOrStatus::Status(1), String::new(), err, Effect::Nothing)
                },
            }
        }
    }
}

/// The flags of `history` differ from each other.
proof fn flags_differ()
    ensures
        "-r"@ != "-w"@,
        "-r"@ != "-a"@,
        "-w"@ != "-a"@,
{
    reveal_strlit("-r");
    reveal_strlit("-w");
    reveal_strlit("-a");
    assert("-r"@[1] == 'r');
    assert("-w"@[1] == 'w');
    assert("-a"@[1] == 'a');
}

} // verus!
