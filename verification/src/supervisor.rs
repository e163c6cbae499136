//! The order in which the stages of a pipeline are started and waited
//! for.
use vstd::prelude::*;
use crate::builtins::ChildOrStatus;

verus! {

/// What the host is to do next.
#[derive(Clone, Copy, Debug, PartialEq, Eq, Structural)]
pub enum Turn {
    /// Run the stage with this number.
    Start(usize),
    /// Wait for the stage with this number to end.
    Wait(usize),
    /// Nothing: every stage has ended.
    Done,
}

/// How far a pipeline has come.
#[derive(Clone, Debug, PartialEq, Eq)]
pub struct Supervisor {
    /// How many stages the pipeline has.
    pub stages: usize,
    /// What became of the stages that were run, in order.
    pub results: Vec<ChildOrStatus>,
    /// The statuses of the stages that have ended, in order.
    pub statuses: Vec<i32>,
}

impl Supervisor {
    /// No stage has ended before all were run.
    pub open spec fn wf(&self) -> bool {
        &&& self.results@.len() <= self.stages
        &&& self.statuses@.len() <= self.results@.len()
        &&& self.statuses@.len() > 0 ==> self.results@.len() == self.stages
    }

    /// What comes next: the stages are run in order, all of them before
    /// the first is waited for; then they are waited for in order.
    pub open spec fn next(&self) -> Turn {
        if self.results@.len() < self.stages {
            Turn::Start(self.results@.len() as usize)
        } else if self.statuses@.len() < self.stages {
            Turn::Wait(self.statuses@.len() as usize)
        } else {
            Turn::Done
        }
    }

    /// A pipeline of `stages` stages, none of them run.
    pub fn new(stages: usize) -> (s: Supervisor)
        ensures
            s.wf(),
            s.stages == stages,
            s.results@.len() == 0,
            s.statuses@.len() == 0,
    {
        Supervisor { stages, results: Vec::new(), statuses: Vec::new() }
    }

    /// What the host is to do next.
    pub fn turn(&self) -> (t: Turn)
        ensures
            t == self.next(),
    {
        if self.results.len() < self.stages {
            Turn::Start(self.results.len())
        } else if self.statuses.len() < self.stages {
            Turn::Wait(self.statuses.len())
        } else {
            Turn::Done
        }
    }

    /// Records what became of the stage that was run.
    pub fn started(&mut self, result: ChildOrStatus)
        requires
            old(self).wf(),
            old(self).next() is Start,
        ensures
            final(self).wf(),
            final(self).stages == old(self).stages,
            final(self).results@ == old(self).results@.push(result),
            final(self).statuses@ == old(self).statuses@,
    {
        self.results.push(result);
    }

    /// Records that the stage that was waited for has ended, and how:
    /// `exit` is the exit code that the host saw of it, if any.
    pub fn waited(&mut self, exit: Option<i32>)
        requires
            old(self).wf(),
            old(self).next() is Wait,
        ensures
            final(self).wf(),
            final(self).stages == old(self).stages,
            final(self).results@ == old(self).results@,
            final(self).statuses@ == old(self).statuses@.push(
                old(self).results@[old(self).statuses@.len() as int].status(exit),
            ),
    {
        let status = match &self.results[self.statuses.len()] {
            ChildOrStatus::Child { .. } => match exit {
                Some(code) => code,
                None => 0,
            },
            ChildOrStatus::Status(s) => *s,
        };
        self.statuses.push(status);
    }
}

/// A stage is waited for only when every stage was run.
pub proof fn all_run_before_any_wait(s: Supervisor)
    requires
        s.wf(),
        s.next() is Wait,
    ensures
        s.results@.len() == s.stages,
{
}

/// From start to end the host is told to run each stage once, in order,
/// and then to wait for each once, in order: the turn with the number `n`
/// is `Start(n)` below the number of stages, then `Wait` of what is over.
pub proof fn turns_in_order(s: Supervisor, n: int)
    requires
        s.wf(),
        n == s.results@.len() + s.statuses@.len(),
    ensures
        s.next() == (if n < s.stages {
            Turn::Start(n as usize)
        } else if n < 2 * s.stages {
            Turn::Wait((n - s.stages) as usize)
        } else {
            Turn::Done
        }),
{
}

} // verus!
