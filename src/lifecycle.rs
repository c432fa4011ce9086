//! The composite lifecycle transitions of one process, as a state machine.
//!
//! Freezing hides the process's windows, trims its working set and then
//! suspends it; thawing resumes it and then shows its windows. The caller
//! performs each primitive that `next_action` names and reports its outcome
//! with `record`; the machine decides what comes next.
use vstd::prelude::*;

verus! {

/// A single-process operation of the operating system.
#[derive(Debug, Clone, Copy, PartialEq, Eq, Structural)]
pub enum Primitive {
    HideWindows,
    TrimWorkingSet,
    Suspend,
    Resume,
    ShowWindows,
}

/// Why an operation on one process failed.
#[derive(Debug, Clone, Copy, PartialEq, Eq, Structural)]
pub enum Failure {
    /// The process id no longer names a live process.
    NotFound,
    /// The caller lacks the rights to act on the process.
    AccessDenied,
    /// Any other failure, with the system's error code.
    OsError(u32),
}

/// Windows error code for a refused access right.
pub const ERROR_ACCESS_DENIED: u32 = 5;

/// Windows error code that opening a process gives when no process has the id.
pub const ERROR_INVALID_PARAMETER: u32 = 87;

/// The failure class of a system error code.
pub open spec fn failure_of_code(code: u32) -> Failure {
    if code == ERROR_ACCESS_DENIED {
        Failure::AccessDenied
    } else if code == ERROR_INVALID_PARAMETER {
        Failure::NotFound
    } else {
        Failure::OsError(code)
    }
}

/// Sorts a system error code into the failure classes.
pub fn classify_os_error(code: u32) -> (r: Failure)
    ensures
        r == failure_of_code(code),
{
    if code == ERROR_ACCESS_DENIED {
        Failure::AccessDenied
    } else if code == ERROR_INVALID_PARAMETER {
        Failure::NotFound
    } else {
        Failure::OsError(code)
    }
}

/// The two composite transitions.
#[derive(Debug, Clone, Copy, PartialEq, Eq, Structural)]
pub enum Transition {
    Freeze,
    Thaw,
}

/// The primitives of a transition, in the order they must run.
pub open spec fn plan(t: Transition) -> Seq<Primitive> {
    match t {
        Transition::Freeze => seq![
            Primitive::HideWindows,
            Primitive::TrimWorkingSet,
            Primitive::Suspend,
        ],
        Transition::Thaw => seq![Primitive::Resume, Primitive::ShowWindows],
    }
}

/// The number of primitives of a transition.
pub fn plan_len(t: Transition) -> (r: usize)
    ensures
        r == plan(t).len(),
{
    match t {
        Transition::Freeze => 3,
        Transition::Thaw => 2,
    }
}

/// The primitive at position `i` of a transition's plan.
pub fn plan_step(t: Transition, i: usize) -> (r: Primitive)
    requires
        i < plan(t).len(),
    ensures
        r == plan(t)[i as int],
{
    match t {
        Transition::Freeze => if i == 0 {
            Primitive::HideWindows
        } else if i == 1 {
            Primitive::TrimWorkingSet
        } else {
            Primitive::Suspend
        },
        Transition::Thaw => if i == 0 {
            Primitive::Resume
        } else {
            Primitive::ShowWindows
        },
    }
}

/// One transition of one process in progress: how many primitives have
/// succeeded, and the failure that stopped it, if any.
#[derive(Debug, Clone, Copy, PartialEq, Eq, Structural)]
pub struct Composite {
    pub pid: u32,
    pub transition: Transition,
    pub done: usize,
    pub failure: Option<Failure>,
}

impl Composite {
    /// A failure stops the transition before the primitive that failed is
    /// counted as done.
    pub open spec fn wf(&self) -> bool {
        &&& self.done <= plan(self.transition).len()
        &&& self.failure is Some ==> self.done < plan(self.transition).len()
    }

    /// A transition of `pid` that has not run any primitive yet.
    pub open spec fn start(pid: u32, t: Transition) -> Composite {
        Composite { pid, transition: t, done: 0, failure: None }
    }

    /// Every primitive succeeded, or one failed.
    pub open spec fn finished(&self) -> bool {
        self.failure is Some || self.done >= plan(self.transition).len()
    }

    /// The primitive to run next; `None` once the transition is finished.
    pub open spec fn next_spec(&self) -> Option<Primitive> {
        if self.finished() {
            None
        } else {
            Some(plan(self.transition)[self.done as int])
        }
    }

    /// The machine after the next primitive ended with `outcome`.
    pub open spec fn after(&self, outcome: Result<(), Failure>) -> Composite {
        match outcome {
            Ok(()) => Composite { done: (self.done + 1) as usize, ..*self },
            Err(f) => Composite { failure: Some(f), ..*self },
        }
    }

    /// The outcome of the transition once it is finished.
    pub open spec fn result_spec(&self) -> Option<Result<(), Failure>> {
        match self.failure {
            Some(f) => Some(Err(f)),
            None => if self.done >= plan(self.transition).len() {
                Some(Ok(()))
            } else {
                None
            },
        }
    }

    /// Starts a transition of `pid`.
    pub fn new(pid: u32, t: Transition) -> (r: Composite)
        ensures
            r == Composite::start(pid, t),
            r.wf(),
            !r.finished(),
    {
        Composite { pid, transition: t, done: 0, failure: None }
    }

    /// The primitive to run next, if any.
    pub fn next_action(&self) -> (r: Option<Primitive>)
        requires
            self.wf(),
        ensures
            r == self.next_spec(),
    {
        if self.failure.is_some() || self.done >= plan_len(self.transition) {
            None
        } else {
            Some(plan_step(self.transition, self.done))
        }
    }

    /// Takes the outcome of the primitive that `next_action` named.
    pub fn record(&mut self, outcome: Result<(), Failure>)
        requires
            old(self).wf(),
            !old(self).finished(),
        ensures
            *final(self) == old(self).after(outcome),
            final(self).wf(),
    {
        match outcome {
            Ok(()) => {
                self.done = self.done + 1;
            },
            Err(f) => {
                self.failure = Some(f);
            },
        }
    }

    /// The outcome, once the transition is finished.
    pub fn result(&self) -> (r: Option<Result<(), Failure>>)
        requires
            self.wf(),
        ensures
            r == self.result_spec(),
    {
        match self.failure {
            Some(f) => Some(Err(f)),
            None => if self.done >= plan_len(self.transition) {
                Some(Ok(()))
            } else {
                None
            },
        }
    }
}

/// Starts freezing `pid`: hide its windows, trim its working set, suspend it.
pub fn suspend_minecraft(pid: u32) -> (r: Composite)
    ensures
        r == Composite::start(pid, Transition::Freeze),
        r.next_spec() == Some(Primitive::HideWindows),
{
    Composite::new(pid, Transition::Freeze)
}

/// Starts thawing `pid`: resume it, then show its windows.
pub fn resume_minecraft(pid: u32) -> (r: Composite)
    ensures
        r == Composite::start(pid, Transition::Thaw),
        r.next_spec() == Some(Primitive::Resume),
{
    Composite::new(pid, Transition::Thaw)
}

} // verus!
