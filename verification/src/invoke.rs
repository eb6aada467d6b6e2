//! One run of the tool, and the locking that keeps runs apart.
//!
//! The library never touches a process or a file. An [`Invocation`] says what
//! has to happen next; whoever drives it performs that step and reports back
//! with an [`Event`].

use vstd::prelude::*;
use nix::errno::Errno;
use crate::IPTables;
use crate::error::{IPTError, IPTResult};

verus! {

/// The lock file shared by every handle whose tool cannot wait by itself.
pub const LOCK_FILE: &'static str = "/var/run/xtables_old.lock";

/// The flag that makes the tool wait for its own lock.
pub const WAIT_FLAG: &'static str = "--wait";

/// What a finished process left behind.
#[derive(Debug, PartialEq, Eq)]
pub struct Output {
    /// The exit code, if the process ended with one.
    pub status: Option<i32>,
    /// What it printed.
    pub stdout: Vec<u8>,
    /// What it printed as complaints.
    pub stderr: Vec<u8>,
}

/// Where a run stands: each variant but the last names the step that is due.
#[derive(Debug)]
pub enum Invocation {
    /// Create the lock file at `path`.
    OpenLock { path: &'static str, args: Vec<String> },
    /// Try once, without blocking, to lock the file exclusively.
    TryLock { args: Vec<String> },
    /// Run the tool with `argv`; `locked` says whether the file lock is held.
    Spawn { argv: Vec<String>, locked: bool },
    /// Close the lock file.
    Release { outcome: IPTResult<Output> },
    /// Nothing is due; this is the result.
    Finished(IPTResult<Output>),
}

/// What happened when the due step was performed.
#[derive(Debug)]
pub enum Event {
    /// The lock file is open.
    LockOpened,
    /// The lock file could not be opened.
    OpenFailed(std::io::Error),
    /// The lock is held.
    LockAcquired,
    /// The lock was not given.
    LockRefused(Errno),
    /// The tool ran and ended.
    Exited(Output),
    /// The tool could not be started.
    SpawnFailed(std::io::Error),
    /// The lock file is closed.
    Released,
}

/// Whether a refused lock only means that somebody else holds it.
pub uninterp spec fn would_block(errno: Errno) -> bool;

/// Compares with `nix::errno::Errno::EAGAIN`, the code `flock` gives when a
/// non-blocking request finds the file locked. The result depends on the
/// code alone.
#[verifier::external_body]
fn is_would_block(errno: &Errno) -> (yes: bool)
    ensures
        yes == would_block(*errno),
{
    *errno == Errno::EAGAIN
}

/// The result of a process that ran to its end: exit code zero, or none at
/// all, is success; any other code is the failure.
pub open spec fn exit_outcome(output: Output) -> IPTResult<Output> {
    match output.status {
        Some(code) if code != 0 => Err(IPTError::BadExitStatus(code)),
        _ => Ok(output),
    }
}

/// The state that follows `inv` on `event`. An event that does not answer
/// the due step changes nothing.
pub open spec fn step(inv: Invocation, event: Event) -> Invocation {
    match (inv, event) {
        (Invocation::OpenLock { path, args }, Event::LockOpened) => Invocation::TryLock { args },
        (Invocation::OpenLock { path, args }, Event::OpenFailed(e)) => Invocation::Finished(
            Err(IPTError::Io(e)),
        ),
        (Invocation::TryLock { args }, Event::LockAcquired) => Invocation::Spawn {
            argv: args,
            locked: true,
        },
        (Invocation::TryLock { args }, Event::LockRefused(errno)) => if would_block(errno) {
            inv
        } else {
            Invocation::Release { outcome: Err(IPTError::Nix(errno)) }
        },
        (Invocation::Spawn { argv, locked }, Event::Exited(output)) => if locked {
            Invocation::Release { outcome: exit_outcome(output) }
        } else {
            Invocation::Finished(exit_outcome(output))
        },
        (Invocation::Spawn { argv, locked }, Event::SpawnFailed(e)) => if locked {
            Invocation::Release { outcome: Err(IPTError::Io(e)) }
        } else {
            Invocation::Finished(Err(IPTError::Io(e)))
        },
        (Invocation::Release { outcome }, Event::Released) => Invocation::Finished(outcome),
        _ => inv,
    }
}

/// Maps the exit code of a finished process to the result of the run.
pub fn outcome_of(output: Output) -> (outcome: IPTResult<Output>)
    ensures
        outcome == exit_outcome(output),
{
    match output.status {
        None => Ok(output),
        Some(0) => Ok(output),
        Some(code) => Err(IPTError::BadExitStatus(code)),
    }
}

impl Invocation {
    /// Takes the report on the due step and says what is due next.
    pub fn resume(self, event: Event) -> (next: Invocation)
        ensures
            next == step(self, event),
    {
        match self {
            Invocation::OpenLock { path, args } => match event {
                Event::LockOpened => Invocation::TryLock { args },
                Event::OpenFailed(e) => Invocation::Finished(Err(IPTError::Io(e))),
                _ => Invocation::OpenLock { path, args },
            },
            Invocation::TryLock { args } => match event {
                Event::LockAcquired => Invocation::Spawn { argv: args, locked: true },
                Event::LockRefused(errno) => {
                    if is_would_block(&errno) {
                        Invocation::TryLock { args }
                    } else {
                        Invocation::Release { outcome: Err(IPTError::Nix(errno)) }
                    }
                },
                _ => Invocation::TryLock { args },
            },
            Invocation::Spawn { argv, locked } => match event {
                Event::Exited(output) => {
                    let outcome = outcome_of(output);
                    if locked {
                        Invocation::Release { outcome }
                    } else {
                        Invocation::Finished(outcome)
                    }
                },
                Event::SpawnFailed(e) => {
                    if locked {
                        Invocation::Release { outcome: Err(IPTError::Io(e)) }
                    } else {
                        Invocation::Finished(Err(IPTError::Io(e)))
                    }
                },
                _ => Invocation::Spawn { argv, locked },
            },
            Invocation::Release { outcome } => match event {
                Event::Released => Invocation::Finished(outcome),
                _ => Invocation::Release { outcome },
            },
            Invocation::Finished(outcome) => Invocation::Finished(outcome),
        }
    }
}

impl IPTables {
    /// The state in which a run with `args` begins. A tool that can wait for
    /// its own lock is run at once, with the flag that makes it wait; for any
    /// other the lock file comes first.
    pub open spec fn begins(self, args: Vec<String>, inv: Invocation) -> bool {
        if self.has_wait {
            &&& inv matches Invocation::Spawn { argv, locked }
            &&& !locked
            &&& argv.deep_view() == args.deep_view().push(WAIT_FLAG@)
        } else {
            inv == (Invocation::OpenLock { path: LOCK_FILE, args })
        }
    }

    /// Starts a run of the tool with `args`.
    pub fn run(&self, args: Vec<String>) -> (inv: Invocation)
        ensures
            self.begins(args, inv),
    {
        if self.has_wait {
            let mut argv = args;
            argv.push(String::from_str(WAIT_FLAG));
            assert(argv.deep_view() =~~= args.deep_view().push(WAIT_FLAG@));
            Invocation::Spawn { argv, locked: false }
        } else {
            Invocation::OpenLock { path: LOCK_FILE, args }
        }
    }
}

/// The state reached from `inv` when `events` are reported in order.
pub open spec fn after(inv: Invocation, events: Seq<Event>) -> Invocation
    decreases events.len(),
{
    if events.len() == 0 {
        inv
    } else {
        step(after(inv, events.drop_last()), events.last())
    }
}

/// Whether the file lock is held once `events` have been reported: it is
/// taken when a due attempt is answered with success, and given up when a
/// due release is answered.
pub open spec fn lock_held(inv: Invocation, events: Seq<Event>) -> bool
    decreases events.len(),
{
    if events.len() == 0 {
        false
    } else {
        let before = after(inv, events.drop_last());
        match (before, events.last()) {
            (Invocation::TryLock { .. }, Event::LockAcquired) => true,
            (Invocation::Release { .. }, Event::Released) => false,
            _ => lock_held(inv, events.drop_last()),
        }
    }
}

/// A run that starts by opening the lock file asks for the tool only while
/// it holds the lock, with the arguments it was given, and has let go of
/// the lock by the time it hands back a result.
pub proof fn lemma_lock_brackets_the_run(path: &'static str, args: Vec<String>, events: Seq<Event>)
    ensures
        ({
            let start = Invocation::OpenLock { path, args };
            match after(start, events) {
                Invocation::OpenLock { path: p, args: a } => !lock_held(start, events) && a == args,
                Invocation::TryLock { args: a } => !lock_held(start, events) && a == args,
                Invocation::Spawn { argv, locked } => lock_held(start, events) && locked && argv
                    == args,
                Invocation::Release { .. } => true,
                Invocation::Finished(_) => !lock_held(start, events),
            }
        }),
    decreases events.len(),
{
    if events.len() > 0 {
        lemma_lock_brackets_the_run(path, args, events.drop_last());
    }
}

/// A run that starts by asking for the tool without a file lock never asks
/// for one, and never changes its arguments.
pub proof fn lemma_unlocked_run_takes_no_lock(argv: Vec<String>, events: Seq<Event>)
    ensures
        ({
            let start = Invocation::Spawn { argv, locked: false };
            let end = after(start, events);
            &&& !lock_held(start, events)
            &&& end is Finished || end == start
        }),
    decreases events.len(),
{
    if events.len() > 0 {
        lemma_unlocked_run_takes_no_lock(argv, events.drop_last());
    }
}

/// A finished run stays finished, whatever is reported afterwards.
pub proof fn lemma_finished_is_final(outcome: IPTResult<Output>, events: Seq<Event>)
    ensures
        after(Invocation::Finished(outcome), events) == Invocation::Finished(outcome),
    decreases events.len(),
{
    if events.len() > 0 {
        lemma_finished_is_final(outcome, events.drop_last());
    }
}

/// Each run keeps to one way of locking. A handle whose tool can wait hands
/// the tool the wait flag and never touches the lock file. Any other handle
/// hands the tool its arguments as they are, asks for the tool only while it
/// holds the lock on [`LOCK_FILE`], and has let go of the lock when it hands
/// back the result.
pub proof fn lemma_one_way_of_locking(
    handle: IPTables,
    args: Vec<String>,
    start: Invocation,
    events: Seq<Event>,
)
    requires
        handle.begins(args, start),
    ensures
        ({
            let end = after(start, events);
            if handle.has_wait {
                &&& !lock_held(start, events)
                &&& end is Finished || end == start
                &&& end matches Invocation::Spawn { argv, locked } ==> !locked && argv.deep_view()
                    == args.deep_view().push(WAIT_FLAG@)
            } else {
                &&& start == (Invocation::OpenLock { path: LOCK_FILE, args })
                &&& end matches Invocation::Spawn { argv, locked } ==> lock_held(start, events)
                    && locked && argv == args
                &&& end is Finished ==> !lock_held(start, events)
            }
        }),
{
    if handle.has_wait {
        lemma_unlocked_run_takes_no_lock(start->argv, events);
    } else {
        lemma_lock_brackets_the_run(LOCK_FILE, args, events);
    }
}

} // verus!
