//! Who may touch the history: every process takes an exclusive lock on it first.

use crate::store::Store;
use crate::text::push_decimal;
use vstd::prelude::*;

verus! {

/// The outcome of one attempt to take the lock.
#[derive(Debug, Clone, Copy, PartialEq, Eq, Structural)]
pub enum LockTry {
    Acquired,
    /// Another process holds it.
    Busy,
    /// It could not be asked for.
    Failed,
}

/// What follows from an attempt.
#[derive(Debug, Clone, Copy, PartialEq, Eq, Structural)]
pub enum LockStep {
    /// Go on and read the history.
    Proceed,
    /// Try again after so many milliseconds.
    RetryAfter(u64),
    /// Give up: another process holds the lock.
    Contended,
    /// Give up: the attempt itself failed.
    Fail,
}

/// How long to pause between two attempts.
pub const LOCK_RETRY_MS: u64 = 20;

/// Only contention is tried again, and only until the time is up.
pub open spec fn lock_decision(
    attempt: LockTry,
    wait_nanos: Option<u128>,
    elapsed_nanos: u128,
) -> LockStep {
    match attempt {
        LockTry::Acquired => LockStep::Proceed,
        LockTry::Failed => LockStep::Fail,
        LockTry::Busy => if wait_nanos matches Some(w) && elapsed_nanos < w {
            LockStep::RetryAfter(LOCK_RETRY_MS)
        } else {
            LockStep::Contended
        },
    }
}

/// What follows from an attempt to take the lock, given how long to wait for it
/// (`None`: a single attempt) and how long it has been waited for.
pub fn lock_step(attempt: LockTry, wait_nanos: Option<u128>, elapsed_nanos: u128) -> (step: LockStep)
    ensures
        step == lock_decision(attempt, wait_nanos, elapsed_nanos),
{
    match attempt {
        LockTry::Acquired => LockStep::Proceed,
        LockTry::Failed => LockStep::Fail,
        LockTry::Busy => match wait_nanos {
            Some(w) => if elapsed_nanos < w {
                LockStep::RetryAfter(LOCK_RETRY_MS)
            } else {
                LockStep::Contended
            },
            None => LockStep::Contended,
        },
    }
}

/// The outcome of an attempt on a lock, given whether another holder has it: an
/// exclusive lock is given to one holder at a time.
pub open spec fn outcome_of(held: bool) -> LockTry {
    if held {
        LockTry::Busy
    } else {
        LockTry::Acquired
    }
}

/// A second holder that will not wait fails at its first attempt.
pub proof fn single_attempt_fails_fast(elapsed_nanos: u128)
    ensures
        lock_decision(LockTry::Busy, None, elapsed_nanos) == LockStep::Contended,
{
}

/// However long the wait, contention past it is an error.
pub proof fn waiting_ends(wait_nanos: u128, elapsed_nanos: u128)
    requires
        elapsed_nanos >= wait_nanos,
    ensures
        lock_decision(LockTry::Busy, Some(wait_nanos), elapsed_nanos) == LockStep::Contended,
{
}

/// Why a history could not be opened.
#[derive(Debug, PartialEq, Eq)]
pub enum OpenError {
    /// Another process holds the lock on the history in this directory.
    LockContended(String),
    /// A line of the history is no entry: its number, and the path of the file.
    CorruptLine(usize, String),
    /// The operating system refused something, in its words.
    Io(String),
}

/// The error in which an attempt ends, if it ends in one: contention names the
/// directory, any other failure is told in the words that came with it.
pub open spec fn lock_error(
    step: LockStep,
    dir: Seq<char>,
    why: Seq<char>,
    e: Option<OpenError>,
) -> bool {
    match step {
        LockStep::Proceed => e is None,
        LockStep::RetryAfter(_) => e is None,
        LockStep::Contended => e matches Some(OpenError::LockContended(d)) && d@ == dir,
        LockStep::Fail => e matches Some(OpenError::Io(w)) && w@ == why,
    }
}

/// The error in which an attempt to take the lock of a directory ends, if it ends
/// in one.
pub fn lock_failure(step: LockStep, dir: &str, why: &str) -> (e: Option<OpenError>)
    ensures
        lock_error(step, dir@, why@, e),
{
    match step {
        LockStep::Proceed => None,
        LockStep::RetryAfter(_) => None,
        LockStep::Contended => Some(OpenError::LockContended(dir.to_owned())),
        LockStep::Fail => Some(OpenError::Io(why.to_owned())),
    }
}

/// While a history is open, a second one that will not wait is refused at once
/// because of the lock; once the first is closed, it goes ahead.
pub proof fn one_holder_at_a_time(
    held: bool,
    elapsed_nanos: u128,
    dir: Seq<char>,
    why: Seq<char>,
    e: Option<OpenError>,
)
    requires
        lock_error(lock_decision(outcome_of(held), None, elapsed_nanos), dir, why, e),
    ensures
        held ==> (e matches Some(err) && err is LockContended),
        !held ==> e is None && lock_decision(outcome_of(held), None, elapsed_nanos)
            == LockStep::Proceed,
{
}

/// The failure in words.
pub open spec fn open_error_message(e: OpenError) -> Seq<char> {
    match e {
        OpenError::LockContended(dir) => "another clipcrate process holds the store lock ("@ + dir@
            + ")"@,
        OpenError::CorruptLine(n, path) => "corrupt history line "@ + crate::text::decimal(n as nat)
            + " in "@ + path@,
        OpenError::Io(why) => why@,
    }
}

impl OpenError {
    /// The failure in words.
    pub fn message(&self) -> (out: String)
        ensures
            out@ == open_error_message(*self),
    {
        match self {
            OpenError::LockContended(dir) => {
                "another clipcrate process holds the store lock (".to_owned().concat(
                    dir.as_str(),
                ).concat(")")
            },
            OpenError::CorruptLine(n, path) => {
                let mut out = "corrupt history line ".to_owned();
                push_decimal(&mut out, *n as u64);
                out.concat(" in ").concat(path.as_str())
            },
            OpenError::Io(why) => why.clone(),
        }
    }
}

impl Store {
    /// Whether a history could not be opened because another process holds it.
    pub fn is_lock_contended(err: &OpenError) -> (res: bool)
        ensures
            res == (*err is LockContended),
    {
        match err {
            OpenError::LockContended(_) => true,
            _ => false,
        }
    }
}

} // verus!
