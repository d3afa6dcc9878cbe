//! The session: its life from the handshake to the end, the timeout that
//! bounds its evaluations, and the rules on when an evaluation may start.

use core::time::Duration;
use vstd::prelude::*;
use vstd::utf8::encode_utf8;
use crate::error::{invalid_input, io_kind, kind_of, GhciError, IoKind};
use crate::eval::{fresh, step, Evaluation, Event, Outcome, Progress};
use crate::scan::{
    clear_blocking_reader_until,
    scan_verdict,
    scanned,
    Scan,
    ScanBuffer,
    SCAN_LIMIT,
};
use crate::framing::{
    clear_continuation_command,
    continuation_command,
    file_command,
    import_command,
    load_command,
    marker,
    module_command,
    prompt_command,
    set_prompt_command,
    texts,
    DEFAULT_PROMPT_END,
    PROMPT,
};

verus! {

/// The whole milliseconds that `Duration::as_millis` reports for a duration.
pub uninterp spec fn millis(duration: Duration) -> u128;

/// Calls `Duration::as_millis`; the contract names the result.
#[verifier::external_body]
fn as_millis(duration: &Duration) -> (total: u128)
    ensures
        total == millis(*duration),
{
    duration.as_millis()
}

/// The bound that makes a readiness wait go on without end.
pub const WAIT_FOREVER: i32 = -1;

/// The bound handed to a readiness wait for a timeout of `total`
/// milliseconds: the milliseconds themselves where they fit, and
/// [`WAIT_FOREVER`] where they do not or where no timeout is set.
pub open spec fn bound_of(total: Option<u128>) -> i32 {
    match total {
        Some(total) => if total <= i32::MAX {
            total as i32
        } else {
            WAIT_FOREVER
        },
        None => WAIT_FOREVER,
    }
}

/// Encodes a timeout in milliseconds for a readiness wait.
pub fn wait_bound(total: Option<u128>) -> (bound: i32)
    ensures
        bound == bound_of(total),
{
    match total {
        Some(total) => if total <= 2147483647 {
            total as i32
        } else {
            WAIT_FOREVER
        },
        None => WAIT_FOREVER,
    }
}

/// The bound handed to a readiness wait under `timeout`.
pub open spec fn wait_millis(timeout: Option<Duration>) -> i32 {
    match timeout {
        Some(duration) => bound_of(Some(millis(duration))),
        None => bound_of(None),
    }
}

/// The stages in the life of a session.
#[derive(Clone, Copy, Debug, PartialEq, Eq, Structural)]
pub enum Lifecycle {
    /// The handshake that installs the prompt marker is under way.
    Initializing,
    /// An evaluation may start.
    Ready,
    /// An evaluation is in flight.
    Evaluating,
    /// An evaluation ran out of time; the evaluator may still be busy with
    /// it, so nothing it writes can be trusted any more.
    TimedOut,
    /// The session is over.
    Closed,
}

/// What the driver has to do next for the handshake.
#[derive(Debug)]
pub enum Handshake {
    /// Read from the evaluator's output, blocking, at most this many bytes;
    /// answer with [`Reply::Read`].
    Read(usize),
    /// Write this command to the evaluator's input; answer with
    /// [`Reply::Sent`].
    Send(String),
    /// Nothing: the session is not negotiating.
    Complete,
}

/// What the driver reports back during the handshake.
#[derive(Debug)]
pub enum Reply<'a> {
    /// The outcome of a blocking read: the bytes that it brought.
    Read(Result<&'a [u8], std::io::Error>),
    /// The outcome of writing a command.
    Sent(Result<(), std::io::Error>),
}

/// A step of the handshake.
pub enum Script {
    /// The evaluator's output is read until it ends with this text.
    Expect(Seq<char>),
    /// This command is written to the evaluator.
    Send(Seq<char>),
}

/// The number of steps in the handshake.
pub const HANDSHAKE_STEPS: u8 = 5;

/// The handshake, step by step: the banner is cleared up to the prompt
/// that the evaluator starts with, the prompt marker is installed and
/// awaited, the continuation prompt is emptied and the marker awaited
/// again.
pub open spec fn script(done: nat) -> Script {
    if done == 0 {
        Script::Expect(DEFAULT_PROMPT_END@)
    } else if done == 1 {
        Script::Send(prompt_command())
    } else if done == 2 {
        Script::Expect(marker())
    } else if done == 3 {
        Script::Send(continuation_command())
    } else {
        Script::Expect(marker())
    }
}

/// The meaning of a [`Ghci`].
pub struct Session {
    /// The stage of its life that the session is in.
    pub lifecycle: Lifecycle,
    /// How many steps of the handshake are done.
    pub negotiated: nat,
    /// The bytes read so far in the step of the handshake that is due.
    pub seen: Seq<u8>,
    /// The bound on the waits of an evaluation, if any.
    pub timeout: Option<Duration>,
}

/// `session` moved to `lifecycle`.
pub open spec fn moved(session: Session, lifecycle: Lifecycle) -> Session {
    Session { lifecycle, ..session }
}

/// `session` with the step of the handshake that was due behind it: ready
/// if that was the last.
pub open spec fn stepped(session: Session) -> Session {
    if session.negotiated + 1 >= HANDSHAKE_STEPS {
        Session {
            lifecycle: Lifecycle::Ready,
            negotiated: HANDSHAKE_STEPS as nat,
            seen: Seq::empty(),
            timeout: session.timeout,
        }
    } else {
        Session { negotiated: session.negotiated + 1, seen: Seq::empty(), ..session }
    }
}

/// The failure that `reply` reports, if any. A read that was interrupted
/// has not failed: it is to be tried again.
pub open spec fn failure(reply: Reply) -> Option<std::io::Error> {
    match reply {
        Reply::Sent(Err(error)) => Some(error),
        Reply::Read(Err(error)) => if io_kind(error) == IoKind::Interrupted {
            None
        } else {
            Some(error)
        },
        _ => None,
    }
}

/// A session once the driver has given `reply`.
///
/// A failure closes a session that is negotiating, and what it had read
/// is dropped. Otherwise a reply that answers the step that is due moves
/// the handshake on: a write ends its step; a read ends its step when the
/// scan for the expected text is over, and else adds to the bytes seen.
/// Any other reply, and any reply to a session that is not negotiating,
/// changes nothing.
pub open spec fn answered(session: Session, reply: Reply) -> Session {
    if session.lifecycle != Lifecycle::Initializing {
        session
    } else if failure(reply) is Some {
        Session { lifecycle: Lifecycle::Closed, seen: Seq::empty(), ..session }
    } else {
        match (script(session.negotiated), reply) {
            (Script::Expect(expected), Reply::Read(read)) => if scan_verdict(
                session.seen,
                read,
                encode_utf8(expected),
            ) is Some {
                stepped(session)
            } else {
                Session { seen: scanned(session.seen, read), ..session }
            },
            (Script::Send(_), Reply::Sent(_)) => stepped(session),
            _ => session,
        }
    }
}

/// A session once an evaluation in flight has taken a step with this
/// outcome.
///
/// An evaluation that ends gives way to the next, unless it timed out:
/// then the session is of no more use.
pub open spec fn settled(session: Session, outcome: Outcome) -> Session {
    match (session.lifecycle, outcome) {
        (Lifecycle::Evaluating, Outcome::Finished(Err(GhciError::Timeout))) => moved(
            session,
            Lifecycle::TimedOut,
        ),
        (Lifecycle::Evaluating, Outcome::Finished(_)) => moved(session, Lifecycle::Ready),
        _ => session,
    }
}

/// A ghci session handle.
///
/// The session is stateful, so the order of interaction matters.
#[derive(Debug)]
pub struct Ghci {
    lifecycle: Lifecycle,
    negotiated: u8,
    scan: ScanBuffer,
    timeout: Option<Duration>,
}

impl View for Ghci {
    type V = Session;

    closed spec fn view(&self) -> Session {
        Session {
            lifecycle: self.lifecycle,
            negotiated: self.negotiated as nat,
            seen: self.scan@,
            timeout: self.timeout,
        }
    }
}

impl Ghci {
    /// Create a new session: one that has its handshake before it, and no
    /// timeout.
    pub fn new() -> (session: Ghci)
        ensures
            session@ == (Session {
                lifecycle: Lifecycle::Initializing,
                negotiated: 0,
                seen: Seq::empty(),
                timeout: None,
            }),
    {
        Ghci {
            lifecycle: Lifecycle::Initializing,
            negotiated: 0,
            scan: ScanBuffer::new(),
            timeout: None,
        }
    }

    /// The stage of its life that the session is in.
    pub fn lifecycle(&self) -> (lifecycle: Lifecycle)
        ensures
            lifecycle == self@.lifecycle,
    {
        self.lifecycle
    }

    /// The timeout for evaluations, if one is set.
    pub fn timeout(&self) -> (timeout: Option<Duration>)
        ensures
            timeout == self@.timeout,
    {
        self.timeout
    }

    /// What the driver has to do next for the handshake.
    pub fn negotiate(&self) -> (request: Handshake)
        ensures
            self@.lifecycle != Lifecycle::Initializing ==> request is Complete,
            self@.lifecycle == Lifecycle::Initializing ==> match script(self@.negotiated) {
                Script::Expect(_) => request matches Handshake::Read(room) && room == SCAN_LIMIT
                    - self@.seen.len(),
                Script::Send(command) => request matches Handshake::Send(text) && text@
                    == command,
            },
    {
        if !matches!(self.lifecycle, Lifecycle::Initializing) {
            Handshake::Complete
        } else if self.negotiated == 1 {
            Handshake::Send(set_prompt_command())
        } else if self.negotiated == 3 {
            Handshake::Send(clear_continuation_command())
        } else {
            Handshake::Read(self.scan.spare())
        }
    }

    /// Takes in the driver's reply to what [`Ghci::negotiate`] asked for,
    /// and hands a failure on as the session's error.
    pub fn negotiated(&mut self, reply: Reply<'_>) -> (result: Result<(), GhciError>)
        ensures
            final(self)@ == answered(old(self)@, reply),
            result == match failure(reply) {
                Some(error) => Err::<(), GhciError>(GhciError::IOError(error)),
                None => Ok(()),
            },
    {
        let negotiating = matches!(self.lifecycle, Lifecycle::Initializing);
        let sending = self.negotiated == 1 || self.negotiated == 3;
        match reply {
            Reply::Sent(Err(error)) => {
                if negotiating {
                    self.fail();
                }
                Err(GhciError::IOError(error))
            },
            Reply::Sent(Ok(_)) => {
                if negotiating && sending {
                    self.step();
                }
                Ok(())
            },
            Reply::Read(read) => {
                if negotiating && !sending {
                    let expected = if self.negotiated == 0 {
                        DEFAULT_PROMPT_END
                    } else {
                        PROMPT
                    };
                    let mut scan = ScanBuffer::new();
                    core::mem::swap(&mut self.scan, &mut scan);
                    match clear_blocking_reader_until(scan, read, expected.as_bytes()) {
                        Scan::More(rest) => {
                            self.scan = rest;
                            Ok(())
                        },
                        Scan::Done(Ok(_)) => {
                            self.step();
                            Ok(())
                        },
                        Scan::Done(Err(error)) => {
                            self.fail();
                            Err(GhciError::IOError(error))
                        },
                    }
                } else {
                    match read {
                        Ok(_) => Ok(()),
                        Err(error) => match kind_of(&error) {
                            IoKind::Interrupted => Ok(()),
                            _ => {
                                if negotiating {
                                    self.fail();
                                }
                                Err(GhciError::IOError(error))
                            },
                        },
                    }
                }
            },
        }
    }

    /// Closes the session over a failed handshake.
    fn fail(&mut self)
        ensures
            final(self)@ == (Session {
                lifecycle: Lifecycle::Closed,
                seen: Seq::empty(),
                ..old(self)@
            }),
    {
        self.lifecycle = Lifecycle::Closed;
        self.scan = ScanBuffer::new();
    }

    /// Puts the step of the handshake that is due behind the session.
    fn step(&mut self)
        ensures
            final(self)@ == stepped(
                Session { seen: Seq::empty(), ..old(self)@ },
            ),
    {
        self.scan = ScanBuffer::new();
        if self.negotiated >= HANDSHAKE_STEPS - 1 {
            self.lifecycle = Lifecycle::Ready;
            self.negotiated = HANDSHAKE_STEPS;
        } else {
            self.negotiated = self.negotiated + 1;
        }
    }

    /// Set a timeout for evaluations.
    ///
    /// By default, no timeout is set. The timeout bounds each wait of the
    /// evaluations that start after this call.
    ///
    /// When an evaluation times out, the session must be closed: the
    /// evaluator may still be busy with the evaluation, and the session
    /// refuses to start another.
    #[inline]
    pub fn set_timeout(&mut self, timeout: Option<Duration>)
        ensures
            final(self)@ == (Session { timeout, ..old(self)@ }),
    {
        self.timeout = timeout;
    }

    /// Evaluate/run a statement: starts the evaluation that the driver
    /// then carries through with [`Ghci::advance`].
    ///
    /// # Errors
    ///
    /// - Returns a [`Timeout`] if an earlier evaluation timed out.
    /// - Returns an [`IOError`] of the kind "invalid input" if the session
    ///   is negotiating, has an evaluation in flight, or is closed.
    ///
    /// [`Timeout`]: GhciError::Timeout
    /// [`IOError`]: GhciError::IOError
    pub fn eval(&mut self, input: &str) -> (result: Result<Evaluation, GhciError>)
        ensures
            starts(old(self)@, input@, final(self)@, result),
    {
        match self.lifecycle {
            Lifecycle::Ready => {
                let bound = match self.timeout {
                    Some(duration) => wait_bound(Some(as_millis(&duration))),
                    None => wait_bound(None),
                };
                self.lifecycle = Lifecycle::Evaluating;
                Ok(Evaluation::new(input, bound))
            },
            Lifecycle::TimedOut => Err(GhciError::Timeout),
            _ => Err(GhciError::IOError(invalid_input())),
        }
    }

    /// Import multiple modules: starts the evaluation of the command that
    /// brings them into scope.
    ///
    /// # Errors
    ///
    /// Same as [`Ghci::eval`]
    #[inline]
    pub fn import(&mut self, modules: &[&str]) -> (result: Result<Evaluation, GhciError>)
        ensures
            starts(old(self)@, module_command(texts(modules@)), final(self)@, result),
    {
        let line = import_command(modules);
        self.eval(line.as_str())
    }

    /// Load multiple modules by file path: starts the evaluation of the
    /// command that loads them. Each path is given as the text that
    /// displays it.
    ///
    /// # Errors
    ///
    /// Same as [`Ghci::eval`]
    #[inline]
    pub fn load(&mut self, paths: &[&str]) -> (result: Result<Evaluation, GhciError>)
        ensures
            starts(old(self)@, file_command(texts(paths@)), final(self)@, result),
    {
        let line = load_command(paths);
        self.eval(line.as_str())
    }

    /// Takes in one event for the evaluation `run` that this session has in
    /// flight, and notes how the evaluation ended once it has.
    pub fn advance(&mut self, run: Evaluation, event: Event) -> (next: Progress)
        ensures
            next@ == step(run@, event@),
            final(self)@ == settled(old(self)@, next@),
    {
        let next = run.advance(event);
        if matches!(self.lifecycle, Lifecycle::Evaluating) {
            match &next {
                Progress::Pending(_) => {},
                Progress::Finished(Err(GhciError::Timeout)) => {
                    self.lifecycle = Lifecycle::TimedOut;
                },
                Progress::Finished(_) => {
                    self.lifecycle = Lifecycle::Ready;
                },
            }
        }
        next
    }

    /// Close the session. `exited` tells whether the child process has
    /// exited already; where it has not, the driver now has to terminate
    /// it.
    ///
    /// # Errors
    ///
    /// If the child process has already exited an [`IOError`] of the kind
    /// "invalid input" is returned.
    ///
    /// [`IOError`]: GhciError::IOError
    #[inline]
    pub fn close(&mut self, exited: bool) -> (result: Result<(), GhciError>)
        ensures
            final(self)@ == moved(old(self)@, Lifecycle::Closed),
            exited ==> (result matches Err(GhciError::IOError(error)) && io_kind(error)
                == IoKind::InvalidInput),
            !exited ==> result is Ok,
    {
        self.lifecycle = Lifecycle::Closed;
        if exited {
            Err(GhciError::IOError(invalid_input()))
        } else {
            Ok(())
        }
    }

    /// Ends a session that is dropped: tells whether the driver has to
    /// terminate the child process. `exited` is what is known of the child,
    /// `None` if its state could not be found out.
    ///
    /// A session that was closed has been dealt with, and a child that has
    /// exited needs nothing; any other child is to be terminated.
    pub fn release(&mut self, exited: Option<bool>) -> (kill: bool)
        ensures
            final(self)@ == moved(old(self)@, Lifecycle::Closed),
            kill == (old(self)@.lifecycle != Lifecycle::Closed && exited != Some(true)),
    {
        let open = !matches!(self.lifecycle, Lifecycle::Closed);
        self.lifecycle = Lifecycle::Closed;
        let gone = match exited {
            Some(gone) => gone,
            None => false,
        };
        open && !gone
    }
}

/// How an evaluation of `input` starts on `before`, leaving `after`.
///
/// On a ready session the evaluation starts from nothing gathered, with
/// its waits bounded by the session's timeout, and the session has it in
/// flight. Any other session refuses and stays as it is: with a timeout if
/// an evaluation timed out on it, else with an I/O error of the kind
/// "invalid input".
pub open spec fn starts(
    before: Session,
    input: Seq<char>,
    after: Session,
    result: Result<Evaluation, GhciError>,
) -> bool {
    match before.lifecycle {
        Lifecycle::Ready => {
            &&& result matches Ok(run)
            &&& run@ == fresh(input, wait_millis(before.timeout))
            &&& after == moved(before, Lifecycle::Evaluating)
        },
        Lifecycle::TimedOut => {
            &&& result == Err::<Evaluation, GhciError>(GhciError::Timeout)
            &&& after == before
        },
        _ => {
            &&& result matches Err(GhciError::IOError(error))
            &&& io_kind(error) == IoKind::InvalidInput
            &&& after == before
        },
    }
}

} // verus!
