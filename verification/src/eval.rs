//! One evaluation: the two output streams of the evaluator gathered into a
//! single sequence of requests and events, until the prompt marker ends the
//! response or the wait runs out.

use vstd::prelude::*;
use vstd::string::*;
use crate::error::GhciError;
use crate::framing::{frame, framed, marker, strip_marker};

verus! {

/// Result of an evaluation.
#[derive(Debug)]
#[non_exhaustive]
pub struct EvalOutput {
    /// What the evaluation wrote to standard output.
    pub stdout: String,
    /// What the evaluation wrote to standard error.
    pub stderr: String,
}

/// The text of an [`EvalOutput`].
pub struct Captured {
    pub stdout: Seq<char>,
    pub stderr: Seq<char>,
}

impl View for EvalOutput {
    type V = Captured;

    open spec fn view(&self) -> Captured {
        Captured { stdout: self.stdout@, stderr: self.stderr@ }
    }
}

/// What a readiness wait on the two streams reported.
#[derive(Clone, Copy, Debug)]
pub struct Readiness {
    /// How many of the two descriptors have something to report.
    pub ready: i32,
    /// Whether the error stream reported an event, if its flags were
    /// understood.
    pub stderr: Option<bool>,
    /// Whether the output stream reported an event, if its flags were
    /// understood.
    pub stdout: Option<bool>,
}

/// What the driver has to do next for an evaluation.
#[derive(Clone, Copy, Debug)]
pub enum Request<'a> {
    /// Write this text to the evaluator's input and flush it; answer with
    /// [`Event::Sent`].
    Send(&'a str),
    /// Wait until the error stream or the output stream is readable, for at
    /// most this many milliseconds, without end if negative; answer with
    /// [`Event::Polled`].
    Wait(i32),
    /// Read what the error stream holds, without blocking; answer with
    /// [`Event::Read`].
    ReadStderr,
    /// Read what the output stream holds, without blocking; answer with
    /// [`Event::Read`].
    ReadStdout,
}

/// What the driver reports back.
#[derive(Debug)]
pub enum Event {
    /// The outcome of writing the framed snippet.
    Sent(Result<(), std::io::Error>),
    /// The outcome of the readiness wait.
    Polled(Result<Readiness, nix::errno::Errno>),
    /// The outcome of reading a stream: the text that was there.
    Read(Result<String, std::io::Error>),
}

/// The meaning of an [`Event`]: text stands for strings.
pub enum Signal {
    Sent(Result<(), std::io::Error>),
    Polled(Result<Readiness, nix::errno::Errno>),
    Read(Result<Seq<char>, std::io::Error>),
}

impl View for Event {
    type V = Signal;

    open spec fn view(&self) -> Signal {
        match *self {
            Event::Sent(sent) => Signal::Sent(sent),
            Event::Polled(polled) => Signal::Polled(polled),
            Event::Read(Ok(text)) => Signal::Read(Ok(text@)),
            Event::Read(Err(error)) => Signal::Read(Err(error)),
        }
    }
}

/// Where an evaluation stands.
#[derive(Clone, Copy, Debug, PartialEq, Eq, Structural)]
pub enum Stage {
    /// The framed snippet is to be written.
    Send,
    /// The streams are to be waited on.
    Wait,
    /// The error stream is to be read, and after it the output stream if
    /// `then_stdout` holds.
    ReadStderr { then_stdout: bool },
    /// The output stream is to be read.
    ReadStdout,
}

/// The meaning of an [`Evaluation`].
pub struct Run {
    /// Where the evaluation stands.
    pub stage: Stage,
    /// The framed snippet.
    pub request: Seq<char>,
    /// The bound of every wait, in milliseconds; negative for none.
    pub timeout: i32,
    /// The output gathered so far.
    pub stdout: Seq<char>,
    /// The error output gathered so far.
    pub stderr: Seq<char>,
}

/// The meaning of a [`Progress`].
pub enum Outcome {
    Pending(Run),
    Finished(Result<Captured, GhciError>),
}

/// An evaluation of `snippet` that has done nothing yet.
pub open spec fn fresh(snippet: Seq<char>, timeout: i32) -> Run {
    Run {
        stage: Stage::Send,
        request: framed(snippet),
        timeout,
        stdout: Seq::empty(),
        stderr: Seq::empty(),
    }
}

/// `run` moved to `stage`.
pub open spec fn at(run: Run, stage: Stage) -> Run {
    Run { stage, ..run }
}

/// What one event does to an evaluation.
///
/// - A failed write, wait or read ends the evaluation with that failure.
/// - A wait that reports nothing ready ends it with a timeout.
/// - After a wait the error stream is read if it was reported, then the
///   output stream if it was reported; what is read is appended to what
///   was gathered from that stream.
/// - When the output gathered ends with the prompt marker after a read of
///   the output stream, the evaluation ends with the output, the marker
///   taken off.
/// - An event that does not answer the pending request changes nothing.
pub open spec fn step(run: Run, signal: Signal) -> Outcome {
    match (run.stage, signal) {
        (Stage::Send, Signal::Sent(Ok(_))) => Outcome::Pending(at(run, Stage::Wait)),
        (Stage::Send, Signal::Sent(Err(error))) => Outcome::Finished(
            Err(GhciError::IOError(error)),
        ),
        (Stage::Wait, Signal::Polled(Err(errno))) => Outcome::Finished(
            Err(GhciError::PollError(errno)),
        ),
        (Stage::Wait, Signal::Polled(Ok(readiness))) => if readiness.ready == 0 {
            Outcome::Finished(Err(GhciError::Timeout))
        } else if readiness.stderr == Some(true) {
            Outcome::Pending(
                at(run, Stage::ReadStderr { then_stdout: readiness.stdout == Some(true) }),
            )
        } else if readiness.stdout == Some(true) {
            Outcome::Pending(at(run, Stage::ReadStdout))
        } else {
            Outcome::Pending(run)
        },
        (Stage::ReadStderr { then_stdout }, Signal::Read(Ok(text))) => Outcome::Pending(
            Run {
                stage: if then_stdout {
                    Stage::ReadStdout
                } else {
                    Stage::Wait
                },
                stderr: run.stderr + text,
                ..run
            },
        ),
        (Stage::ReadStdout, Signal::Read(Ok(text))) => if marker().is_suffix_of(
            run.stdout + text,
        ) {
            Outcome::Finished(
                Ok(
                    Captured {
                        stdout: (run.stdout + text).subrange(
                            0,
                            (run.stdout + text).len() - marker().len(),
                        ),
                        stderr: run.stderr,
                    },
                ),
            )
        } else {
            Outcome::Pending(Run { stage: Stage::Wait, stdout: run.stdout + text, ..run })
        },
        (Stage::ReadStderr { .. }, Signal::Read(Err(error))) => Outcome::Finished(
            Err(GhciError::IOError(error)),
        ),
        (Stage::ReadStdout, Signal::Read(Err(error))) => Outcome::Finished(
            Err(GhciError::IOError(error)),
        ),
        _ => Outcome::Pending(run),
    }
}

/// An evaluation in flight. It owns what has been gathered from the two
/// streams, so nothing gathered outlives the evaluation.
#[derive(Debug)]
pub struct Evaluation {
    stage: Stage,
    request: String,
    timeout: i32,
    stdout: String,
    stderr: String,
}

impl View for Evaluation {
    type V = Run;

    closed spec fn view(&self) -> Run {
        Run {
            stage: self.stage,
            request: self.request@,
            timeout: self.timeout,
            stdout: self.stdout@,
            stderr: self.stderr@,
        }
    }
}

/// How an evaluation goes on after an event.
#[derive(Debug)]
pub enum Progress {
    /// The evaluation has a new request for the driver.
    Pending(Evaluation),
    /// The evaluation is over, with this result.
    Finished(Result<EvalOutput, GhciError>),
}

impl View for Progress {
    type V = Outcome;

    open spec fn view(&self) -> Outcome {
        match *self {
            Progress::Pending(run) => Outcome::Pending(run@),
            Progress::Finished(Ok(output)) => Outcome::Finished(Ok(output@)),
            Progress::Finished(Err(error)) => Outcome::Finished(Err(error)),
        }
    }
}

impl Evaluation {
    /// Starts an evaluation of `snippet` whose waits are bounded by
    /// `timeout` milliseconds, or unbounded if `timeout` is negative.
    pub fn new(snippet: &str, timeout: i32) -> (run: Evaluation)
        ensures
            run@ == fresh(snippet@, timeout),
    {
        Evaluation {
            stage: Stage::Send,
            request: frame(snippet),
            timeout,
            stdout: String::new(),
            stderr: String::new(),
        }
    }

    /// What the driver has to do next.
    pub fn request(&self) -> (request: Request<'_>)
        ensures
            match self@.stage {
                Stage::Send => request matches Request::Send(text) && text@ == self@.request,
                Stage::Wait => request matches Request::Wait(timeout) && timeout
                    == self@.timeout,
                Stage::ReadStderr { .. } => request is ReadStderr,
                Stage::ReadStdout => request is ReadStdout,
            },
    {
        match self.stage {
            Stage::Send => Request::Send(self.request.as_str()),
            Stage::Wait => Request::Wait(self.timeout),
            Stage::ReadStderr { .. } => Request::ReadStderr,
            Stage::ReadStdout => Request::ReadStdout,
        }
    }

    /// Takes in one event.
    pub fn advance(self, event: Event) -> (next: Progress)
        ensures
            next@ == step(self@, event@),
    {
        let Evaluation { stage, request, timeout, stdout, stderr } = self;
        match (stage, event) {
            (Stage::Send, Event::Sent(Ok(_))) => Progress::Pending(
                Evaluation { stage: Stage::Wait, request, timeout, stdout, stderr },
            ),
            (Stage::Send, Event::Sent(Err(error))) => Progress::Finished(
                Err(GhciError::IOError(error)),
            ),
            (Stage::Wait, Event::Polled(Err(errno))) => Progress::Finished(
                Err(GhciError::PollError(errno)),
            ),
            (Stage::Wait, Event::Polled(Ok(readiness))) => {
                if readiness.ready == 0 {
                    Progress::Finished(Err(GhciError::Timeout))
                } else {
                    let then_stdout = is_set(readiness.stdout);
                    let next = if is_set(readiness.stderr) {
                        Stage::ReadStderr { then_stdout }
                    } else if then_stdout {
                        Stage::ReadStdout
                    } else {
                        Stage::Wait
                    };
                    Progress::Pending(Evaluation { stage: next, request, timeout, stdout, stderr })
                }
            },
            (Stage::ReadStderr { then_stdout }, Event::Read(Ok(text))) => {
                let mut stderr = stderr;
                stderr.append(text.as_str());
                let next = if then_stdout {
                    Stage::ReadStdout
                } else {
                    Stage::Wait
                };
                Progress::Pending(Evaluation { stage: next, request, timeout, stdout, stderr })
            },
            (Stage::ReadStdout, Event::Read(Ok(text))) => {
                let mut stdout = stdout;
                stdout.append(text.as_str());
                let ghost gathered = stdout@;
                if strip_marker(&mut stdout) {
                    assert(stdout@ =~= gathered.subrange(0, gathered.len() - marker().len()));
                    Progress::Finished(Ok(EvalOutput { stdout, stderr }))
                } else {
                    Progress::Pending(
                        Evaluation { stage: Stage::Wait, request, timeout, stdout, stderr },
                    )
                }
            },
            (Stage::ReadStderr { .. }, Event::Read(Err(error))) => Progress::Finished(
                Err(GhciError::IOError(error)),
            ),
            (Stage::ReadStdout, Event::Read(Err(error))) => Progress::Finished(
                Err(GhciError::IOError(error)),
            ),
            (stage, _) => Progress::Pending(
                Evaluation { stage, request, timeout, stdout, stderr },
            ),
        }
    }
}

/// Whether a flag is known and set.
fn is_set(flag: Option<bool>) -> (set: bool)
    ensures
        set == (flag == Some(true)),
{
    match flag {
        Some(set) => set,
        None => false,
    }
}

} // verus!
