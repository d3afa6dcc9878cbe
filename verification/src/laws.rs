//! What holds of every evaluation, whatever the evaluator writes and
//! however its output is cut into reads.

use vstd::prelude::*;
use vstd::utf8::encode_utf8;
use crate::error::GhciError;
use crate::eval::{fresh, step, Captured, Evaluation, Outcome, Readiness, Run, Signal, Stage};
use crate::framing::{continuation_command, marker, prompt_command, DEFAULT_PROMPT_END};
use crate::scan::SCAN_LIMIT;
use crate::session::{
    answered,
    moved,
    script,
    settled,
    starts,
    wait_millis,
    Lifecycle,
    Reply,
    Script,
    Session,
};

verus! {

/// Where `run` has got to once the driver has reported `signals`, one after
/// the other. What is reported after the end of the evaluation is not
/// looked at.
pub open spec fn carried(run: Run, signals: Seq<Signal>) -> Outcome
    decreases signals.len(),
{
    if signals.len() == 0 {
        Outcome::Pending(run)
    } else {
        match step(run, signals[0]) {
            Outcome::Pending(next) => carried(next, signals.drop_first()),
            Outcome::Finished(result) => Outcome::Finished(result),
        }
    }
}

/// What became readable between two waits: on the error stream, on the
/// output stream, on both, or on neither before the wait ran out.
pub struct Round {
    pub stderr: Option<Seq<char>>,
    pub stdout: Option<Seq<char>>,
}

/// The text of an optional read.
pub open spec fn text_of(read: Option<Seq<char>>) -> Seq<char> {
    match read {
        Some(text) => text,
        None => Seq::empty(),
    }
}

/// What the driver reports for a read, if the stream was readable.
pub open spec fn read_of(read: Option<Seq<char>>) -> Seq<Signal> {
    match read {
        Some(text) => seq![Signal::Read(Ok(text))],
        None => Seq::empty(),
    }
}

/// What a readiness wait reports for `round`.
pub open spec fn readiness(round: Round) -> Readiness {
    Readiness {
        ready: if round.stderr is Some && round.stdout is Some {
            2i32
        } else if round.stderr is Some || round.stdout is Some {
            1i32
        } else {
            0i32
        },
        stderr: Some(round.stderr is Some),
        stdout: Some(round.stdout is Some),
    }
}

/// What the driver reports for `round`: the wait, then the read of the
/// error stream if it was readable, then that of the output stream if it
/// was.
pub open spec fn round_signals(round: Round) -> Seq<Signal> {
    seq![Signal::Polled(Ok(readiness(round)))] + read_of(round.stderr) + read_of(round.stdout)
}

/// What the driver reports for `rounds`, one after the other.
pub open spec fn signals(rounds: Seq<Round>) -> Seq<Signal>
    decreases rounds.len(),
{
    if rounds.len() == 0 {
        Seq::empty()
    } else {
        round_signals(rounds[0]) + signals(rounds.drop_first())
    }
}

/// Everything that `rounds` made readable on the output stream.
pub open spec fn stdout_of(rounds: Seq<Round>) -> Seq<char>
    decreases rounds.len(),
{
    if rounds.len() == 0 {
        Seq::empty()
    } else {
        text_of(rounds[0].stdout) + stdout_of(rounds.drop_first())
    }
}

/// Everything that `rounds` made readable on the error stream.
pub open spec fn stderr_of(rounds: Seq<Round>) -> Seq<char>
    decreases rounds.len(),
{
    if rounds.len() == 0 {
        Seq::empty()
    } else {
        text_of(rounds[0].stderr) + stderr_of(rounds.drop_first())
    }
}

/// No read of the output stream in `rounds` leaves the output, which
/// began as `gathered`, ending with the prompt marker.
pub open spec fn marker_absent(gathered: Seq<char>, rounds: Seq<Round>) -> bool {
    forall|k: int|
        0 < k <= rounds.len() && rounds[k - 1].stdout is Some ==> !marker().is_suffix_of(
            gathered + #[trigger] stdout_of(rounds.take(k)),
        )
}

/// Every one of `rounds` made something readable.
pub open spec fn all_readable(rounds: Seq<Round>) -> bool {
    forall|k: int|
        0 <= k < rounds.len() ==> ((#[trigger] rounds[k]).stderr is Some || rounds[k].stdout
            is Some)
}

/// `rounds` is a whole response: every round made something readable, and
/// the last read of the output stream, in the last round, is the first to
/// leave the output ending with the prompt marker.
pub open spec fn response(gathered: Seq<char>, rounds: Seq<Round>) -> bool {
    &&& rounds.len() > 0
    &&& all_readable(rounds)
    &&& marker_absent(gathered, rounds.drop_last())
    &&& rounds.last().stdout is Some
    &&& marker().is_suffix_of(gathered + stdout_of(rounds))
}

/// `text` without the prompt marker that it ends with.
pub open spec fn unmarked(text: Seq<char>) -> Seq<char> {
    text.subrange(0, text.len() - marker().len())
}

proof fn lemma_carried_concat(run: Run, first: Seq<Signal>, second: Seq<Signal>)
    ensures
        carried(run, first + second) == match carried(run, first) {
            Outcome::Pending(next) => carried(next, second),
            Outcome::Finished(result) => Outcome::Finished(result),
        },
    decreases first.len(),
{
    if first.len() == 0 {
        assert(first + second =~= second);
    } else {
        assert((first + second)[0] == first[0]);
        assert((first + second).drop_first() =~= first.drop_first() + second);
        match step(run, first[0]) {
            Outcome::Pending(next) => lemma_carried_concat(next, first.drop_first(), second),
            Outcome::Finished(_) => {},
        }
    }
}

proof fn lemma_round(run: Run, round: Round)
    requires
        run.stage == Stage::Wait,
    ensures
        carried(run, round_signals(round)) == if round.stderr is None && round.stdout is None {
            Outcome::Finished(Err(GhciError::Timeout))
        } else if round.stdout is Some && marker().is_suffix_of(
            run.stdout + text_of(round.stdout),
        ) {
            Outcome::Finished(
                Ok(
                    Captured {
                        stdout: unmarked(run.stdout + text_of(round.stdout)),
                        stderr: run.stderr + text_of(round.stderr),
                    },
                ),
            )
        } else {
            Outcome::Pending(
                Run {
                    stdout: run.stdout + text_of(round.stdout),
                    stderr: run.stderr + text_of(round.stderr),
                    ..run
                },
            )
        },
{
    reveal_with_fuel(carried, 4);
    let all = round_signals(round);
    let polled = Signal::Polled(Ok(readiness(round)));
    assert(all[0] == polled);
    match (round.stderr, round.stdout) {
        (None, None) => {},
        (Some(errors), None) => {
            assert(all =~= seq![polled, Signal::Read(Ok(errors))]);
            assert(all.drop_first() =~= seq![Signal::Read(Ok(errors))]);
            assert(all.drop_first().drop_first() =~= Seq::<Signal>::empty());
            assert(run.stdout + text_of(round.stdout) =~= run.stdout);
        },
        (None, Some(output)) => {
            assert(all =~= seq![polled, Signal::Read(Ok(output))]);
            assert(all.drop_first() =~= seq![Signal::Read(Ok(output))]);
            assert(all.drop_first().drop_first() =~= Seq::<Signal>::empty());
            assert(run.stderr + text_of(round.stderr) =~= run.stderr);
        },
        (Some(errors), Some(output)) => {
            assert(all =~= seq![polled, Signal::Read(Ok(errors)), Signal::Read(Ok(output))]);
            assert(all.drop_first() =~= seq![Signal::Read(Ok(errors)), Signal::Read(Ok(output))]);
            assert(all.drop_first().drop_first() =~= seq![Signal::Read(Ok(output))]);
            assert(all.drop_first().drop_first().drop_first() =~= Seq::<Signal>::empty());
        },
    }
}

proof fn lemma_stdout_of_take(rounds: Seq<Round>, k: int)
    requires
        0 < k <= rounds.len(),
    ensures
        stdout_of(rounds.take(k)) == text_of(rounds[0].stdout) + stdout_of(
            rounds.drop_first().take(k - 1),
        ),
{
    assert(rounds.take(k).drop_first() =~= rounds.drop_first().take(k - 1));
}

proof fn lemma_marker_absent_rest(gathered: Seq<char>, rounds: Seq<Round>)
    requires
        rounds.len() > 0,
        marker_absent(gathered, rounds),
    ensures
        marker_absent(gathered + text_of(rounds[0].stdout), rounds.drop_first()),
        rounds[0].stdout is Some ==> !marker().is_suffix_of(gathered + text_of(rounds[0].stdout)),
{
    let rest = rounds.drop_first();
    let first = text_of(rounds[0].stdout);
    assert forall|k: int| 0 < k <= rest.len() && rest[k - 1].stdout is Some implies !marker().is_suffix_of(
        gathered + first + #[trigger] stdout_of(rest.take(k)),
    ) by {
        lemma_stdout_of_take(rounds, k + 1);
        assert(rounds[k + 1 - 1] == rest[k - 1]);
        assert(gathered + stdout_of(rounds.take(k + 1)) =~= gathered + first + stdout_of(
            rest.take(k),
        ));
    }
    if rounds[0].stdout is Some {
        lemma_stdout_of_take(rounds, 1);
        assert(rounds.drop_first().take(0) =~= Seq::<Round>::empty());
        assert(gathered + stdout_of(rounds.take(1)) =~= gathered + first);
    }
}

proof fn lemma_pending_rounds(run: Run, rounds: Seq<Round>)
    requires
        run.stage == Stage::Wait,
        all_readable(rounds),
        marker_absent(run.stdout, rounds),
    ensures
        carried(run, signals(rounds)) == Outcome::Pending(
            Run {
                stdout: run.stdout + stdout_of(rounds),
                stderr: run.stderr + stderr_of(rounds),
                ..run
            },
        ),
    decreases rounds.len(),
{
    if rounds.len() == 0 {
        assert(run.stdout + stdout_of(rounds) =~= run.stdout);
        assert(run.stderr + stderr_of(rounds) =~= run.stderr);
    } else {
        let first = rounds[0];
        let rest = rounds.drop_first();
        lemma_round(run, first);
        lemma_marker_absent_rest(run.stdout, rounds);
        let next = Run {
            stdout: run.stdout + text_of(first.stdout),
            stderr: run.stderr + text_of(first.stderr),
            ..run
        };
        assert(all_readable(rest)) by {
            assert forall|k: int| 0 <= k < rest.len() implies ((#[trigger] rest[k]).stderr is Some
                || rest[k].stdout is Some) by {
                assert(rest[k] == rounds[k + 1]);
            }
        }
        lemma_pending_rounds(next, rest);
        lemma_carried_concat(run, round_signals(first), signals(rest));
        assert(next.stdout + stdout_of(rest) =~= run.stdout + stdout_of(rounds));
        assert(next.stderr + stderr_of(rest) =~= run.stderr + stderr_of(rounds));
    }
}

proof fn lemma_signals_concat(first: Seq<Round>, second: Seq<Round>)
    ensures
        signals(first + second) == signals(first) + signals(second),
        stdout_of(first + second) == stdout_of(first) + stdout_of(second),
        stderr_of(first + second) == stderr_of(first) + stderr_of(second),
    decreases first.len(),
{
    if first.len() == 0 {
        assert(first + second =~= second);
        assert(signals(first) + signals(second) =~= signals(second));
        assert(stdout_of(first) + stdout_of(second) =~= stdout_of(second));
        assert(stderr_of(first) + stderr_of(second) =~= stderr_of(second));
    } else {
        lemma_signals_concat(first.drop_first(), second);
        assert((first + second)[0] == first[0]);
        assert((first + second).drop_first() =~= first.drop_first() + second);
        assert(signals(first + second) =~= signals(first) + signals(second));
        assert(stdout_of(first + second) =~= stdout_of(first) + stdout_of(second));
        assert(stderr_of(first + second) =~= stderr_of(first) + stderr_of(second));
    }
}

proof fn lemma_single(round: Round)
    ensures
        signals(seq![round]) == round_signals(round),
        stdout_of(seq![round]) == text_of(round.stdout),
        stderr_of(seq![round]) == text_of(round.stderr),
{
    reveal_with_fuel(signals, 2);
    reveal_with_fuel(stdout_of, 2);
    reveal_with_fuel(stderr_of, 2);
    let one = seq![round];
    assert(one.drop_first() =~= Seq::<Round>::empty());
    assert(signals(one) =~= round_signals(round));
    assert(stdout_of(one) =~= text_of(round.stdout));
    assert(stderr_of(one) =~= text_of(round.stderr));
}

/// The signals of a whole evaluation: the write, which succeeds, and then
/// what `rounds` bring.
pub open spec fn exchange(rounds: Seq<Round>) -> Seq<Signal> {
    seq![Signal::Sent(Ok(()))] + signals(rounds)
}

proof fn lemma_exchange(snippet: Seq<char>, timeout: i32, rounds: Seq<Round>)
    ensures
        carried(fresh(snippet, timeout), exchange(rounds)) == carried(
            Run { stage: Stage::Wait, ..fresh(snippet, timeout) },
            signals(rounds),
        ),
{
    let sent = seq![Signal::Sent(Ok(()))];
    reveal_with_fuel(carried, 2);
    assert(sent.drop_first() =~= Seq::<Signal>::empty());
    lemma_carried_concat(fresh(snippet, timeout), sent, signals(rounds));
}

/// Both streams are captured in full, each under its own name, however
/// the evaluator's writes fall into rounds: an evaluation whose rounds
/// form a whole response ends with everything that became readable on the
/// output stream, the prompt marker taken off, and everything that became
/// readable on the error stream. The result speaks of each stream's text
/// alone, so it is the same for every order in which the two streams
/// became readable.
pub proof fn law_streams_are_captured(snippet: Seq<char>, timeout: i32, rounds: Seq<Round>)
    requires
        response(Seq::empty(), rounds),
    ensures
        carried(fresh(snippet, timeout), exchange(rounds)) == Outcome::Finished(
            Ok(Captured { stdout: unmarked(stdout_of(rounds)), stderr: stderr_of(rounds) }),
        ),
{
    let start = Run { stage: Stage::Wait, ..fresh(snippet, timeout) };
    let before = rounds.drop_last();
    let last = rounds.last();
    lemma_exchange(snippet, timeout, rounds);
    assert(rounds =~= before + seq![last]);
    lemma_signals_concat(before, seq![last]);
    lemma_single(last);
    assert(all_readable(before)) by {
        assert forall|k: int| 0 <= k < before.len() implies ((#[trigger] before[k]).stderr
            is Some || before[k].stdout is Some) by {
            assert(before[k] == rounds[k]);
        }
    }
    lemma_pending_rounds(start, before);
    let middle = Run {
        stdout: start.stdout + stdout_of(before),
        stderr: start.stderr + stderr_of(before),
        ..start
    };
    lemma_round(middle, last);
    lemma_carried_concat(start, signals(before), round_signals(last));
    assert(middle.stdout + text_of(last.stdout) =~= stdout_of(rounds));
    assert(middle.stderr + text_of(last.stderr) =~= stderr_of(rounds));
    assert(Seq::<char>::empty() + stdout_of(rounds) =~= stdout_of(rounds));
}

proof fn lemma_no_errors(rounds: Seq<Round>)
    requires
        forall|k: int| 0 <= k < rounds.len() ==> (#[trigger] rounds[k]).stderr is None,
    ensures
        stderr_of(rounds) == Seq::<char>::empty(),
    decreases rounds.len(),
{
    if rounds.len() > 0 {
        let rest = rounds.drop_first();
        assert forall|k: int| 0 <= k < rest.len() implies (#[trigger] rest[k]).stderr is None by {
            assert(rest[k] == rounds[k + 1]);
        }
        lemma_no_errors(rest);
        assert(rounds[0].stderr is None);
        assert(stderr_of(rounds) =~= Seq::<char>::empty());
    }
}

/// An evaluation that writes to standard output alone gives back exactly
/// the text written, and no error text: where nothing becomes readable on
/// the error stream and the output stream brings `text` and then the
/// prompt marker, the evaluation ends with `text` as its output and with
/// empty error output.
pub proof fn law_output_alone_is_exact(
    snippet: Seq<char>,
    timeout: i32,
    rounds: Seq<Round>,
    text: Seq<char>,
)
    requires
        response(Seq::empty(), rounds),
        forall|k: int| 0 <= k < rounds.len() ==> (#[trigger] rounds[k]).stderr is None,
        stdout_of(rounds) == text + marker(),
    ensures
        carried(fresh(snippet, timeout), exchange(rounds)) == Outcome::Finished(
            Ok(Captured { stdout: text, stderr: Seq::empty() }),
        ),
{
    law_streams_are_captured(snippet, timeout, rounds);
    lemma_no_errors(rounds);
    assert(unmarked(text + marker()) =~= text);
}

/// A wait that runs out ends the evaluation with a timeout: where the
/// rounds so far have not brought the prompt marker and nothing becomes
/// readable in the next, the evaluation ends with [`GhciError::Timeout`].
pub proof fn law_silence_times_out(snippet: Seq<char>, timeout: i32, rounds: Seq<Round>)
    requires
        all_readable(rounds),
        marker_absent(Seq::empty(), rounds),
    ensures
        carried(
            fresh(snippet, timeout),
            exchange(rounds + seq![Round { stderr: None, stdout: None }]),
        ) == Outcome::Finished(Err(GhciError::Timeout)),
{
    let start = Run { stage: Stage::Wait, ..fresh(snippet, timeout) };
    let silent = Round { stderr: None, stdout: None };
    lemma_exchange(snippet, timeout, rounds + seq![silent]);
    lemma_signals_concat(rounds, seq![silent]);
    lemma_single(silent);
    lemma_pending_rounds(start, rounds);
    let middle = Run {
        stdout: start.stdout + stdout_of(rounds),
        stderr: start.stderr + stderr_of(rounds),
        ..start
    };
    lemma_round(middle, silent);
    lemma_carried_concat(start, signals(rounds), round_signals(silent));
}

/// What one event brings to an evaluation at `stage`: the text of a read
/// that answers the request for it, under the stream that was read.
pub open spec fn brought_by(stage: Stage, signal: Signal) -> Captured {
    match (stage, signal) {
        (Stage::ReadStdout, Signal::Read(Ok(text))) => Captured {
            stdout: text,
            stderr: Seq::empty(),
        },
        (Stage::ReadStderr { .. }, Signal::Read(Ok(text))) => Captured {
            stdout: Seq::empty(),
            stderr: text,
        },
        _ => Captured { stdout: Seq::empty(), stderr: Seq::empty() },
    }
}

/// What `signals` bring to `run` on each stream, up to the end of the
/// evaluation.
pub open spec fn brought(run: Run, signals: Seq<Signal>) -> Captured
    decreases signals.len(),
{
    if signals.len() == 0 {
        Captured { stdout: Seq::empty(), stderr: Seq::empty() }
    } else {
        let here = brought_by(run.stage, signals[0]);
        match step(run, signals[0]) {
            Outcome::Pending(next) => {
                let rest = brought(next, signals.drop_first());
                Captured { stdout: here.stdout + rest.stdout, stderr: here.stderr + rest.stderr }
            },
            Outcome::Finished(_) => here,
        }
    }
}

/// Whatever the driver reports, and in whatever order, an evaluation that
/// ends well gives back what its own reads brought and nothing else: its
/// output, with the prompt marker behind it, is what the reads of the
/// output stream brought, and its error output is what the reads of the
/// error stream brought, each behind what the evaluation had gathered at
/// the start.
pub proof fn law_output_is_what_was_read(run: Run, signals: Seq<Signal>)
    ensures
        carried(run, signals) matches Outcome::Finished(Ok(output)) ==> {
            &&& output.stdout + marker() == run.stdout + brought(run, signals).stdout
            &&& output.stderr == run.stderr + brought(run, signals).stderr
        },
    decreases signals.len(),
{
    if signals.len() > 0 {
        let here = brought_by(run.stage, signals[0]);
        match step(run, signals[0]) {
            Outcome::Pending(next) => {
                law_output_is_what_was_read(next, signals.drop_first());
                let rest = brought(next, signals.drop_first());
                assert(next.stdout =~= run.stdout + here.stdout);
                assert(next.stderr =~= run.stderr + here.stderr);
                if let Outcome::Finished(Ok(output)) = carried(run, signals) {
                    assert(output.stdout + marker() =~= run.stdout + brought(run, signals).stdout);
                    assert(output.stderr =~= run.stderr + brought(run, signals).stderr);
                }
            },
            Outcome::Finished(Ok(output)) => {
                assert(output.stdout + marker() =~= run.stdout + here.stdout);
                assert(output.stderr =~= run.stderr + here.stderr);
            },
            Outcome::Finished(Err(_)) => {},
        }
    }
}

/// An evaluation keeps what it started with: as long as it goes on, its
/// framed snippet and the bound of its waits are those it began with, so
/// a timeout set on the session later does not reach it.
pub proof fn law_bound_is_kept(run: Run, signals: Seq<Signal>)
    ensures
        carried(run, signals) matches Outcome::Pending(next) ==> next.timeout == run.timeout
            && next.request == run.request,
    decreases signals.len(),
{
    if signals.len() > 0 {
        match step(run, signals[0]) {
            Outcome::Pending(next) => law_bound_is_kept(next, signals.drop_first()),
            Outcome::Finished(_) => {},
        }
    }
}

/// A session with an evaluation in flight, and that evaluation, once the
/// driver has reported `signals` one after the other through
/// [`crate::Ghci::advance`], up to the end of the evaluation.
pub open spec fn driven(session: Session, run: Run, signals: Seq<Signal>) -> (Session, Outcome)
    decreases signals.len(),
{
    if signals.len() == 0 {
        (session, Outcome::Pending(run))
    } else {
        let outcome = step(run, signals[0]);
        match outcome {
            Outcome::Pending(next) => driven(
                settled(session, outcome),
                next,
                signals.drop_first(),
            ),
            Outcome::Finished(_) => (settled(session, outcome), outcome),
        }
    }
}

/// A ready session and the evaluation of `input` that it starts, once the
/// driver has reported `signals`.
pub open spec fn evaluated(session: Session, input: Seq<char>, signals: Seq<Signal>) -> (
    Session,
    Outcome,
) {
    driven(
        moved(session, Lifecycle::Evaluating),
        fresh(input, wait_millis(session.timeout)),
        signals,
    )
}

proof fn lemma_driven(session: Session, run: Run, signals: Seq<Signal>)
    ensures
        driven(session, run, signals) == (
            settled(session, carried(run, signals)),
            carried(run, signals),
        ),
    decreases signals.len(),
{
    if signals.len() > 0 {
        match step(run, signals[0]) {
            Outcome::Pending(next) => lemma_driven(session, next, signals.drop_first()),
            Outcome::Finished(_) => {},
        }
    }
}

/// Evaluations run one after the other do not leak into each other: an
/// evaluation that ends without a timeout leaves the session exactly as
/// it was before, so the evaluation after it starts from nothing gathered
/// and goes as it would have gone had the first never run.
pub proof fn law_evaluations_do_not_leak(
    session: Session,
    first: Seq<char>,
    first_signals: Seq<Signal>,
    second: Seq<char>,
    second_signals: Seq<Signal>,
)
    requires
        session.lifecycle == Lifecycle::Ready,
        evaluated(session, first, first_signals).1 matches Outcome::Finished(result) && result
            != Err::<Captured, GhciError>(GhciError::Timeout),
    ensures
        evaluated(session, first, first_signals).0 == session,
        evaluated(evaluated(session, first, first_signals).0, second, second_signals)
            == evaluated(session, second, second_signals),
        evaluated(session, second, second_signals).1 matches Outcome::Finished(Ok(output)) ==> {
            &&& output.stdout + marker() == brought(
                fresh(second, wait_millis(session.timeout)),
                second_signals,
            ).stdout
            &&& output.stderr == brought(
                fresh(second, wait_millis(session.timeout)),
                second_signals,
            ).stderr
        },
{
    let started = moved(session, Lifecycle::Evaluating);
    lemma_driven(started, fresh(first, wait_millis(session.timeout)), first_signals);
    let run = fresh(second, wait_millis(session.timeout));
    lemma_driven(started, run, second_signals);
    law_output_is_what_was_read(run, second_signals);
    if let Outcome::Finished(Ok(output)) = carried(run, second_signals) {
        assert(run.stdout + brought(run, second_signals).stdout =~= brought(
            run,
            second_signals,
        ).stdout);
        assert(run.stderr + brought(run, second_signals).stderr =~= brought(
            run,
            second_signals,
        ).stderr);
    }
}

/// A session on which an evaluation timed out is spent: it is left timed
/// out, and every evaluation asked of it afterwards is refused with
/// [`GhciError::Timeout`], the session staying as it is.
pub proof fn law_timed_out_session_is_spent(
    session: Session,
    input: Seq<char>,
    signals: Seq<Signal>,
    next_input: Seq<char>,
    after: Session,
    result: Result<Evaluation, GhciError>,
)
    requires
        session.lifecycle == Lifecycle::Ready,
        evaluated(session, input, signals).1 == Outcome::Finished(Err(GhciError::Timeout)),
        starts(evaluated(session, input, signals).0, next_input, after, result),
    ensures
        evaluated(session, input, signals).0 == moved(session, Lifecycle::TimedOut),
        result == Err::<Evaluation, GhciError>(GhciError::Timeout),
        after == evaluated(session, input, signals).0,
{
    lemma_driven(
        moved(session, Lifecycle::Evaluating),
        fresh(input, wait_millis(session.timeout)),
        signals,
    );
}

/// A session that has its handshake before it.
pub open spec fn unborn() -> Session {
    Session {
        lifecycle: Lifecycle::Initializing,
        negotiated: 0,
        seen: Seq::empty(),
        timeout: None,
    }
}

/// The handshake makes a session ready: where the evaluator's banner ends
/// with the prompt it starts with, and its answer to each of the two
/// commands ends with the prompt marker, a new session asks for the
/// command that installs the marker after the banner, for the command that
/// empties the continuation prompt after the first answer, and is ready
/// after the second.
pub proof fn law_handshake_ends_ready(banner: &[u8], installed: &[u8], cleared: &[u8])
    requires
        banner@.len() <= SCAN_LIMIT,
        installed@.len() <= SCAN_LIMIT,
        cleared@.len() <= SCAN_LIMIT,
        encode_utf8(DEFAULT_PROMPT_END@).is_suffix_of(banner@),
        encode_utf8(marker()).is_suffix_of(installed@),
        encode_utf8(marker()).is_suffix_of(cleared@),
    ensures
        ({
            let greeted = answered(unborn(), Reply::Read(Ok(banner)));
            let asked = answered(greeted, Reply::Sent(Ok(())));
            let marked = answered(asked, Reply::Read(Ok(installed)));
            let told = answered(marked, Reply::Sent(Ok(())));
            let done = answered(told, Reply::Read(Ok(cleared)));
            &&& greeted.lifecycle == Lifecycle::Initializing
            &&& script(greeted.negotiated) == Script::Send(prompt_command())
            &&& marked.lifecycle == Lifecycle::Initializing
            &&& script(marked.negotiated) == Script::Send(continuation_command())
            &&& told.lifecycle == Lifecycle::Initializing
            &&& done == moved(Session { negotiated: 5, ..unborn() }, Lifecycle::Ready)
        }),
{
    let empty = Seq::<u8>::empty();
    assert(empty + banner@ =~= banner@);
    assert(empty + installed@ =~= installed@);
    assert(empty + cleared@ =~= cleared@);
}

} // verus!
