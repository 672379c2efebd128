//! One pane that has the terminal to itself, without server and client: what its event loop
//! does, and when.

use vstd::prelude::*;

use crate::server::poll::{is_readable, readable};

verus! {

/// What the loop does next.
#[derive(Debug, PartialEq, Eq)]
pub enum StandaloneStep<E> {
    /// See whether the terminal was resized.
    Check,
    /// Give the pane the terminal's new size.
    Resize,
    /// Draw the pane at its new size.
    Redraw,
    /// Wait for keys or for output.
    Poll,
    /// Read what was typed. Says whether output waits behind it.
    ReadKeys(bool),
    /// Hand that many bytes to the shell. Says whether output waits behind it.
    WriteKeys(usize, bool),
    /// Drain the shell's output.
    Pump,
    /// Draw the pane.
    Draw,
    /// The loop is over.
    Quit,
    /// The loop is over, for this reason.
    Fail(E),
}

/// How a step ended. `E` is whatever a step fails with.
#[derive(Debug, PartialEq, Eq)]
pub enum StandaloneOutcome<E> {
    /// Whether the terminal was resized.
    Checked(bool),
    Resized,
    Redrawn,
    /// The flags that are reported of the keyboard and of the shell.
    Polled(Option<i16>, Option<i16>),
    /// A signal came in between (EINTR).
    Interrupted,
    /// So many bytes were typed. Says whether output waits behind them.
    KeysRead(usize, bool),
    /// The bytes are written. Says whether output waits behind them.
    KeysWritten(bool),
    /// Whether the shell still runs.
    Pumped(bool),
    Drawn,
    Failed(E),
}

/// What the loop does once the keys are dealt with: output, if there is any.
pub open spec fn after_keys<E>(shell: bool) -> StandaloneStep<E> {
    if shell {
        StandaloneStep::Pump
    } else {
        StandaloneStep::Check
    }
}

/// What follows from how a step ended. A resize is dealt with before the loop waits, keys
/// before output, and what was drained is drawn. The loop ends with the keyboard, with the
/// shell, or with an error; a signal only makes it look again.
pub open spec fn standalone_meaning<E>(outcome: StandaloneOutcome<E>) -> StandaloneStep<E> {
    match outcome {
        StandaloneOutcome::Checked(resized) => if resized {
            StandaloneStep::Resize
        } else {
            StandaloneStep::Poll
        },
        StandaloneOutcome::Resized => StandaloneStep::Redraw,
        StandaloneOutcome::Redrawn => StandaloneStep::Poll,
        StandaloneOutcome::Polled(keys, shell) => if is_readable(keys) {
            StandaloneStep::ReadKeys(is_readable(shell))
        } else {
            after_keys(is_readable(shell))
        },
        StandaloneOutcome::Interrupted => StandaloneStep::Check,
        StandaloneOutcome::KeysRead(n, shell) => if n == 0 {
            StandaloneStep::Quit
        } else {
            StandaloneStep::WriteKeys(n, shell)
        },
        StandaloneOutcome::KeysWritten(shell) => after_keys(shell),
        StandaloneOutcome::Pumped(alive) => if alive {
            StandaloneStep::Draw
        } else {
            StandaloneStep::Quit
        },
        StandaloneOutcome::Drawn => StandaloneStep::Check,
        StandaloneOutcome::Failed(e) => StandaloneStep::Fail(e),
    }
}

fn next_after_keys<E>(shell: bool) -> (r: StandaloneStep<E>)
    ensures
        r == after_keys::<E>(shell),
{
    if shell {
        StandaloneStep::Pump
    } else {
        StandaloneStep::Check
    }
}

/// The step that follows on how the last one ended. The loop starts with `Check`.
pub fn standalone_step<E>(outcome: StandaloneOutcome<E>) -> (r: StandaloneStep<E>)
    ensures
        r == standalone_meaning(outcome),
{
    match outcome {
        StandaloneOutcome::Checked(resized) => if resized {
            StandaloneStep::Resize
        } else {
            StandaloneStep::Poll
        },
        StandaloneOutcome::Resized => StandaloneStep::Redraw,
        StandaloneOutcome::Redrawn => StandaloneStep::Poll,
        StandaloneOutcome::Polled(keys, shell) => {
            let shell_ready: bool = readable(shell);
            if readable(keys) {
                StandaloneStep::ReadKeys(shell_ready)
            } else {
                next_after_keys(shell_ready)
            }
        },
        StandaloneOutcome::Interrupted => StandaloneStep::Check,
        StandaloneOutcome::KeysRead(n, shell) => if n == 0 {
            StandaloneStep::Quit  // the keyboard is closed
        } else {
            StandaloneStep::WriteKeys(n, shell)
        },
        StandaloneOutcome::KeysWritten(shell) => next_after_keys(shell),
        StandaloneOutcome::Pumped(alive) => if alive {
            StandaloneStep::Draw
        } else {
            StandaloneStep::Quit  // shell exited
        },
        StandaloneOutcome::Drawn => StandaloneStep::Check,
        StandaloneOutcome::Failed(e) => StandaloneStep::Fail(e),
    }
}

/// Whether an outcome is one that a step can have.
pub open spec fn can_follow<E>(step: StandaloneStep<E>, outcome: StandaloneOutcome<E>) -> bool {
    match step {
        StandaloneStep::Check => outcome is Checked,
        StandaloneStep::Resize => outcome is Resized || outcome is Failed,
        StandaloneStep::Redraw => outcome is Redrawn || outcome is Failed,
        StandaloneStep::Poll => outcome is Polled || outcome is Interrupted || outcome is Failed,
        StandaloneStep::ReadKeys(shell) => match outcome {
            StandaloneOutcome::KeysRead(_, s) => s == shell,
            _ => outcome is Failed,
        },
        StandaloneStep::WriteKeys(_, shell) => outcome is Failed || outcome
            == StandaloneOutcome::<E>::KeysWritten(shell),
        StandaloneStep::Pump => outcome is Pumped || outcome is Failed,
        StandaloneStep::Draw => outcome is Drawn || outcome is Failed,
        StandaloneStep::Quit => false,
        StandaloneStep::Fail(_) => false,
    }
}

/// Whether `steps` is a run of the loop with these outcomes.
pub open spec fn is_run<E>(
    steps: Seq<StandaloneStep<E>>,
    outcomes: Seq<StandaloneOutcome<E>>,
) -> bool {
    &&& steps.len() == outcomes.len() + 1
    &&& steps[0] is Check
    &&& forall|i: int| #![trigger outcomes[i]]
        0 <= i < outcomes.len() ==> can_follow(steps[i], outcomes[i]) && steps[i + 1]
            == standalone_meaning(outcomes[i])
}

/// Output that is reported together with keys is not forgotten: once the keys are read and
/// written it is drained, and then drawn.
pub proof fn law_output_behind_keys_is_drained<E>(
    steps: Seq<StandaloneStep<E>>,
    outcomes: Seq<StandaloneOutcome<E>>,
    i: int,
)
    requires
        is_run(steps, outcomes),
        0 <= i,
        i + 3 < outcomes.len(),
        outcomes[i] matches StandaloneOutcome::Polled(keys, shell) && is_readable(keys)
            && is_readable(shell),
        !(steps[i + 2] is Quit) && !(steps[i + 2] is Fail),
        !(steps[i + 3] is Fail),
        !(steps[i + 4] is Quit) && !(steps[i + 4] is Fail),
    ensures
        steps[i + 1] is ReadKeys,
        steps[i + 2] is WriteKeys,
        steps[i + 3] is Pump,
        steps[i + 4] is Draw,
{
    assert(can_follow(steps[i], outcomes[i]));
    assert(can_follow(steps[i + 1], outcomes[i + 1]));
    assert(can_follow(steps[i + 2], outcomes[i + 2]));
    assert(can_follow(steps[i + 3], outcomes[i + 3]));
}

/// The loop never waits with a resize that it has seen but not dealt with, nor with output
/// that it has drained but not drawn: it waits only right after a look that found the
/// terminal as it was, or after a redraw.
pub proof fn law_waits_with_nothing_left_to_do<E>(
    steps: Seq<StandaloneStep<E>>,
    outcomes: Seq<StandaloneOutcome<E>>,
    i: int,
)
    requires
        is_run(steps, outcomes),
        0 < i < steps.len(),
        steps[i] is Poll,
    ensures
        outcomes[i - 1] == StandaloneOutcome::<E>::Checked(false) || outcomes[i - 1] is Redrawn,
        outcomes[i - 1] is Redrawn ==> i >= 3 && outcomes[i - 2] is Resized && outcomes[i - 3]
            == StandaloneOutcome::<E>::Checked(true),
{
    assert(can_follow(steps[i - 1], outcomes[i - 1]));
    if outcomes[i - 1] is Redrawn {
        assert(steps[i - 1] is Redraw);
        assert(i - 1 > 0);
        assert(can_follow(steps[i - 2], outcomes[i - 2]));
        assert(outcomes[i - 2] is Resized);
        assert(steps[i - 2] is Resize);
        assert(i - 2 > 0);
        assert(can_follow(steps[i - 3], outcomes[i - 3]));
    }
}

/// The loop ends only with the keyboard, with the shell, or with an error that a step has
/// failed with.
pub proof fn law_loop_ends_for_a_reason<E>(outcome: StandaloneOutcome<E>)
    ensures
        standalone_meaning(outcome) is Quit <==> (outcome matches
            StandaloneOutcome::KeysRead(n, _) && n == 0) || outcome
            == StandaloneOutcome::<E>::Pumped(false),
        standalone_meaning(outcome) is Fail <==> outcome is Failed,
        outcome matches StandaloneOutcome::Failed(e) ==> standalone_meaning(outcome)
            == StandaloneStep::Fail(e),
{
}

} // verus!
