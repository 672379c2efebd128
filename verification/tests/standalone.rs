use wisp_mux::standalone::{standalone_step, StandaloneOutcome, StandaloneStep};

type Outcome = StandaloneOutcome<&'static str>;

const IN: Option<i16> = Some(libc::POLLIN);

const QUIET: Option<i16> = Some(0);

/// The steps that follow on these outcomes.
fn steps(outcomes: Vec<Outcome>) -> Vec<StandaloneStep<&'static str>> {
    outcomes.into_iter().map(standalone_step).collect()
}

#[test]
fn a_resize_is_drawn_before_the_loop_waits() {
    assert_eq!(
        steps(vec![Outcome::Checked(true), Outcome::Resized, Outcome::Redrawn]),
        vec![StandaloneStep::Resize, StandaloneStep::Redraw, StandaloneStep::Poll]
    );
    assert_eq!(standalone_step(Outcome::Checked(false)), StandaloneStep::Poll);
}

#[test]
fn keys_come_before_output() {
    assert_eq!(
        steps(vec![
            Outcome::Polled(IN, Some(libc::POLLHUP)),
            Outcome::KeysRead(3, true),
            Outcome::KeysWritten(true),
            Outcome::Pumped(true),
            Outcome::Drawn,
        ]),
        vec![
            StandaloneStep::ReadKeys(true),
            StandaloneStep::WriteKeys(3, true),
            StandaloneStep::Pump,
            StandaloneStep::Draw,
            StandaloneStep::Check,
        ]
    );
}

#[test]
fn keys_or_output_may_come_alone() {
    assert_eq!(
        steps(vec![
            Outcome::Polled(IN, QUIET),
            Outcome::KeysRead(1, false),
            Outcome::KeysWritten(false),
        ]),
        vec![
            StandaloneStep::ReadKeys(false),
            StandaloneStep::WriteKeys(1, false),
            StandaloneStep::Check,
        ]
    );
    assert_eq!(standalone_step(Outcome::Polled(QUIET, IN)), StandaloneStep::Pump);
    assert_eq!(standalone_step(Outcome::Polled(None, QUIET)), StandaloneStep::Check);
}

#[test]
fn a_signal_only_makes_the_loop_look_again() {
    assert_eq!(standalone_step(Outcome::Interrupted), StandaloneStep::Check);
}

#[test]
fn the_loop_ends_with_keyboard_shell_or_error() {
    assert_eq!(standalone_step(Outcome::KeysRead(0, true)), StandaloneStep::Quit);
    assert_eq!(standalone_step(Outcome::Pumped(false)), StandaloneStep::Quit);
    assert_eq!(standalone_step(Outcome::Failed("broken pipe")), StandaloneStep::Fail("broken pipe"));
}
