//! The order of a session's event loop: what a round does, and when.

use vstd::prelude::*;

use crate::mux::WindowId;
use crate::pane_tree::PaneId;
use crate::server::session::{Session, SessionState};

verus! {

/// How far a round of the event loop has got.
#[derive(Clone, Copy, Debug, PartialEq, Eq, Structural)]
pub enum RoundStage {
    /// The reactor has woken up. Says whether messages have come in.
    Woken(bool),
    /// The messages are served, and so are that many of the panes that are ready.
    Pumping(usize),
    /// The panes that have ended are closed.
    Closed,
    /// The frame is sent, or none is due.
    Done,
}

/// What a round does next.
#[derive(Clone, Copy, Debug, PartialEq, Eq, Structural)]
pub enum RoundStep {
    /// Serve every message that has come in.
    Serve,
    /// Drain the output of this pane.
    Pump(WindowId, PaneId),
    /// Close the panes that have ended.
    Close,
    /// Render once, and send that to every attached client.
    Frame,
    /// The session is over: shut down.
    End,
    /// Wait until there is something to do again.
    Poll,
}

/// What a round does once so many of the ready panes are served, and how far it is then.
pub open spec fn pump_from(ready: Seq<(WindowId, PaneId)>, k: usize) -> (RoundStep, RoundStage) {
    if k < ready.len() {
        (
            RoundStep::Pump(ready[k as int].0, ready[k as int].1),
            RoundStage::Pumping((k + 1) as usize),
        )
    } else {
        (RoundStep::Close, RoundStage::Closed)
    }
}

/// What a round does next, and how far it is then.
pub open spec fn round_step(
    s: SessionState,
    ready: Seq<(WindowId, PaneId)>,
    at: RoundStage,
) -> (RoundStep, RoundStage) {
    match at {
        RoundStage::Woken(true) => (RoundStep::Serve, RoundStage::Pumping(0)),
        RoundStage::Woken(false) => pump_from(ready, 0),
        RoundStage::Pumping(k) => pump_from(ready, k),
        RoundStage::Closed => (
            if s.over {
                RoundStep::End
            } else if s.dirty && s.clients.len() > 0 {
                RoundStep::Frame
            } else {
                RoundStep::Poll
            },
            RoundStage::Done,
        ),
        RoundStage::Done => (RoundStep::Poll, RoundStage::Done),
    }
}

fn next_pump(ready: &Vec<(WindowId, PaneId)>, k: usize) -> (r: (RoundStep, RoundStage))
    ensures
        r == pump_from(ready@, k),
{
    if k < ready.len() {
        let (window, pane) = ready[k];
        (RoundStep::Pump(window, pane), RoundStage::Pumping(k + 1))
    } else {
        (RoundStep::Close, RoundStage::Closed)
    }
}

impl Session {
    /// What a round does next, given the panes whose output is ready, and how far it is
    /// then.
    pub fn next(&self, ready: &Vec<(WindowId, PaneId)>, at: RoundStage) -> (r: (
        RoundStep,
        RoundStage,
    ))
        ensures
            r == round_step(self@, ready@, at),
    {
        match at {
            RoundStage::Woken(true) => (RoundStep::Serve, RoundStage::Pumping(0)),
            RoundStage::Woken(false) => next_pump(ready, 0),
            RoundStage::Pumping(k) => next_pump(ready, k),
            RoundStage::Closed => (
                if self.is_over() {
                    RoundStep::End
                } else if self.wants_frame() {
                    RoundStep::Frame
                } else {
                    RoundStep::Poll
                },
                RoundStage::Done,
            ),
            RoundStage::Done => (RoundStep::Poll, RoundStage::Done),
        }
    }
}

/// How far a round is before its step `k`. `states` holds the session as it is before each
/// step.
pub open spec fn stage_at(
    states: Seq<SessionState>,
    ready: Seq<(WindowId, PaneId)>,
    woken: bool,
    k: nat,
) -> RoundStage
    decreases k,
{
    if k == 0 {
        RoundStage::Woken(woken)
    } else {
        round_step(states[k - 1], ready, stage_at(states, ready, woken, (k - 1) as nat)).1
    }
}

/// Step `k` of a round.
pub open spec fn step_at(
    states: Seq<SessionState>,
    ready: Seq<(WindowId, PaneId)>,
    woken: bool,
    k: nat,
) -> RoundStep {
    round_step(states[k as int], ready, stage_at(states, ready, woken, k)).0
}

/// A round serves the messages, if any have come in, then drains every pane that is ready,
/// each once and in order, then closes what has ended. Only then, and once, it renders: if
/// the session is over it ends instead, and if nothing has changed or nobody is attached
/// there is nothing to render. Whatever the steps do to the session, that is their order.
pub proof fn law_round_order(
    states: Seq<SessionState>,
    ready: Seq<(WindowId, PaneId)>,
    woken: bool,
    k: nat,
)
    requires
        k < states.len(),
        ready.len() <= usize::MAX,
    ensures
        ({
            let first = if woken {
                1int
            } else {
                0
            };
            let close = first + ready.len();
            let s = states[k as int];
            step_at(states, ready, woken, k) == if k < first {
                RoundStep::Serve
            } else if k < close {
                RoundStep::Pump(ready[k - first].0, ready[k - first].1)
            } else if k == close {
                RoundStep::Close
            } else if k == close + 1 && s.over {
                RoundStep::End
            } else if k == close + 1 && s.dirty && s.clients.len() > 0 {
                RoundStep::Frame
            } else {
                RoundStep::Poll
            }
        }),
{
    lemma_stage(states, ready, woken, k);
}

proof fn lemma_stage(
    states: Seq<SessionState>,
    ready: Seq<(WindowId, PaneId)>,
    woken: bool,
    k: nat,
)
    requires
        ready.len() <= usize::MAX,
    ensures
        ({
            let first = if woken {
                1int
            } else {
                0
            };
            let close = first + ready.len();
            stage_at(states, ready, woken, k) == if k == 0 {
                RoundStage::Woken(woken)
            } else if k <= close {
                RoundStage::Pumping((k - first) as usize)
            } else if k == close + 1 {
                RoundStage::Closed
            } else {
                RoundStage::Done
            }
        }),
    decreases k,
{
    if k > 0 {
        lemma_stage(states, ready, woken, (k - 1) as nat);
    }
}

} // verus!
