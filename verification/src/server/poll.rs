//! Which descriptors are worth reading from, by what `poll` reported of them.

use nix::poll::PollFlags;
use vstd::prelude::*;

use crate::mux::WindowId;
use crate::pane_tree::PaneId;

verus! {

/// `PollFlags::POLLIN`: there is data to read. It has the number of the C library's flag,
/// which on Linux, the BSDs and macOS is 0x1.
#[verifier::external_body]
fn poll_in() -> (r: i16)
    ensures
        r == 0x1,
{
    PollFlags::POLLIN.bits()
}

/// `PollFlags::POLLHUP`: the other end hung up. It has the number of the C library's flag,
/// which on Linux, the BSDs and macOS is 0x10.
#[verifier::external_body]
fn poll_hup() -> (r: i16)
    ensures
        r == 0x10,
{
    PollFlags::POLLHUP.bits()
}

/// `PollFlags::intersects`: whether two sets of flags, given by their bits, have a flag in
/// common.
#[verifier::external_body]
fn flags_intersect(a: i16, b: i16) -> (r: bool)
    ensures
        r == (a & b != 0),
{
    PollFlags::from_bits_retain(a).intersects(PollFlags::from_bits_retain(b))
}

/// Whether a read would find something: data, or the end of it. `revents` holds the bits
/// of the reported flags, or `None` where some of them are unknown.
pub open spec fn is_readable(revents: Option<i16>) -> bool {
    match revents {
        Some(bits) => bits & 0x1 != 0 || bits & 0x10 != 0,
        None => false,
    }
}

/// Whether a read would find something, by the flags that `poll` reported.
pub fn readable(revents: Option<i16>) -> (r: bool)
    ensures
        r == is_readable(revents),
{
    let bits: i16 = match revents {
        Some(bits) => bits,
        None => 0,
    };
    assert(0i16 & 0x1 == 0 && 0i16 & 0x10 == 0) by (bit_vector);
    assert(bits & (0x1i16 | 0x10i16) != 0 <==> bits & 0x1 != 0 || bits & 0x10 != 0)
        by (bit_vector);
    flags_intersect(bits, poll_in() | poll_hup())
}

/// The panes among the first `k` whose descriptor is readable. Slot 0 is the wake pipe, so
/// the report on pane `i` stands in slot `i + 1`.
pub open spec fn ready_among(
    panes: Seq<(WindowId, PaneId)>,
    revents: Seq<Option<i16>>,
    k: nat,
) -> Seq<(WindowId, PaneId)>
    decreases k,
{
    if k == 0 || k > panes.len() {
        Seq::empty()
    } else {
        let before = ready_among(panes, revents, (k - 1) as nat);
        if is_readable(revents[k as int]) {
            before.push(panes[k - 1])
        } else {
            before
        }
    }
}

/// Who is ready? The wake pipe (commands), and which of the panes (output).
pub fn who_is_ready(panes: &Vec<(WindowId, PaneId)>, revents: &Vec<Option<i16>>) -> (r: (
    bool,
    Vec<(WindowId, PaneId)>,
))
    requires
        revents@.len() == panes@.len() + 1,
    ensures
        r.0 == is_readable(revents@[0]),
        r.1@ == ready_among(panes@, revents@, panes@.len()),
{
    let wake_ready: bool = readable(revents[0]);
    let mut ready_panes: Vec<(WindowId, PaneId)> = Vec::new();
    let mut slot: usize = 0;
    while slot < panes.len()
        invariant
            slot <= panes.len(),
            revents@.len() == panes@.len() + 1,
            ready_panes@ == ready_among(panes@, revents@, slot as nat),
        decreases panes.len() - slot,
    {
        if readable(revents[slot + 1]) {
            ready_panes.push(panes[slot]);
        }
        slot = slot + 1;
    }
    (wake_ready, ready_panes)
}

/// A pane is served exactly if its own descriptor is readable.
pub proof fn law_ready_panes(
    panes: Seq<(WindowId, PaneId)>,
    revents: Seq<Option<i16>>,
    p: (WindowId, PaneId),
)
    requires
        revents.len() == panes.len() + 1,
    ensures
        ready_among(panes, revents, panes.len()).contains(p) <==> exists|i: int|
            0 <= i < panes.len() && #[trigger] panes[i] == p && is_readable(revents[i + 1]),
{
    lemma_ready_among(panes, revents, panes.len(), p);
}

proof fn lemma_ready_among(
    panes: Seq<(WindowId, PaneId)>,
    revents: Seq<Option<i16>>,
    k: nat,
    p: (WindowId, PaneId),
)
    requires
        revents.len() == panes.len() + 1,
        k <= panes.len(),
    ensures
        ready_among(panes, revents, k).contains(p) <==> exists|i: int|
            0 <= i < k && #[trigger] panes[i] == p && is_readable(revents[i + 1]),
    decreases k,
{
    if k > 0 {
        let before = ready_among(panes, revents, (k - 1) as nat);
        lemma_ready_among(panes, revents, (k - 1) as nat, p);
        if is_readable(revents[k as int]) {
            crate::mux::lemma_push_contains(before, panes[k - 1]);
        }
        assert(panes[k - 1] == panes[k - 1]);
    }
}

/// How a call of `poll` ended.
#[derive(Clone, Copy, Debug, PartialEq, Eq, Structural)]
pub enum PollOutcome {
    Reported,
    /// A signal came in between (EINTR).
    Interrupted,
    Failed,
}

/// What the reactor does next.
#[derive(Clone, Copy, Debug, PartialEq, Eq, Structural)]
pub enum PollStep {
    /// Serve whoever is ready.
    Serve,
    /// Poll again.
    Again,
    /// End the session thread.
    Stop,
}

/// What follows from how `poll` ended: a signal is no reason to stop.
pub fn after_poll(outcome: PollOutcome) -> (r: PollStep)
    ensures
        r == match outcome {
            PollOutcome::Reported => PollStep::Serve,
            PollOutcome::Interrupted => PollStep::Again,
            PollOutcome::Failed => PollStep::Stop,
        },
{
    match outcome {
        PollOutcome::Reported => PollStep::Serve,
        PollOutcome::Interrupted => PollStep::Again,
        PollOutcome::Failed => PollStep::Stop,
    }
}

} // verus!
