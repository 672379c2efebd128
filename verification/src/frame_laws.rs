//! What holds of a frame from the session that renders it to the terminal that shows it.

use vstd::prelude::*;
use vstd::utf8::{encode_scalar, encode_utf8};

use crate::client::unix_client::{drawable, overlay};
use crate::common::dtos::FrameDataDTO;
use crate::geometry::Winsize;
use crate::mux::MuxState;
use crate::pane_handle::Snapshot;
use crate::pane_tree::PaneId;
use crate::server::session::shows;
use crate::window_handle::window_picture;

verus! {

/// A client can draw every frame that a session sends.
pub proof fn law_frames_are_drawable(
    f: FrameDataDTO,
    m: MuxState,
    snaps: Map<PaneId, Snapshot>,
)
    requires
        shows(f, m, snaps),
    ensures
        drawable(f),
{
}

/// What a client writes to its terminal is one text: the focused window of the session,
/// and over it the bar, the dividers and the cursor.
pub proof fn law_client_shows_session(
    f: FrameDataDTO,
    m: MuxState,
    snaps: Map<PaneId, Snapshot>,
    ws: Winsize,
)
    requires
        shows(f, m, snaps),
    ensures
        f.rendered_panes@ + encode_utf8(overlay(f, ws)) == encode_utf8(
            window_picture(m.windows[m.focused], snaps) + overlay(f, ws),
        ),
{
    lemma_encode_concat(window_picture(m.windows[m.focused], snaps), overlay(f, ws));
}

/// Encoding two texts one after the other is encoding them together.
proof fn lemma_encode_concat(a: Seq<char>, b: Seq<char>)
    ensures
        encode_utf8(a + b) == encode_utf8(a) + encode_utf8(b),
    decreases a.len(),
{
    if a.len() == 0 {
        assert(a + b =~= b);
        assert(encode_utf8(a) + encode_utf8(b) =~= encode_utf8(b));
    } else {
        assert((a + b).drop_first() =~= a.drop_first() + b);
        lemma_encode_concat(a.drop_first(), b);
        assert(encode_utf8(a + b) =~= encode_scalar(a[0] as u32) + encode_utf8(a.drop_first())
            + encode_utf8(b));
    }
}

} // verus!
