//! The client's side of the conversation: what it sends, and what it shows.

use vstd::prelude::*;
use vstd::string::StrSliceExecFns;
use vstd::utf8::encode_utf8;

use crate::borders::cells_on_screen;
use crate::client::ui::{bar_text, borders_text, cursor_output, draw_cursor, draw_ui};
use crate::common::dtos::FrameDataDTO;
use crate::common::protocoll::{ClientMessage, ServerMessage};
use crate::geometry::Winsize;

verus! {

/// The size that is taken where the terminal has none to report.
pub const ROWS: u16 = 32;

pub const COLS: u16 = 80;

/// How often to try to reach a server that was just started, and how long to wait after
/// each failure.
pub const CONNECT_ATTEMPTS: u32 = 20;

pub const CONNECT_DELAY_MILLIS: u64 = 50;

/// The byte that rings the terminal's bell.
pub const BELL: u8 = 0x07;

/// The size to work with, from what the terminal reported.
pub open spec fn resolved(ok: bool, ws: Winsize) -> Winsize {
    if !ok || ws.ws_col == 0 || ws.ws_row == 0 {
        Winsize { ws_col: COLS, ws_row: ROWS, ..ws }
    } else {
        ws
    }
}

/// The size to work with: what the terminal reported, or the fallback when it reported
/// nothing usable (stdin isn't a tty).
pub fn resolve_winsize(ok: bool, ws: Winsize) -> (r: Winsize)
    ensures
        r == resolved(ok, ws),
{
    if !ok || ws.ws_col == 0 || ws.ws_row == 0 {
        Winsize {
            ws_col: COLS,
            ws_row: ROWS,
            ws_xpixel: ws.ws_xpixel,
            ws_ypixel: ws.ws_ypixel,
        }
    } else {
        ws
    }
}

/// Whatever the terminal reports, the size to work with is not empty, and a usable report
/// is taken as it is.
pub proof fn law_size_is_usable(ok: bool, ws: Winsize)
    ensures
        resolved(ok, ws).ws_col > 0,
        resolved(ok, ws).ws_row > 0,
        ok && ws.ws_col > 0 && ws.ws_row > 0 ==> resolved(ok, ws) == ws,
{
}

/// What to do after an attempt to connect.
#[derive(Clone, Copy, Debug, PartialEq, Eq, Structural)]
pub enum ConnectStep {
    /// The connection stands.
    Connected,
    /// No live server: start one, then try again.
    StartServer,
    /// Wait, then try again.
    WaitAndRetry,
    /// Wait, then give up.
    WaitAndFail,
}

/// How far the client has got in reaching its server. Connect-first: the socket FILE
/// existing doesn't mean a server is listening.
#[derive(Clone, Copy, Debug, PartialEq, Eq, Structural)]
pub struct Connecting {
    /// Whether a server has been started.
    pub started: bool,
    /// The attempts that are left once one has.
    pub attempts_left: u32,
}

/// The state after one more attempt, and what to do then.
pub open spec fn connect_step(c: Connecting, connected: bool) -> (Connecting, ConnectStep) {
    if connected {
        (c, ConnectStep::Connected)
    } else if !c.started {
        (Connecting { started: true, ..c }, ConnectStep::StartServer)
    } else {
        let left = (c.attempts_left - 1) as u32;
        (
            Connecting { attempts_left: left, ..c },
            if left == 0 {
                ConnectStep::WaitAndFail
            } else {
                ConnectStep::WaitAndRetry
            },
        )
    }
}

/// The state before the first attempt.
pub open spec fn not_connected() -> Connecting {
    Connecting { started: false, attempts_left: CONNECT_ATTEMPTS }
}

/// The state after `k` attempts that all failed.
pub open spec fn after_failures(k: nat) -> Connecting
    decreases k,
{
    if k == 0 {
        not_connected()
    } else {
        connect_step(after_failures((k - 1) as nat), false).0
    }
}

impl Connecting {
    pub fn new() -> (r: Self)
        ensures
            r == not_connected(),
    {
        Connecting { started: false, attempts_left: CONNECT_ATTEMPTS }
    }

    /// Takes in how an attempt to connect ended.
    pub fn on_attempt(&mut self, connected: bool) -> (r: ConnectStep)
        requires
            !connected && old(self).started ==> old(self).attempts_left > 0,
        ensures
            (*final(self), r) == connect_step(*old(self), connected),
    {
        if connected {
            ConnectStep::Connected
        } else if !self.started {
            self.started = true;
            ConnectStep::StartServer
        } else {
            self.attempts_left = self.attempts_left - 1;
            if self.attempts_left == 0 {
                ConnectStep::WaitAndFail
            } else {
                ConnectStep::WaitAndRetry
            }
        }
    }
}

/// A client starts a server after its first failure, then tries again as often as it may,
/// and gives up only then. Up to that point any success connects it.
pub proof fn law_connect_retries(k: nat)
    requires
        k <= CONNECT_ATTEMPTS,
    ensures
        after_failures(k).attempts_left > 0,
        connect_step(after_failures(k), true).1 == ConnectStep::Connected,
        connect_step(after_failures(k), false).1 == if k == 0 {
            ConnectStep::StartServer
        } else if k < CONNECT_ATTEMPTS {
            ConnectStep::WaitAndRetry
        } else {
            ConnectStep::WaitAndFail
        },
{
    lemma_after_failures(k);
}

proof fn lemma_after_failures(k: nat)
    requires
        k <= CONNECT_ATTEMPTS,
    ensures
        k == 0 ==> after_failures(k) == not_connected(),
        k > 0 ==> after_failures(k) == (Connecting {
            started: true,
            attempts_left: (CONNECT_ATTEMPTS + 1 - k) as u32,
        }),
    decreases k,
{
    if k > 0 {
        lemma_after_failures((k - 1) as nat);
    }
}

/// Something that happens to a running client.
pub enum ClientEvent {
    /// The task that reads from the server has ended: the server is gone, or has detached
    /// the client.
    ReaderEnded,
    /// The terminal was resized: whether it reports a size, and which.
    WindowChanged(bool, Winsize),
    /// Bytes were typed.
    Typed(Vec<u8>),
    /// The keyboard is closed.
    InputEnded,
}

/// What a running client does next.
pub enum ClientAction {
    Send(ClientMessage),
    Quit,
}

/// The client is a thin pump: what it does about an event.
pub open spec fn client_action(e: ClientEvent) -> ClientAction {
    match e {
        ClientEvent::ReaderEnded => ClientAction::Quit,
        ClientEvent::WindowChanged(ok, ws) => ClientAction::Send(
            ClientMessage::Resize { cols: resolved(ok, ws).ws_col, rows: resolved(ok, ws).ws_row },
        ),
        ClientEvent::Typed(bytes) => ClientAction::Send(ClientMessage::Input(bytes)),
        ClientEvent::InputEnded => ClientAction::Quit,
    }
}

/// Attach, reporting our terminal size (the server has no terminal to measure).
pub fn attach_message(ok: bool, ws: Winsize) -> (r: ClientMessage)
    ensures
        r == (ClientMessage::Attach {
            cols: resolved(ok, ws).ws_col,
            rows: resolved(ok, ws).ws_row,
        }),
{
    let size: Winsize = resolve_winsize(ok, ws);
    ClientMessage::Attach { cols: size.ws_col, rows: size.ws_row }
}

/// Keyboard + resize -> server. Server disconnected or tty closed -> quit.
pub fn on_event(e: ClientEvent) -> (r: ClientAction)
    ensures
        r == client_action(e),
{
    match e {
        ClientEvent::ReaderEnded => ClientAction::Quit,
        ClientEvent::WindowChanged(ok, ws) => {
            let size: Winsize = resolve_winsize(ok, ws);
            ClientAction::Send(ClientMessage::Resize { cols: size.ws_col, rows: size.ws_row })
        },
        ClientEvent::Typed(bytes) => ClientAction::Send(ClientMessage::Input(bytes)),
        ClientEvent::InputEnded => ClientAction::Quit,
    }
}

/// What to do on the screen about a message from the server.
pub enum ScreenAction {
    /// Write these bytes, and stop if that fails.
    Draw(Vec<u8>),
    /// Write these bytes if possible.
    Ring(Vec<u8>),
    Nothing,
    /// The server is gone.
    Stop,
}

/// What is drawn over the panes of a frame: the bar, the dividers, and last the cursor.
pub open spec fn overlay(f: FrameDataDTO, ws: Winsize) -> Seq<char> {
    bar_text(ws.ws_col as nat, f.window_ids@, f.focused_window_id) + borders_text(
        f.border_cells@,
    ) + match f.focused_cursor {
        Some(c) => cursor_output(c),
        None => Seq::empty(),
    }
}

/// Whether a frame can be drawn: all dividers lie on the screen.
pub open spec fn drawable(f: FrameDataDTO) -> bool {
    f.border_cells.wf() && cells_on_screen(f.border_cells@)
}

/// The bytes that show a frame on a terminal of size `ws`: the panes, then what is drawn
/// over them.
pub fn frame_output(f: FrameDataDTO, ws: Winsize) -> (r: Vec<u8>)
    requires
        drawable(f),
    ensures
        r@ == f.rendered_panes@ + encode_utf8(overlay(f, ws)),
{
    let ghost g = f;
    let mut ui = String::new();
    let mut bytes: Vec<u8> = f.rendered_panes;
    draw_ui(&mut ui, ws, f.border_cells, f.window_ids, f.focused_window_id);
    match f.focused_cursor {
        Some(c) => draw_cursor(&mut ui, c),
        None => {},
    }
    assert(ui@ =~= overlay(g, ws));
    let drawn: Vec<u8> = ui.as_str().as_bytes_vec();
    bytes.extend_from_slice(drawn.as_slice());
    assert(bytes@ =~= g.rendered_panes@ + encode_utf8(overlay(g, ws)));
    bytes
}

/// Frames -> screen. `None` stands for a failed read.
pub fn on_server_message(msg: Option<ServerMessage>, ws: Winsize) -> (r: ScreenAction)
    requires
        msg matches Some(ServerMessage::FrameData(f)) ==> drawable(f),
    ensures
        match msg {
            Some(ServerMessage::Frame(bytes)) => r == ScreenAction::Draw(bytes),
            Some(ServerMessage::FrameData(f)) => r is Draw && r->Draw_0@ == f.rendered_panes@
                + encode_utf8(overlay(f, ws)),
            Some(ServerMessage::Bell) => r is Ring && r->Ring_0@ == seq![BELL],
            Some(ServerMessage::Sessions(_)) => r == ScreenAction::Nothing,
            None => r == ScreenAction::Stop,
        },
{
    match msg {
        Some(ServerMessage::Frame(bytes)) => ScreenAction::Draw(bytes),
        Some(ServerMessage::FrameData(f)) => ScreenAction::Draw(frame_output(f, ws)),
        Some(ServerMessage::Bell) => {
            let mut bell: Vec<u8> = Vec::new();
            bell.push(BELL);
            assert(bell@ =~= seq![BELL]);
            ScreenAction::Ring(bell)
        },
        Some(ServerMessage::Sessions(_)) => ScreenAction::Nothing,
        None => ScreenAction::Stop,
    }
}

} // verus!
