# wisp_mux

A terminal multiplexer with a verified core.

- `src/` is the library. Its logic is verified with Verus: how a window is divided
  into panes (`pane_tree`, `tree_laws`), how the focus moves (`focus`), windows and the
  multiplexer over them (`window_handle`, `mux`), what is typed (`input_state`,
  `command_state_machine`), what is drawn (`pane_handle`, `borders`, `client::ui`), how
  messages are framed (`common::protocoll`), and what client, server and session decide
  (`client::unix_client`, `server::unix_server`, `server::session`, `server::round`,
  `server::poll`, `standalone`).
- `app/` is the program around it: it forks shells, runs the terminal emulators, polls
  descriptors, talks over the socket, and does what the library decides.
- `tests/` holds the library's tests.

The library leaves all input and output to the program. Where a decision depends on work
that only the program can do, such as starting a shell, the library is told how that ended.
A few functions ask for room or ids that may have run out; each of them has a counterpart
that tells whether they are there (`can_resize`, `can_split`, `allows_split`, `allows`,
`can_serve`, `can_place`, `can_render`, `can_draw`, `on_screen`).

Six contracts are taken on trust, because they speak of code outside the library:
`String::push` and `String::push_str` (`text`), the standard library's `sort_unstable`
(`sort_ids` in `client::ui`), and nix's `PollFlags::POLLIN`, `PollFlags::POLLHUP` and
`PollFlags::intersects` (`poll_in`, `poll_hup` and `flags_intersect` in `server::poll`).

The library is for Linux, the BSDs and macOS: the numbers of the two poll flags are those
that the C libraries of these systems have.
