# super_v

A clipboard history service in the style of the Windows 11 clipboard: a
daemon polls the system clipboard and keeps a bounded, duplicate-free history
(most recent first); a picker window shows the history and an emoji board and
pastes what the user clicks.

Layout:

- `src/` — the library, verified with Verus:
  - `history.rs` — the history and its laws (capacity, no repeated content,
    promotion, deletion, recent-first order, idempotent copying);
  - `common.rs` — clipboard items, their content equality and printing, errors;
  - `services/clipboard_ipc_server.rs` — messages and their length-prefixed
    framing, connection-error classification, the bind decision;
  - `services/clipboard_manager.rs` — how the daemon answers each command, and
    the poller's decision to record what it read;
  - `gui/clipboard_gui.rs` — reply handling, previews, click actions, emoji search;
  - `text.rs` — whitespace, decimal numerals, line endings, substring search.
- `app/` — the program around it: command line, daemon threads and files,
  sockets and MessagePack serialisation, the arboard clipboard, the GTK window,
  the terminal monitor and ydotool.
- `tests/` — tests of the library.
