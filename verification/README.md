# tauri_greeter

A CSS-themeable LightDM greeter, with its decisions written in Verus and proved
against their contracts.

LightDM owns the VT, the X server, PAM and starting the desktop; the greeter
draws the login screen and holds a conversation with LightDM. Everything the
greeter decides -- what the UI is told, which accounts and sessions are
offered and in what order, which stylesheet a theme name may open, what the
login screen does with each prompt, verdict and keystroke -- is in `src/` and
verified. Reading files, the C bindings to `liblightdm-gobject`, the webview
and the sockets are in `app/`.

## Layout

- `src/conversation.rs` -- the login screen as a state machine: events in,
  next state and commands out, with the screen's laws (only LightDM's verdict
  starts a session, every request is armed with a deadline, an answer is sent
  once and cleared, a rejection says one thing).
- `src/lightdm.rs` -- what the greeter makes of LightDM's replies: the hints,
  the account, session, layout and language lists, power actions, and the
  messages the UI may hear.
- `src/ui.rs` -- the login screen's choices: who is preselected, which
  session, layout and language come back with an account, which controls are
  drawn.
- `src/greeter.rs` -- pictures inlined as `data:` URIs typed from their bytes
  (encoded with `base64`), the theme picker's list and the stylesheet paths a
  theme name may open.
- `src/daemon.rs`, `src/auth.rs`, `src/session.rs`, `src/power.rs`,
  `src/theme.rs` -- the standalone display manager's half: the reply to a
  login attempt, the journal-safe username, the Xauthority record, the account
  rule, `.desktop` parsing, the PAM environment, theme directories and
  `theme.json` (read with `serde_json`).
- `src/order.rs`, `src/text.rs` -- a stable sort by a text key, and the text
  operations the parsers need, each stated against a spec function.
- `app/` -- the program: the Tauri commands and windows, the LightDM bindings,
  the page the webview runs, and the daemon's processes and socket.
- `tests/` -- the tests, run against the compiled library.
