# cloo-client

The decisions of a terminal multiplexer's attach client, written in Rust and
proved with Verus.

A daemon owns the session; this client caches the cells it was told, draws all
of the chrome around them, and turns what the user's terminal sends into typed
messages. Everything here is a function of its arguments: nothing reads a
clock, a descriptor or the environment, and nothing writes escape sequences but
the few allowlisted effects.

- `src/` is the library, with its contracts and laws. `input`, `keys` and
  `keymap` read the terminal; `chrome`, `tabs`, `status_bar`, `attention`,
  `toast`, `copy_mode` and `motion` draw; `overlay`, `commands`, `launch`,
  `settings` and `rows` are the keyboard-first surfaces; `live` and its
  neighbours project the session, compose its frame and route what is typed;
  `attach` and `live_loop` are the handshake and the loop, one step at a time.
- `tests/` runs the library on concrete values.
- `app/` is the edge around it: the terminal's size and modes, the daemon's
  socket, and the loop that performs what the library decides.

A few functions of the standard library are given contracts that are believed
rather than proved: appending a character to a string, decoding UTF-8, and
lower-casing text. Each says so where it is declared.
