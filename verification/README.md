# glide_wm

The decision logic of a tiling window manager for macOS, written and proved in
Verus.

Nothing in `src/` talks to the operating system. Each actor is a state and a
function from an event, together with what had to be read from the system, to
the messages that it sends. The contracts say for every event what the next
state is and which messages go out, in their order.

- `src/actor/` holds the actors: the space manager, which decides which spaces
  are managed; the controller, which handles hotkeys and commands; the window
  server, which reports the visible windows; the animation manager; the status
  icon; and what listens to the Dock and to notifications. `reactor/testing.rs`
  simulates applications.
- `src/config.rs` and `src/config/` lay the configuration of the user over the
  default one and check the result.
- `src/sys/` holds what is known of windows, screens and bundles.
- `src/text.rs` holds the operations on text that the rest needs.
- `tests/` runs the library on concrete values.
- `app/` is ordinary Rust: channels, files, programs and calls into macOS.

Coordinates are numbers of double precision, held as bit patterns: the library
compares them and hands them on. Interpolation between two rectangles and the
parsing of numbers happen in `app/`.

## What is taken on trust

A few calls stand behind contracts that are believed without proof. Each of
them names the function that it calls: the sorted list of watched windows
(`sorted-vec`), the map of key bindings (`rustc-hash`), key names
(`livesplit-hotkey`), patterns (`regex`), error reports (`annotate-snippets`),
and in the standard library the sharing of an `Arc`, the reading of a number in
native byte order, and the quoting of a text.
