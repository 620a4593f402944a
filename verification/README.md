# RustQuit

A menu bar utility for macOS that quits apps once their last window is closed,
and keeps selected apps running.

The decisions are a library, `src/`, verified with Verus: what an app's windows
amount to, when an app may be quit and when not, when a kept app is launched
again, what the settings may hold, and what the settings window and the menu bar
show. `src/engine/laws.rs` states what the quit engine guarantees over all its
steps; the other modules state theirs beside the code.

`app/` is the program around it: accessibility, the window server, the
workspace, timers, files and AppKit. It carries out what the library decides and
reports back what came of it.

`tests/` runs the library.
