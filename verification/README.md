# flowstate_workspace

The workspace layer of a debate word processor, verified with Verus: the panes
and tabs of a window, searching a document, its outline, the commands and their
keys, review comments, history, the evidence toolkit, collaboration and its
outbox, extensions, saving and closing, and the session that comes back after a
restart.

- `src/` is the library. What a view shows, what a key does and what a reply
  from a service changes are functions from state to state, each with a
  contract over the state's values. Properties that span several functions
  stand beside them as public proof functions.
- `app/` is ordinary Rust round the library: files, clocks, threads and
  measures in pixels.
- `tests/` runs the library on concrete values.

The calls that leave the library each stand behind one small function whose
doc comment says what is taken on trust: the substring finder, parsing an
identity key, random ids, hash maps and sets, a channel's two ends, reading a
member of a JSON text, and a few functions on characters and strings of the
standard library.
