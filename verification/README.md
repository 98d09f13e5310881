# codex-ctl

A daemon and a command line that run coding agents (Codex, Kimi, OpenCode) as sessions in the
background: spawn one, follow what it says in a structured log, wait for a state, answer its
questions, and end it under a name by which it can be resumed.

The library in `src/` holds the logic, and Verus proves it:

- `text`, `numbers`, `paths`, `json`, `fields`, `outline`, `pattern`, `terminal`, `clock`: text,
  JSON documents and the texts they are read from, regular expressions, the terminal's screen and
  time.
- `parser`: blocks, questions and kinds of lines on an agent's screen.
- `session`: what is seen on the screen and what is logged of it, the detection of states,
  waiting, typing, and the events of OpenCode runs.
- `log`: the messages of a log, how they are written and read back, and the bodies of blocks.
- `protocol`, `client`, `cli`: requests, where the daemon's files are, and how answers are shown.
- `daemon`: which session is meant, how requests are answered, and how a session is ended.
- `gui`: the read-only window that shows a session.

Each function states in its contract what it returns or changes, over mathematical models of the
data. What holds of several functions together stands in public proof functions named `law_...`.
Calls into other crates go through small functions whose doc comments say what is taken for
granted of them.

`app/` is the program around the library: the PTY, the socket, the files, the clock's ticks and
the command line. It is ordinary Rust and nothing in it is proved; floating point stays there.
