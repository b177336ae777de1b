# otk

Otk runs a command and shows a shortened form of its output. This crate holds
the decisions of the program, verified with Verus, and the program around them.

- `src/routing.rs` chooses the output filter for a command and labels the command.
- `src/shell.rs` writes an argument vector as a line for `sh -c`. A model of how a
  shell splits a line into words shows that the line reads back as the arguments.
- `src/command.rs` plans a run, with the modifiers `proxy` and `err`.
- `src/execution.rs` settles what is shown of a command that has run.
- `src/reading.rs` plans how a file is read and shown.
- `src/text.rs` reads, compares and builds text.
- `src/std_calls.rs` holds the contracts of the standard library that are taken on
  trust: `String::push`, `char::is_alphanumeric`, `char::is_whitespace` and
  `String::from_utf8_lossy`.
- `app/` parses the command line, runs the shell, reads files and prints. The text
  filters, the store of full outputs and the metrics are extensions behind a trait.
