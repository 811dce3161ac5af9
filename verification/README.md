# html_exporter

Renders a message history as HTML pages, one for each conversation.

- `src/` is the verified library. It turns messages, with their attachments, reactions and replies,
  into HTML, and says what is to be appended to which file.
- `app/` reads the message database, copies and converts attachments, and writes the files.
- `tests/` runs the library on concrete messages.

The library reads and writes no files. What is done next, from the first headers to the footers, is
told by `Export::step`. Where rendering needs a file to be copied first, it stops and says so
(`Flow::Wanted`). Rendering is then repeated with what came of the copy (`Outcome`). Of a date that
is out of the calendar, `imessage_database` may print a line to the standard error.

What `imessage_database` knows of the columns of a row is called from `src/database.rs` and
`src/payload.rs`, and what std makes of paths from `src/paths.rs`; what these calls return is stated
there and not proved. `src/laws.rs`, `src/pages.rs` and `src/runs.rs` state what holds of all that
is rendered, of what an export leaves on a disk, and of the order in which it goes on.
