# rintel

A chat tool around an on-device language model, with conversation sessions
that are saved, listed, resumed and cleaned up, and a reader for the session
history of a coding tool.

- `src/` is the library, written in Verus: sessions and their history
  (`session`), requests and the model's interface (`types`, `provider`,
  `prompt`), the store of saved sessions (`store`, `config`), the text of the
  command-line tool (`cli`, `chat`), the values of the desktop interface
  (`dto`), the coding tool's session history (`history`), stable sorting (`order`),
  text and path helpers (`text`, `paths`), identifiers and the clock (`ident`,
  `clock`), and properties across operations (`laws`).
- `app/` is the program: argument parsing, the chat loop, files on disk, JSON,
  terminal colours, and the desktop interface's commands as plain functions.
- `tests/` runs the library on concrete values.
