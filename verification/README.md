# edit — verified editor core

The logic of a small terminal text editor, written in Verus and proved against its
contracts:

- `file_type` — the languages, their comment prefixes, and how a file name is classified.
- `paths` — the few `std::path` and `str` operations the classification needs.
- `text` — character-level helpers (white space, trimming, searching, building strings).
- `goto` — splitting `name:line:column` into a name and a 0-based position.
- `indent` — indentation rules per language and the smart indenter.
- `syntect_api` — the syntect calls the highlighter makes.
- `highlight` — syntax choice per file type, the highlighter with its line cache, and the
  hand-made YAML cutting used when no YAML syntax is available.
- `documents` — documents and the list of open documents (active first).
- `tabs` — the tab bar: its label and its keys.
- `syntax` — the file-type, highlighting and indentation items under one path.

`app/` is a command-line front end that does the file I/O around the library.
