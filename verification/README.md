# rdict_core

Dictionary lookups for English ⇄ Chinese (Youdao) and German (Netzverb /
verbformen.com), written in Verus.

`src/` is the verified library:

- `text` — character-level string operations (trimming, splitting, searching,
  joining, lines) with their specifications;
- `html` — HTML documents as `scraper` parses them, and the names under which
  the library reasons about what `scraper` returns;
- `parse`, `youdao` — Youdao result pages: reading them into raw texts, cleaning
  those into entries, the Youdao source;
- `german` — Netzverb pages and the German source;
- `source` — the `DictionarySource` trait;
- `color`, `rdict` — terminal colours and the Markdown rendering of entries,
  and the decisions of a lookup (cache reads, HTTP status);
- `cli` — the decisions of the command-line front end;
- `laws` — properties of every parse and rendering.

`app/` is the command-line program: HTTP (reqwest), the SQLite cache (sqlx),
JSON (serde), the terminal (rustyline, indicatif, ratatui).

The graphical front end's window layout (an `iced` view) is not carried
over: `iced` is not among this project's dependencies. Its state machine
(`gui::update`) is in the library.
