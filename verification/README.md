# nlm

A command-line toolkit for NotebookLM: it syncs sources (Confluence, Notion,
web pages, local files) into Markdown, uploads them to a notebook, generates
slide decks and downloads them, and reads the brand charter out of a
PowerPoint template.

## Layout

- `src/` — the library, verified with Verus. Everything the tool decides or
  computes lives here, with its contract:
  - `yaml`, `config`, `cli` — config trees and their deep merge, the config
    and command-line types, and the choices drawn from them;
  - `adapters` — the Markdown written for each kind of source (HTML
    conversion, Confluence pages, Notion blocks and rich text, local files)
    and the sync report;
  - `notebooklm` — the batchexecute request encoding, response decoding,
    call parameters, answer readers, session cookies and tokens, and the
    polling decisions of a wait;
  - `pptx`, `xml` — reading a template's archive, theme, slides and layouts,
    and rendering the brand charter;
  - `commands` — project files, the plan of a full run, names of outputs;
  - `json`, `text` — the JSON tree and the string operations the rest uses.
- `app/` — the program around it: argument parsing, files, HTTP, processes,
  sleeping, and the serde/clap copies of the library's types.
- `tests/` — tests of the library.
