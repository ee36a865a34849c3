# yamlquill

A terminal editor for YAML documents, with vim-like modal key bindings: a
collapsible tree view, insert/command/search/visual modes, registers,
marks, a jump list, an undo tree, and format-preserving saves.

## Layout

- `src/` — the editor as a verified library. Every function carries a
  contract that Verus proves: the document tree and its edits
  (`document/`), the editor state and its key and mouse bindings
  (`editor/`), the `:` command language and key maps (`input/`), the text
  of the tree view rows and of the status line (`ui/`), loading and saving
  text (`file/`), settings and themes. Calls into yaml-rust2 (parsing),
  flate2 (gzip) and a few std functions stand behind small trusted
  wrappers whose contracts are written next to them.
- `tests/` — tests of the library.
- `app/` — the program: terminal input and drawing (termion, ratatui),
  files, the clipboard, the configuration file, and serde_yaml for
  single-line documents and for checking saved output.
