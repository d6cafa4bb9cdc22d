# elmlog

A terminal outliner: a forest of labelled items that can be navigated,
edited, rearranged and saved to files, built in the Elm style (model,
message, update, view).

- `src/` is the library, verified with Verus: the forest zipper and its
  pre-order walk (`zipper`), the index-based forest and heaps (`forest`,
  `heap`, `model::heap`, `data`), the application model and its messages
  (`model`, `message`), the update function (`update`), the decisions taken
  around file operations (`io`), and the layout logic of the screen (`view`:
  tree prefixes, scrolling windows, status and command bars).
- `app/` is the program: terminal setup and input, file system access and
  locking, serialization of the forest, and drawing with ratatui.
- `tests/` exercise the library on concrete values.
