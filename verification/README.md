# LunaPDF

A PDF viewer with tabs, split panes, search, highlights and session restore. What the viewer
decides is a library written and proved in Verus; the window, the files and the worker processes
are ordinary Rust around it.

- `src/` holds the library. `tabs`, `tab_bar`, `panes` and `workspace` keep the open documents and
  how they share the window; `session`, `migration`, `restore` and `startup` keep them between
  runs. `document`, `events`, `editing`, `annotation`, `external`, `close_flow` and `shortcuts`
  are the rules of one document and of closing. `view`, `rendering`, `tiles`, `painting`, `grid`,
  `cache` and `page_books` say what is shown and what has to be rendered. `search`, `selection` and
  `highlight_index` find and mark text. `diagnostics`, `sampling` and `performance` measure.
- `tests/` runs the compiled library.
- `app/` is the program: it performs what the library decides and hands back what happened.
  Numbers with a fraction reach the library as their bit patterns, and paths as their components.

The laws that tie several functions together are the public proof functions, among them those in
`tab_laws`, `restore_laws` and `startup_laws`.

A document is read and drawn by a worker process. Its program is `lunapdf-worker` beside the
viewer, or the one that `LUNAPDF_WORKER` names.
