# alloy

The logic of a modal Markdown editor for the terminal, with its behaviour stated in contracts
and proved by Verus.

- `src/` is the verified library. It holds the editor state and what every action does to it
  (`app`), the keymap, the search, the document, the configuration, the Markdown rendering
  (`markdown`), links, images and their cache, the preview worker, and what the screen shows
  (`ui`). Text, styles and paths have modules of their own.
- `app/` is the program: the event loop, drawing, files, the network and the threads.
- `tests/` runs the library.

Calls into other crates stand behind small wrappers whose doc comments say what is claimed of
them. What holds of the library as a whole is stated in public proof functions named `law_...`.

Times are milliseconds that the caller hands in. What has to be done outside of the library is
handed out as a value (`app::Effect`, `image_cache::LoadStep`), and what came of it is handed back.
