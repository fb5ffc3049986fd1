# rus_torrent

The verified core of an interactive BitTorrent client.

- `src/` is the library. Verus checks every function in it against its contract, but for the
  wrappers around functions of `std` and `librqbit`: their contracts are believed.
  - `app`, `completion_state`, `form`: the state of the terminal interface and its keys
  - `downloads_view`: which downloads are shown, in what order, and the dialogs that change this
  - `preview`, `view`: what the screens show
  - `path_completion`: typed paths and their completion
  - `torrent`, `engine`: torrent sources, and the torrents of a session
  - `config`, `desktop`: where data goes
  - `errors`, `text`, `paths`, `order`, `size`: what the others build on
  - `laws`: what holds across functions
- `tests/` runs the library.
- `app/` is the program around it: the terminal, the file system and the session.
  `main.rs` is the terminal program, `desktop_main.rs` the desktop one, which needs `tauri`.

The wrappers, and what else is believed of `std` and `librqbit`, stand in `text`, `paths` and
`torrent`, each item with a comment that says what is believed of which function.
