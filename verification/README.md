# twatch

A terminal torrent streaming client: add a magnet link or torrent URL,
browse the torrent's files as a folder tree, stream a file to mpv or vlc
through an embedded HTTP server, download files, keep a history of
torrents, search a configurable JSON API, and pick a colour theme.

## Layout

- `src/` — the library, verified with Verus. Every key press is a
  function from the application state to the next state and the work to
  do (`handlers`), and every result of background work is another
  (`events`); the history store (`storage`), the folder tree (`tree`),
  the search API's requests and responses (`search`), the stream server's
  protocol (`stream`), the themes (`theme`, `palettes`), the settings
  (`config`) and the text the screens show (`view`, `panels`, `layout`)
  are each specified and proved.
- `app/` — the program around it: the terminal, drawing with ratatui,
  the torrent engine (librqbit), the media player process, HTTP requests,
  the JSON files, and the event loop that performs the work the library
  asks for.
- `tests/` — tests of the library on concrete values.
