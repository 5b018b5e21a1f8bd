# music_tui

A terminal music player's library: it parses lyrics files (LRC time tags, inline
word times, plain text), chooses between a lyrics file and embedded lyrics, judges
which files of the music directory are audio files and orders the library, reads
`ffprobe`'s JSON reports, builds the download helper's command lines (with the JSON
of cookies and extra fields) and reads its failures, and decides what every
key press and every finished background job does to the player's state.  Each of
these functions carries a Verus contract and is proved.

- `src/` — the verified library (`text`, `sorting`, `paths`, `models`, `json`, `probe`,
  `lyrics`, `scanner`, `config`, `helper`, `app`, `ui`).
- `app/` — the terminal front end: settings file, `ffprobe`/`ffplay` and helper
  processes, background threads, and drawing with ratatui.
- `tests/` — tests of the library on concrete values.
