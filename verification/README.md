# galdrar

Synchronised song lyrics in the terminal for whatever the desktop media
player is playing (through `playerctl`), with lyrics from lrclib.

- `src/` is the verified library (Verus): the LRC grammar of timed lyric
  lines (`lrc`), the lyrics and the line to highlight (`lyrics`), the song
  state and the handling of the lyrics service's replies (`songstate`), the
  player watcher's decisions (`player`), the screen's decisions (`screen`),
  and the text helpers they share (`text`).
- `app/` is the program around it: the terminal UI, the `playerctl`
  commands, the HTTP request and the log file.
- `tests/` runs the library on concrete inputs.
