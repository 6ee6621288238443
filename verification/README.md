# verso

The logic of Verso, an overlay that shows the synced lyrics of the track playing in
Spotify, as a verified library.

- `src/` is the library, verified with Verus: the LRC parser and the line lookup
  (`lrc`), the sync engine that turns player readings and clock ticks into overlay
  effects (`sync`, `runtime`, `state`, `offsets`), the LRCLIB decisions and lyrics cache
  (`lyrics`), translation batching and status codes (`translate`), the quota gate of the
  translation service (`service`), the translation cache names (`cache`), settings
  (`config`), the key kept in the keyring (`secrets`), window placement (`geometry`), and
  the player readings that are plain
  computation (`player`).
- `tests/` runs the library on concrete values.
- `app/` is the host around the library: HTTP, files, the keyring, the async loop, the
  reading of the player, and the computations on floating-point numbers.
