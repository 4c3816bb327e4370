# Selah

Selah is a live-presentation assistant for churches: it listens to the
preacher, recognises Scripture references, looks the passage up in a local
Bible store and shows it on a second screen, alongside songs, media and
announcements.

## Layout

- `src/` — the verified library (Verus). Reference detection and parsing,
  the book registry, passages and searches, the translation catalogue,
  validation of operator input, songs, the presentation queue, settings
  repair, playback state, media ordering, audio buffering and the cutting of
  audio into stretches of speech. Every function carries a contract; the
  laws the application relies on are public proof functions.
- `tests/` — tests of the library on concrete values.
- `app/` — the application around the library: the SQLite store, files on
  disk, the speech worker, audio, and the commands the interface calls.
  Floating-point audio processing (loudness, resampling) lives here too.
