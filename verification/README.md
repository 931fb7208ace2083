# aboba

The logic of a mobile-friendly audio book player, verified with Verus.

- `src/` is the verified library: formatting of times, file names and extensions,
  building books from audio tags and media chapters, saving and restoring listening
  positions, the state of the open book and its chapters, and what the player screens
  show and seek to.
- `tests/` runs the library on concrete values.
- `app/` is the GTK program around it: the window, the GStreamer audio player reached
  through C, reading the books folder and the tags, and writing `books.json`.
