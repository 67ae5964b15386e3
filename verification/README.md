# muxy_app

The decisions of the Muxy desktop app, verified with Verus: reading and saving the
terminal configuration and the files it includes, the font options and their config lines,
key and paste encoding, colour palettes, the edges a terminal row paints into the padding,
the cache of image textures, the settings search and pickers, the Quick Terminal panel,
tabs and their menu, the listing of reusable sessions, the update checks and the install of
an update, replacing the app bundle, installing the command line tool, and stopping or
reconnecting to the server.

- `src/` is the verified library. Each public function states what it returns in its
  contract; the `lemma_*` proof functions state the laws that relate several functions.
- `tests/` runs the library on concrete values.
- `app/` holds the input and output around the library: the file system, the processes
  that inspect signatures and bundles, and the clock.
