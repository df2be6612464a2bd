# rpgtool string extraction

A library that collects the text of an RPG Maker XP game (names and
descriptions from the database, the text of event command lists, the string
literals of its Ruby scripts), each string with a location that says where it
came from, and writes it out as JSON or as a gettext catalogue.

- `src/` is the library, verified with Verus: `model` holds the game data that
  extraction reads, `events` walks event command lists and move routes,
  `rmxp` handles each kind of data file, `found` and `output` hold what is
  found and how it is written, `scripts` the script list and script literals,
  `text` the character-level helpers (Unicode whitespace, trimming, decimal
  formatting and parsing).
- `app/` is the command-line front end: it reads the data files (Marshal or
  JSON), drives the library, and searches scripts with the prism Ruby parser.
