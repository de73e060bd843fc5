# rosu-map

De- and encoding of `.osu` beatmap files, with its reading and writing of
lines, sections and integer values proved correct.

- `src/` is the library. It reads the bytes of a file (UTF-8, or UTF-16 with
  a byte order mark) into trimmed lines, finds the format version and the
  section of each line, and parses the sections whose values are integers
  and text: metadata, colours, the integer settings of `[General]` and
  `[Editor]`, events, the fields of timing points, and the types, sounds,
  sample banks and path segments of hit objects. It also writes sections
  back, and states what reading them again gives.
- `app/` holds what works with floating-point numbers (difficulty values,
  times, positions and control points), whole beatmaps, and file access; it
  is built from the library's parsers and writers.
- `tests/` runs the library on concrete files and lines.
