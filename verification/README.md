# notebook

Verified cores of three small command-line tools, written in Verus:

- `counter`: the lines and the words of a text (words are runs of characters that
  are not Unicode white space), and `count`, which reads them from a buffered reader.
- `logbook`: what a logbook file reads as, and the line that recording a message
  appends; the laws say that recorded messages read back in order.
- `memos`: pending and done memos kept in order; marking memos done by a
  case-insensitive search, and purging the done ones, with laws on both.
- `text`: white space, words, lines and substring search, shared by the others.

`app/` is the command line around them: files, JSON (serde), and argument parsing
(clap). The tests under `tests/` run the library.
