# clipcrate

Terminal-first clipboard history: a watcher records what you copy, a fuzzy-search
picker brings it back.

- `src/` is the library, verified with Verus. It holds the rules: deduplication,
  eviction that respects pins, capture filters, the picker's ranking and keys,
  crash-safe file replacement, import, service units, and what commands print.
- `app/` is the program: argument parsing, files and locks, the system clipboard,
  the terminal. It carries out what the library decides.
- `tests/` runs the library on concrete values.

| module     | what it decides                                                  |
| ---------- | ---------------------------------------------------------------- |
| `entry`    | one recorded clip: preview, age, size, payload path              |
| `store`    | the history: recording, eviction, lookup, pins, deletion         |
| `laws`     | what holds of the history as a whole                             |
| `config`   | settings, their defaults, validation and changes                 |
| `pattern`  | deny patterns, by the `regex` crate                              |
| `filter`   | which texts are recorded                                         |
| `backend`  | the clipboard trait, an in-memory clipboard, PNG coding          |
| `watcher`  | what the watcher does with what it sees, and when it looks again |
| `picker`   | what the picker lists, draws, and does at each key               |
| `history`  | the history file, one record per line                            |
| `replace`  | replacing a file so that a crash never loses it                  |
| `lock`     | waiting for the lock on the history                              |
| `import`   | taking over the entries of an exported history                   |
| `service`  | units, and the steps to install and remove the service           |
| `cli`      | what the commands decide and print                               |
| `text`, `path`, `order` | characters, lines, numbers, paths, stable ordering  |

What the library takes on trust stands in a few declarations, each with a comment
that says what is claimed: `String::push` (`text`), the system clock (`entry`),
compiling and matching of patterns (`pattern`), reading and writing PNG images
(`backend`) and fuzzy scores (`picker`).
