# sshman

A terminal SSH session manager: a host database with groups, favourites and
connection history, a three-panel interactive view with fuzzy search and
sorting, import from and export to OpenSSH `config` files, and CSV export.

## Layout

- `src/` is the verified library (Verus). Every function carries a contract
  over mathematical models (`Seq`, views of each type):
  - `text` — character-level text handling: decimal rendering and parsing,
    trimming, splitting, joining, searching.
  - `models`, `storage`, `services` — the host database and its edits.
  - `sorting`, `search` — stable sorting by keys and fuzzy search scores.
  - `ssh_config` — reading `Host` blocks from OpenSSH configuration text, and
    writing configuration text and CSV.
  - `ssh` — the command lines of `ssh`, `ping` and `ssh-copy-id` and the
    reading of their results.
  - `app`, `commands` — the view's state and the key-handling state machine;
    each key yields the next state and an effect for the caller to perform.
  - `views` — the texts that the screen shows.
  - `config` — themes, settings and file locations.
  - `laws` — properties across operations: sorting is a stable ordered
    permutation and sorting twice equals sorting once, the selection stays in
    the list, typing and erasing in the search or the form comes back, keys
    move the group and form selections as expected, cycling settings comes back, reading after writing the
    database, the edit form round trip, and exporting then importing a
    configuration.
- `app/` is the program around the library: the command line, the terminal
  loop and drawing, files, and the outside programs.
- `tests/` exercises the library on concrete values.
