# mcfly

McFly replaces the shell's `ctrl-r` history search with a full-screen search that ranks
commands by the directory they ran in, what ran before them, how often and how recently they
ran, whether they were selected before and whether they succeeded.

## Layout

- `src/` is the library, verified with Verus: command-line editing (`command_input`),
  command templates (`simplified_command`), `mv` parsing and path normalization
  (`path_update_helpers`, `history_path_updater`), history files of bash, zsh and fish
  (`shell_history`, `bash_history`), the settings read from the environment and the
  configuration file (`settings`, `colors`), the decisions of the search interface
  (`interface`), the layout of a result line (`display`), and the text helpers they share
  (`text`, `number`, `graphemes`, `pattern`).
- `app/` is the program around it: argument parsing, the SQLite history database, the
  terminal loop, the ranking network and its training, and the `dump` and `stats` commands.
- `tests/` runs the library on concrete inputs.

The start-up scripts printed by `mcfly init` are read from the directory of the executable
(`mcfly.bash`, `mcfly.zsh`, `mcfly.fish`, `mcfly.ps1`).
