# novaforge

The verified core of the NovaForge Workspace: a launcher and an editor suite
for the Nova-Forge game. The library holds everything the tools decide, with
its behaviour stated in contracts that Verus proves; a small command-line host
does the file, process and TOML work around it.

## Layout

- `src/` — the library, verified by Verus.
  - `text`, `paths`, `ordering`, `calendar`, `file_size`, `status`,
    `selection`: strings over `Seq<char>`, `PathBuf`-style joins and file
    names, stable sorting, the civil calendar, size and status texts, and a
    list with a selection that always names an item.
  - `project`, `scan`, `build_runner`: the workspace manifest, asset kinds,
    the asset scan of a directory tree (directories first, then by name),
    and the build commands of `nova-forge.sh`.
  - `launcher`, `editor_app`, `panel`: opening projects, the five-entry
    recent list, tabs and theme, and the routing of open requests between
    panels.
  - `browser`, `asset_editor`, `gamefile`, `data_editor`, `build_panel`,
    `ai`, `graph`, `canvas`, `scene`, `timeline`: the state machines of the
    panels. Each function that needs a file read, a write or a process
    returns what to do, and a second function takes the outcome.
- `tests/` — tests of the library on concrete values, including checks
  against `std` for path handling, integer parsing and size formatting.
- `app/` — the command-line host (`open`, `play`, `server`, `build`,
  `assets`, `tree`, `data`, `new`), which reads directories and files,
  parses and writes TOML with serde, and starts processes.

The laws the library keeps — listings and tables sorted, the recent list
without repeats, graphs without dangling or duplicate links, unique track
names, fresh entity names after a load, the calendar round trip — are
public proof functions next to the code they speak of.
