# rix

Rix manages a declarative Nix environment: packages live in group files
(`groups/upstream/<group>.nix`, each a list of packages with a comment per
entry), a master flake imports the groups, and Home Manager or
`nixos-rebuild` turns the configuration into an environment. The
configuration directory is a Git repository, so every change is a commit
and can be rolled back.

## Layout

- `src/` is the library, written in Verus and verified. It holds what Rix
  decides and computes:
  - `nix_syntax`, `nix_list`, `writer`, `flake`: reading the package list of
    a group file through rnix's syntax tree, adding, updating and removing
    entries, rendering group files and templates, linking groups into the
    master flake;
  - `context`: the configuration context (scope, paths, the package
    operations on file texts, the commands of an upgrade or an index
    update, the listing sorted by name);
  - `search`: ranking of `nix search` results and resolution of the
    attribute to install;
  - `quiet`: the filter that turns Nix build output into progress events;
  - `hardware`, `platform`, `config`, `vcs`: hardware lock file, platform
    detection, configuration directory and scope, Git-related decisions;
  - `commands`, `cli`: the decisions of the command handlers;
  - `tui`: the state machines of the terminal interface;
  - `text`, `numbers`: the character-level model of the `str` operations
    used everywhere.
- `tests/` exercises the library on concrete values.
- `app/` is the program around it: argument parsing, files, processes,
  Git, the network, the package database, progress bars and terminal
  drawing.
