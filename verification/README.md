# izole

A transparent isolation layer for Linux applications: packages from the
host's package manager (DNF, apt or pacman) are unpacked into a private
environment under `~/.local/share/izole/envs/<name>`, and programs run in a
bubblewrap sandbox that overlays the environment on the host system.

- `src/` is the verified library (Verus): text handling, paths, the
  parsing of package-manager output, size formatting, desktop-entry and
  shim generation, the sandbox command line, the self-healing run state
  machine and the interactive menu state machine, with their contracts and
  laws.
- `app/` is the command-line program around it: argument parsing, the
  filesystem, processes, signals, JSON and the terminal dialogs.
- `tests/` exercises the library on concrete values.
