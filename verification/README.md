# hcm

A terminal dashboard that keeps several multiplexer sessions (tmux, WezTerm)
side by side, each optionally in a git worktree of its own.

- `src/` is the library, verified with Verus: the screen state and its key
  handling (`app`), what is remembered between runs (`state`), the command
  lines and list format of the multiplexers (`backend`, `tmux`), worktree
  naming (`worktree`), the GitHub panel texts (`gh`), the text and number
  formats underneath (`text`, `path`), and the row, snapshot and dialog
  geometry of the screens (`ui`).
- `app/` is the program: argument parsing, the terminal loop and drawing,
  running `tmux`, `wezterm`, `git` and `gh`, and the JSON state file.
