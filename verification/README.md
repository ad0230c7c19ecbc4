# roost

A dotfile manager: it moves application configs into `~/.roost/<profile>/`, links them
back to where the applications expect them, and keeps the store in git so that several
devices can share it. Each device has an active profile; profiles can share apps with one
another, by link or by copy.

## Layout

- `src/` — the library, verified with Verus. Every decision the program makes lives here
  with a contract: the configuration model (`app`, `collections`), paths (`paths`), the
  linking rules (`linker`), the operations on apps and profiles (`ops`), the `.gitignore`
  it writes (`gitignore`), what git output means and how two configs merge (`git`), the
  steps of a sync with the remote (`sync`), the config scanner (`scanner`, `data`), the
  checks of `roost doctor` (`doctor`), the first-run selector and what each key does in
  it (`app_selector`), and the terminal interface's state and key handling (`tui`).
- `app/` — the program around the library: the command line, reading and writing files,
  running git, and drawing the terminal interface. It asks the library what to do and
  does it.
- `tests/` — tests of the library on concrete values.

Laws that span several functions are public proof functions named `lemma_*`, for example
that regenerating `.gitignore` keeps the user's own rules and is idempotent (unless a
pattern puts a marker line inside the managed block, or a kept rule still ends with a
carriage return), that merging
a config with itself changes nothing, and that a path written with `~` reads back as the
same path.
