# gitbatch

Look after many git repositories at once: fetch, pull, merge, rebase or push all of them from one
terminal screen, or in one go without it.

The library (`src/`) holds everything that decides: which commands an operation takes and what
their outcomes mean, what a key does, which repositories an operation applies to, what the screen
shows, which directories are repositories, how configuration is put together. It is written in
[Verus](https://github.com/verus-lang/verus): each function states what it returns or changes, and
the verifier checks that it does. The program around it (`app/`) runs git, reads the terminal and
paints it.

## Layout

- `chars`, `numbers`, `offsets`, `order`: texts, decimal numbers, byte offsets and sorting.
- `paths`, `native`: paths as text with slashes between their parts, and how that text stands for
  the system's own paths, which need not be UTF-8 and may have backslashes.
- `error`, `mode`, `cli`, `config`, `discovery`, `quick`: errors and how they are told apart, the
  modes, the command line, the configuration, the search for repositories, and the run without a
  screen.
- `git`: commands, their outcomes, and the operations that take several of them. Such an operation
  is a value that names its next command and is advanced by the command's outcome.
- `tui`: the user interface as a state machine. Keys and events change an `App`; what has to be
  done outside is put into its outbox as an `Effect`. Drawing gives lines and areas as plain data.

## What is proved

Beyond the contracts of the functions, the library states what holds throughout, as proof
functions:

- `tui::laws`: pushing to several remotes, forcing a push and losing work all take an answer first.
- `tui::sanity`: whatever key is pressed and whatever comes back, the cursors stand on a row, and
  the dialogs wait in turn, each of them once.
- `git::remote_run`: an auto-stash restores its own entry or none, and a forced push is guarded.
- `git::fast_forward`: a pull is taken to be safe exactly where it cannot touch local changes.
- `tui::keys`: the path of a new worktree follows its branch until another path is entered, and the
  path that was entered is where the worktree goes.
- `tui::select`: what selecting all, clearing and changing the mode do to a selection.
- `native`: a path is had back from its text, whatever its bytes are.
- `discovery`, `quick`: repositories come sorted, each of them once, and a deeper search finds no
  less; a batch prints the same in whatever order it ran.

## What is trusted

A few functions outside are described and not proved: `String::push`, `str::to_lowercase`, the
`Debug` form of a `Duration`, `String::from_utf8_lossy`, `std::path::is_separator`, `regex` for the
questions that ask for credentials, `unicode-width` for the width of texts, and `directories` for
the places of the user's files. Each is named where it is called.
