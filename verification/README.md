# diffodil

Git diffs in your browser: a server that finds the git repositories below a
root directory and serves a web UI for browsing their branches, commits and
diffs over a WebSocket.

## Layout

- `src/` is the library, written in Verus and verified:
  - `text` — the character-level model of text (whitespace, trimming,
    searching, line splitting, decimal numbers) that the parsers build on;
  - `git` — the records (branches, tags, commits, hunks, files, summaries,
    worktrees) and their mathematical models;
  - `refs`, `log`, `diff`, `summary`, `untracked` — parsers for the output of
    `git branch`, `git tag`, `git log`, `git diff`/`git show`,
    `git diff --compact-summary` and `git ls-files`;
  - `commands` — the argument lists of the git commands;
  - `repos` — the directory search for repositories and the grouping of
    worktrees;
  - `session` — the state of a browser session, how each client message
    changes it, and what must be sent afterwards;
  - `service` — the launchd plist and the steps that install, remove and
    restart the background service;
  - `watch` — how a burst of file changes becomes one notification;
  - `assets` — which embedded UI file answers a request;
  - `config` — the log filter and the address the server listens on.
- `app/` is the program around it: the command line, the HTTP and WebSocket
  server, running git, reading the file system, watching files, and JSON.
- `tests/` runs the library on concrete inputs.
