# metarepo

`meta` manages a workspace made of many git repositories: a `.meta` file at
the workspace root lists the projects, and the command line adds, lists,
renames, updates and removes them, runs commands and scripts across them,
and manages git worktrees in each.

The library under `src/` holds the workspace's logic, verified with Verus:
every public function states what it returns in its contract, and the
laws that tie several operations together are proved as public proof
functions (`law_*`).

- `workspace` – the workspace configuration (projects, scripts, aliases,
  plugins), kept free of duplicate names; adding, removing, renaming and
  tagging projects; resolving a project from a name or alias.
- `iterator` – the project iterator with its wildcard patterns and tag
  filters.
- `exec`, `select` – which projects a command or a script runs in.
- `import` – adding a project and nested imports: the plan from what is on
  disk, cycle detection, the depth limit and their messages.
- `worktree`, `git` – reading what git prints, and planning `git worktree`
  calls.
- `tree` – the project tree that `meta project list` draws.
- `gitignore`, `json` – editing `.gitignore` and the `.meta` document.
- `output` – collecting the output of commands run in parallel.
- `builder`, `commands`, `plugins` – the declarative description of the
  command line and of the built-in plugins.
- `text` – the string model shared by the rest.

`app/` is the `meta` program around the library: argument parsing with
clap, file and process I/O, git through git2, and the plugin protocol.
`tests/` runs the library on concrete values.
