# rotiv

The tooling of the Rotiv web framework — route discovery and matching, naming
conventions, static analysis of project files, module capability checks and
the planning of the `rotiv` commands — as a library verified with Verus, and
the `rotiv` command-line program around it.

## Layout

- `src/` — the verified library.
  - `project`: finding the project root among the current directory's
    ancestors.
  - `json`: reading and rewriting `module.json`, `deploy.json` and
    `spec.json` through `serde_json`.
  - `text`, `chars`, `paths`, `sorting`, `calendar`: character sequences and
    their standard operations (split, join, trim, lines, replace, decimal
    numerals), Unix path syntax, stable sorting by a string key, and the
    Gregorian calendar.
  - `router`: mapping of route files to route paths, matching of request
    paths against `:param` patterns, and the route registry.
  - `analysis`: the `V001`–`V010` checks of `rotiv validate`.
  - `modules`, `models`, `orm`, `compiler`, `worker`, `proxy`, `server`,
    `watcher`: the decisions around modules, models, migrations, builds, the
    route worker and the development server.
  - `cli`: the command line, its error type, naming conventions and the
    commands' logic (`add`, `new`, `explain`, `spec_sync`, `diff_impact`,
    `deploy`).
- `tests/` — tests of the library.
- `app/` — the `rotiv` program: argument parsing (clap), file system and
  process work, the development server (tokio, axum, reqwest, notify) and
  output (colored, serde_json).

## Assets

The program reads its project templates, scaffold templates, first-party
modules, knowledge base and Node.js helper scripts from an assets directory:
`ROTIV_ASSETS_DIR`, or `assets/` beside the binary. It holds
`templates/default/…`, `templates/add/…`, `modules/<name>/…`,
`knowledge/<topic>.md` and `packages/@rotiv/<script>/src/…`.
