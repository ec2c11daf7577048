# nifty

Build tooling for a progressive web app made of a shared core and one
active instance that overlays it: development builds, incremental rebuilds
on file changes, a production build with version stamping and compression,
a TypeScript lint, and instance setup.

## Layout

- `src/` — the verified library. Every decision the tool makes is here,
  with a contract: where a source file's change is routed and what it
  triggers (`devfile`), the full development builds (`devbuild`, `server`,
  `thirdparty`, `media`), the text rewrites of generated files (`devtext`,
  `dist`), the combined web manifest (`manifest`, over the JSON model in
  `json`), the bundle instructions and view load functions (`bundle`), the
  first production pass (`initial`), the lint's parsing, ordering and
  reporting (`lint`, `pathorder`), copy and compiler invocations
  (`helpers`), instance setup (`init`), and the path and text algebra the
  rest is stated in (`paths`, `text`, `dirs`). `laws` holds properties
  that span several operations. Calls into outside crates go through the
  trusted wrappers in `external`, each documented with what it claims.
- `app/` — the command line: environment, file system, processes and
  threads; it runs what the library plans.
- `tests/` — tests of the library on concrete values.
