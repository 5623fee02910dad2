# tally

A thin receiver for build and test stats: JSON POSTs in, SQLite
underneath, a server-rendered trends page out.

- `src/` is the verified library: content negotiation (`format`),
  configuration defaults (`config`), the model (`model`), request
  checks and HTTP answers (`route`), the trends page and HTML escaping
  (`page`), the shaping of rows into and out of the database (`store`),
  and the character-level text operations these rest on (`text`).
- `app/` is the service around it: environment, axum handlers, the
  SQLite mapper thread, the JSON shapes of the model, and the page
  shell.
