# wdyt

A local review tool for work an agent did: the agent opens a session (source
files, a diff, Markdown, a static directory, a live server, or a guided tour
that mixes prose with excerpts), the reader comments on lines and sends one
reply, and the agent collects it.

The library under `src/` is written in Verus, and every function in it is
verified against its contract:

- `session`, `store`: sessions, comments, threads and replies, and the store
  that keeps them, with unique ids as the store's invariant.
- `diff`, `guided`, `render`: parsing a unified diff, cutting a guided review
  into prose and directives, and the contracts of the highlighting and
  Markdown calls into syntect and comrak.
- `page`, `ui`, `raw`: the HTML pages, built so that every piece of reader or
  agent text passes through an escaping function.
- `server`, `routes`, `client`, `fragment`, `cli`, `config`: the daemon's
  decisions, the client's protocol checks, link fragments and options.

`app/` is the program around it: argument handling, files, the HTTP server,
and the theme colours, which are blended in floating point. `tests/` holds the
tests, run against the compiled library.
