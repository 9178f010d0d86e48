# TinkivaDatabase

One HTTP process that serves many isolated SQLite files. A database is opened when it is asked
for, kept warm while it is used, and checkpointed and closed when it is idle or when another one
needs its place.

The rules of the service stand in `src/` and are verified with Verus:

- `db`: which databases are resident, who holds them, which one makes room, which requests wait
  and which are shed
- `api`: who may call, how parameters are bound, how rows are collected and written, and when a
  batch is committed
- `cells`: how the cells of a row are sent
- `config` and `number`: settings, their defaults, and the environment on top of them
- `pool`: how the connections of a database are opened
- `metrics`, `seconds`, `text`: counters, and the text that a scrape reads
- `scrape`: which series there are, whatever is recorded
- `error`, `json`: how a failed request is answered
- `registry`: the table of resident databases, a `DashMap`

`app/` is the process around them: the command line, the HTTP routes, the SQLite connections and
the timers. `tests/` runs the library.
