# charts_rs

A command-line stock watch-list tool. The library under `src/` holds its
logic, verified with Verus:

- `cli` — what the command line asks for (`parse_args`).
- `watchlist` — the text exchanged with the list service (`POST`/`GET`
  requests, reading its answer), edits to a list, the current-list record.
- `quote` — Alpha Vantage quotes and the table row made from one.
- `stocks` — which service each symbol is fetched from, the results so far,
  and the table printed from them.
- `market` — MS Finance addresses and the handling of its JSON answers.
- `text` — splitting into words and joining with terminators.

`app/` is the program: it reads the arguments, talks to the list service and
the quote services, and prints what the library computes.
