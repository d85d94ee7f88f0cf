# pl_testdata

A generator of synthetic Polish test data — PESEL, NIP, IBAN, identity-card
numbers, postal codes, phone numbers, e-mail addresses and whole test profiles —
verified with Verus, with a small HTTP front end.

## Layout

- `src/` — the verified library. Every identifier has a mathematical model
  (its digits), a checked constructor, a parser whose contract says exactly which
  texts it accepts and which error each other text gets, and a text form; proof
  functions state the round trips (`parse(as_str(x)) == x`) and the checksum laws.
  Generation draws from `rand`'s seeded standard generator; its contracts say what
  holds of every draw (constraints respected, checksums valid, names and surnames
  from the fixed lists, surnames inflected for the gender). Dates go through
  `chrono` for the calendar and the clock. The web layer's logic — reading the
  form, answering a request, and rendering the HTML page from its templates — is
  verified too.
- `tests/` — the library's tests.
- `app/` — the `axum` server: routes, JSON and form bodies, the stylesheet.

Run the server with `HOST` and `PORT` set as needed (default `127.0.0.1:3000`).
