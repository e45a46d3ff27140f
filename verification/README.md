# Lovebin

A small service through which visitors send a heart of support. Each voter, told apart by a cookie,
can send one heart in a window of time. Accepted hearts are dated events, and the count is the
length of their history.

## Layout

- `src/` is the library: settings, cookies, timestamps, the rule of the window, and the three
  requests, each with a contract that Verus proves. `src/laws.rs` and `src/cookie_laws.rs` state
  what holds over several requests.
- `app/` is the web server and the SQLite database around it. It performs what the library's steps
  ask of the store, and hands the answers back.
- `tests/` runs the library on concrete values.

What is believed without proof are the contracts of calls into `chrono`, `cookie`, `http` (through
`axum`), `rand` and a few functions of the standard library. Each stands beside its call, with a
comment that says what it claims.

## API

    GET /health               ok
    GET /api/hearts           {"count": 123, "already_voted": false}
    POST /api/hearts          {"count": 124, "voted": true}
                              {"count": 124, "voted": false, "reason": "already_voted",
                               "retry_after_seconds": 172800}
    GET /api/hearts/history   {"events": ["2026-05-26T12:34:56.789Z", "2026-05-26T13:10:22.123Z"]}

A request that cannot be answered gets the status 500 and `{"error": "internal_server_error"}`.

## Settings

| Variable              | Default                 |
|-----------------------|-------------------------|
| `DATABASE_URL`        | `sqlite:data/hearts.db` |
| `BIND_ADDR`           | `0.0.0.0:3000`          |
| `COOKIE_NAME`         | `cleanup_heart_vote`    |
| `COOKIE_SECURE`       | `true`                  |
| `COOKIE_SAME_SITE`    | `Lax`                   |
| `VOTE_WINDOW_SECONDS` | `172800`                |
