# taskmanager

A task manager with a pomodoro timer: users register and log in, tasks are
kept in SQLite, and each user's timer, history and counts are kept in Redis,
which the server speaks to over the RESP wire format.

The library (`src/`) holds the logic, verified with Verus:

- `resp`: RESP values, their encoding, and the decoding of replies from the
  bytes a connection delivers; `resp_laws` proves that a decoded encoding
  gives back the value, and that once some bytes decide a reply, more bytes
  change nothing.
- `redis`: the client's configuration, its commands and what replies mean.
- `pomodoro`: the timer as a state machine (start, pause, resume, reset, one
  second at a time, catching up after a reload); `pomodoro_laws` states what
  holds across its operations.
- `task`: task status, rows, pages of the task list, the task form.
- `backend`: logins and registrations (with bcrypt), and the Redis keys and
  commands of the pomodoro data.
- `session`, `text`: small decisions of the pages, and decimal text.

`app/` is the Dioxus program around it: the pages, the server functions, the
SQLite queries, and the Redis connection over Tokio.
