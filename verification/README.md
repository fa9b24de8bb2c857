# expense_tracker

An expense-tracking web service (sign-up, sign-in with a session token,
expenses per user, an HTML dashboard) whose decisions are verified with Verus.

- `src/` is the verified library: how the session token is read from the
  `Authorization` and `Cookie` headers, how the middleware authorizes a
  request, the sign-in state machine, the form replies and session cookie,
  how database outcomes become answers, and the text form of UUIDs.
- `app/` is the web server around it: routes, database queries and templates.
  It calls a password and token service (`services`, `models::user`) that is
  not part of this code base.
- `tests/` runs the library on concrete requests and answers.
