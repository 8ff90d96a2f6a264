# claunote_auth

The authentication layer of a single-user notes server, with its logic verified
by Verus.

- `src/` is the verified library. `auth.rs` is the authenticator: logins and
  sessions, lock-outs, the second factor, and changes of the account. `state.rs`
  says what it remembers and what each request makes of that; `change.rs` says
  on what terms the account changes. `laws.rs` states what holds of the whole:
  how long sessions and pending logins last, when a client is locked out, that a
  backup code works once, that a cookie gives its token back. `runs.rs` states
  what holds of every run of requests: that a lock-out is not extended, that the
  second factor stays off until it is confirmed, that nothing else ends a session
  early.
- `app/` puts the authenticator behind a lock and keeps its account in
  `.auth.json`.
- `tests/` runs the library on concrete values.

A setup of the second factor that is started and not confirmed has no effect on
logins: its secret is kept apart from the confirmed one. A file from before the
two were told apart is read as if its secret had been confirmed, if its second
factor is on.

The authenticator's clock does not run backwards from one request to the next. A
change of the account is finished on the account that it was worked out from;
`app/` holds its lock for that long.

A request that depends on the clock or on random bytes comes in two forms: one
takes them from the system, the other is given them and says exactly what comes
of them. Password hashing (Argon2id), Base64, random bytes and one-time
passwords come from outside crates. What the proofs take on trust about those is
written above each function marked `external_body`.
