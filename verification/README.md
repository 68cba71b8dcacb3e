# mia-secret

A local secrets manager with a command line and an HTTP API, whose rules are
verified with Verus.

- `src/` is the verified library: configuration rules, encryption of stored
  values and token hashing, the secret and token service, redaction of JSON,
  the error model of the API, address handling, the requests the command line
  makes, and the parts of the SQLite store that do not touch the database.
  Every operation that needs the database takes what was read as an argument
  and returns what is to be written.
- `app/` is the program around it: argument parsing, reading the
  configuration file, the data directory, SQLite, the HTTP server and client.
- `tests/` exercises the library on concrete values.

Operations that draw from the operating system's random source (nonces,
bearer tokens, ids) come in two forms: one that takes the drawn values as
arguments and whose result is fixed by them (`create_secret_with`,
`encrypt_with`, `plain_token_from`, ...), and one that makes the draws and
calls it. The same holds for the current time (`authorize_at`,
`create_token_at`, ...).
