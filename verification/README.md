# pollus

The verified core of the Pollus poll service and its Telegram bot.

- `src/` is the library, verified with Verus: the errors and their HTTP
  answers (`error`), sessions and authentication (`auth`), the checks on
  submissions (`submission`), the computations of a poll read, among them
  the configurations that fill its coming week (`poll`), the bot's
  answers (`bot`), and a prefix test on text (`text`).
- `app/` is the server around it: configuration, the database queries, the
  HTTP routes, JWT encoding and the Telegram connection.
- `tests/` runs the library on concrete values.
