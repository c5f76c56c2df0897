# xfinity_cli

The verified core of `xfin`, a command-line client for the Xfinity account
experience (`www.xfinity.com/digital/service/api`), written in Verus.

- `src/` is the library. Every function carries a contract that Verus proves:
  text and JSON handling (`text`, `json`), request construction and response
  classification including the two-step statement-PDF download (`client`),
  the utility profile DTOs (`profile`, `dates`), configuration (`config`),
  the command decisions (`commands/*`), text views (`output`), and
  self-update (`selfupdate`). Commands that alternate network, keychain or
  file work with decisions are written as state machines: the library takes
  the outcome of the last action and names the next one.
- `app/` is the program: command-line parsing, HTTP, the OS keychain, files
  and the terminal, driving the library's state machines.
- `tests/` exercises the library on concrete values.

Exit codes: 1 other, 2 usage, 3 auth, 4 not found, 5 upstream or network.
