# clarity_repl

An interactive session on a chain of Clarity smart contracts, verified with Verus.

A session takes commands and snippets of code, keeps track of the contracts that
were stored and of who sends, and shows what came of everything. It does not run
code itself. Where it needs the chain it hands out a `Request` together with a task
that remembers where the work stands, and goes on when the host brings the `Reply`.

| module       | what it holds                                                          |
|--------------|------------------------------------------------------------------------|
| `model`      | the state of a session and every step of it, as mathematics            |
| `session`    | the session that computes those steps                                  |
| `laws`       | what holds over more than one step                                     |
| `chain`      | requests, replies and steps                                            |
| `settings`   | what a session starts from                                             |
| `diagnostic` | errors that point at code, and the highlighted code                    |
| `reference`  | the reference manual of the language                                   |
| `event`      | events in JSON                                                         |
| `paint`      | coloured text, through `ansi_term`                                     |
| `table`      | tables, through `prettytable`                                          |
| `text`       | splitting, joining, replacing, numbers and the alphabetical order      |

`app/` runs a session on an interpreter of the language.
