# Friday

An assistant that diagnoses services: it starts a coding agent on a question, gives it tools
that reach remote machines, and keeps what was said.

`src/` is the library, verified with Verus. It holds what is decided and computed:

- `agent`: which agents are known, how they are started, and how what they write is read
- `app`: sessions and messages, environments and their credentials, agents, settings
- `arthas`: attaching to a running Java process and the sessions that follow from it
- `analyzer`: heap dumps that are open, and the worker that analyses them
- `code`: clones of repositories, searching and reading them
- `exec`: connections to other machines, tunnels, transfers
- `infra`: paths, log files, columns of the database
- `text`, `chars`, `json`, `order`, `regexes`, `outside`, `ids`: what the others rest on

Tables are vectors of rows, and each operation says what it makes of them. Work that waits for
something outside is a state machine: a step takes what happened and tells what to do next.

`app/` is the program around it: the database, the key chain, SSH, child processes and the loop
that reads commands. `tests/` run the library.
