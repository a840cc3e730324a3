# v2_residency

Keeps the number of loaded agents of a session within a limit.

A session may spawn more agents than it may keep loaded. This library counts the slots in use,
remembers the loaded agents from least to most recently used, and decides which one to unload when a
slot is needed. An agent is unloaded only after it was found at rest, without unfinished submissions,
without a running turn and without waiting mailbox items.

What the library decides needs facts that only the thread manager has. Each decision procedure is
therefore a state machine that asks for one thing at a time: `request()` says what it waits for, and
`step()` takes the reply.

| Module | Contents |
| --- | --- |
| `thread`, `error` | threads, statuses and errors, as far as the rules read them |
| `residency` | `V2Residency`: residents, promised slots, unfinished submissions |
| `gates` | one asynchronous lock per thread, shared by its users |
| `exchange` | requests and replies |
| `retire` | unloading one agent, if it is idle |
| `unload` | the search for an agent to unload |
| `reservation` | asking for a slot, and the slot itself |
| `release` | unloading a given agent on request |
| `state`, `history` | the mathematical models that the contracts speak of |
| `*_laws` | what holds of the operations taken together |

`app/` puts the residency behind a lock, performs the requests, and offers the operations as
asynchronous functions.
