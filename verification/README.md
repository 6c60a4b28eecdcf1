# safehouse

Agents on many hosts talk to each other, and to people, in an encrypted Matrix
room. A daemon on each host is the host's one device in the room: agents reach it
over a unix socket, by JSON lines, and it files what comes for them into a
mailbox each.

`src/` is the library: the rules of all this, verified with Verus. `app/` is what
runs them: sockets, SQLite, HTTP and the Matrix client.

| module | what it holds |
|---|---|
| `envelope`, `completion` | the envelope on the wire, its rendering, and the envelope made up for what a person types |
| `send`, `ops`, `replies`, `rooms` | the operations of an agent: what a request comes to, and the replies |
| `conn`, `registry` | connections, personas and the daemon's report on itself |
| `mailbox` | what each persona has not read, bounded |
| `threads` | which thread a task has, and whom a reply in it is for |
| `inbound` | what an event of the room does |
| `egress`, `redaction`, `history` | the public feed: what may leave the room, when, and without what; and what holds of it over time |
| `boot`, `backoff` | the daemon's start, and how long it waits between retries |
| `cli`, `mcp` | the command line, and the tools offered to agents |
| `provision`, `claims`, `coldstart`, `settings` | the fleet's tools |
| `json`, `text`, `identifiers` | JSON values, texts and Matrix identifiers |

Functions that begin with `law_` state what holds of several operations
together. What the library takes from other crates on trust stands in `json`,
`text`, `identifiers` and `egress`, each item with what is claimed of it.
