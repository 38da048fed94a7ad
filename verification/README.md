# pi_agent_core

A headless agent runtime whose decisions are verified with Verus. The library performs no I/O,
owns no executor and starts no thread. It is handed plain values, decides, and tells its host
what to do next; the host performs it and hands back what happened.

## The library, `src/`

| Modules | What they hold |
| --- | --- |
| `agent`, `state`, `queue`, `hooks`, `tool`, `event`, `error` | conversation state, input queues, tool registry, events |
| `scheduler`, `updates`, `stream`, `schema_validation` | tool batches, partial updates, model streams, argument checks |
| `transition`, `run`, `drive`, `lifecycle` | the run as a state machine: its steps, its code, and its laws |
| `compaction` | replacement of the retained history |
| `provider` | payloads, response grammars, retries, accounting and transports of three model providers |
| `capability`, `policy`, `luau` | capability manifests and Luau policies |
| `trace` | the linear trace of a run |
| `fixture`, `parity`, `evaluation` | declarative fixtures and the coding evaluation |
| `json`, `text`, `debug`, `decimal`, `model` | JSON values, text, printed messages, exact decimal sums, views |

Contracts speak of views: a type `T` with fields has a model `TModel` over `Seq`, `Set` and
`Map`. Public proof functions named `law_..` state what holds across functions.

What is believed without proof stands in `text`, `json`, `schema_validation` and `luau`, each
item with the outside function that it calls and what is claimed of it.

## The host, `app/`

Ordinary Rust around the library: shared ownership of an agent, the loops that drive runs and
compactions on the caller's executor, subscriptions, HTTP and `curl` transports, and two
programs, `parity` and `eval`.
