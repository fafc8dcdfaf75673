# buzz_core

The core of a host that runs agents in chat rooms, written and proved in Verus.

| module | what it decides |
| --- | --- |
| `participation` | which threads an agent is part of, and how often it may answer unasked |
| `ompk_execution` | which directory a signed event may start an agent in |
| `permission` | which permission request a decision of the owner reaches, and when it is too late |
| `pool` | when the session of a channel is kept, and how it is given its system prompt |
| `delivery` | how a signed final reply is kept, delivered, retried, ended, and taken up after a restart |
| `catalog` | which harnesses there are, and what an id or an old command stands for |
| `readiness` | what an agent is launched with, and whether its runtime is ready |
| `pair_key` | under which key an agent's runtime is known in a workspace |

`outside` holds the calls into outside crates, each with the contract that the proofs rely on.
`text`, `json`, `env_map`, `room_event`, `keyed`, `search` and `decision` are what the others
are built from. Proof functions whose names begin with `law_` state what holds across calls.

The library does no input or output. `app/` is the host around it: it looks at paths, keeps
the outbox directory, talks to the relay, runs probes and wakes those who wait. It hands the
library plain values and does what the library answers. Clocks are read there too: the library
counts instants in nanoseconds, and the retry times of deliveries in milliseconds.
