# verinode_core

Protocol and operations core of a validator node, with its behaviour stated in contracts and proved
with Verus.

| Module | What it holds |
| --- | --- |
| `attestation` | proof-of-connectivity challenges, cached signature verification, relay tickets |
| `consensus` | view changes, equivocation, leader timeouts, fallback sync, slashing, fee burning |
| `cross_chain` | light clients, finality, committee sync, IBC packet timeouts and relaying |
| `crypto` | SHA-256, BLAKE2b-256, signing domains, key subgroups |
| `slashing`, `db` | slashing history and its storage, migrations, TTL cache |
| `backup` | state snapshots, integrity checks and restore tests |
| `job_scheduler` | priority queue of jobs under exclusive leases |
| `capacity_planning`, `graceful_degradation` | sizing recommendations, load shedding, release gates |
| `chaos`, `config`, `config_audit`, `incident_response` | operational policy |
| `ordered_map`, `codec`, `byte_order`, `arith`, `seqs`, `text`, `mempool` | shared building blocks |

Each type has a view, a model made of integers, sequences and maps. Contracts are written over the
models, as transitions from one state to the next. Properties that span several functions are
proof functions whose names start with `law_`, beside the functions they speak of.

`tests/` runs the library on concrete values. `app/` fits trends to usage histories in floating
point, and hands the estimates to `capacity_planning`.
