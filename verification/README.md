# pagoda_runtime

The core of a distributed runtime for inference services, written in Rust and verified with Verus.

The library decides; it does not touch sockets, files, clocks or the environment. What comes from
there is handed to it as plain values, and what is to be done there it hands back.

- `src/` is the library. Each module states what it does in `requires` and `ensures`, over views and
  spec functions; properties that span several functions are public proof functions named `law_*`.
- `app/` carries the decisions out: tokio, axum, NATS, files, timelines.
- `tests/` runs the library on concrete values.

| module | subject |
| --- | --- |
| `protocols` | port name identifiers, annotated increments of a response stream, values that may be errors |
| `pipeline` | the nodes of a pipeline, the registry of parameters |
| `pipeline::tcp` | the response plane: subjects and tombstones of the server, its connections, the worker's side |
| `servicegroup` | namespaces, service groups and port names, the caller's view of instances, bringing a port name into service |
| `service` | what services tell of themselves |
| `storage::kv` | buckets in memory, in files, in etcd and in NATS |
| `system_health`, `system_status_server` | the health of a process, and what its status server answers |
| `runtime` | the resources of a process and how it shuts down |
| `slug`, `transports`, `timeline` | names, subjects and annotations |
| `dict`, `dash`, `text`, `ids`, `json`, `error`, `config`, `discovery` | what the others build on |

What other crates compute is called through small functions marked `external_body`, in `dash`, `ids`,
`json`, `text`, `slug` and `servicegroup`. Each of them names the function that it calls and says what
is claimed of it.
