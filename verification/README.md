# lambda_gateway

The verified core of a small Lambda platform: a gateway that keeps warm
function containers in a pool and hands out host ports, and the runtime that
serves a function inside its container.

- `src/` is the Verus library.
  - `queue_set`: a FIFO queue that refuses duplicates (`VecDeque` + `HashSet`).
  - `port`: the pool of host ports; allocation from the front, returns to the back.
  - `pool`: the host pool as a state machine: leasing, spawning, readiness
    checks, returns, TTL reaping, scaling to the minimum, shutdown.
  - `docker`: the container request that the gateway sends, as plain values.
  - `runtime`: routing, response headers, error bodies of the function runtime.
  - `hello`: the example function's simulated failures, delays and responses,
    JSON bodies included.
  - `json`: JSON text as serde_json writes it: escaped strings, members,
    objects, and maps with their keys in order.
  - `text`: decimal numbers and string comparisons.
- `app/` is the program around it: the tokio services with their locks,
  channels and background tasks, the Docker and HTTP calls, the disk checks of
  the configuration, the clock, serde forms of the models, logging, and the
  example function's `main`.
- `tests/` runs the library on concrete values.
