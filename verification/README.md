# mini_cassandra_loadgen

A load generator and downtime detector for Cassandra. It reads and writes
continuously, counts what fails, exposes Prometheus metrics, answers `/healthz` and
`/readyz`, and keeps running when Cassandra does not.

`src/` is the verified library. All decisions of the program are in it, as functions
from a state and what happened to the next state, the metrics that change and what is
to be logged:

- `environment` and `config`: the settings, from the environment variables
- `workload`: the ring of keys that were written last, the choice of operations, and
  what the end of a read or a write means
- `state`: what the tasks share
- `cassandra`: the statements, the phases in which a client comes about, and the waits
  between attempts
- `http`: the answers of the HTTP server
- `metrics`: the names of the metrics
- `util`: the clock and the random values
- `text`: trimming, splitting, joining, and numbers in decimal
- `runs`: what holds of any run of the program

`app/` is the program around it: the tasks, the sockets, the logs, the driver, and what
is computed in floating point. `tests/` holds the tests of the library.
