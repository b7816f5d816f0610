# jjs

Verified core of the JJS invoker tooling, written in Verus.

- `src/api.rs`: the requests of the JJS HTTP API client (method, path,
  path and query parameters, body) for every endpoint.
- `src/models.rs`: the `Run` model.
- `src/cgroup.rs`: cgroup version detection and its cache, the setup steps of a
  jail's cgroups under cgroups v1 and v2, and how a process joins a group.
- `src/json.rs`: the JSON document model used by the test runner.
- `src/outputs.rs`, `src/invocation.rs`, `src/runner.rs`: the test runner's
  output export, execution-request building, names and decisions.
- `src/text.rs`: decimal numerals and string helpers.

`app/` holds the I/O around the library: filesystem and process work for
cgroups, serde conversions, and the docker/HTTP work of the test runner.
