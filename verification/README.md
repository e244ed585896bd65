# system_features

Container management and distributed computing support for an educational
operating system, written in Verus.

- `src/` is the verified library. `containers/` holds the container registry,
  lifecycle state machine, resource limits, security checks, images, networks,
  templates and service orchestration. `distributed/` holds the cluster,
  scheduler, MPI-style messaging, MapReduce, shared memory, fault tolerance,
  monitoring and the teaching examples. `ids`, `text`, `encoding`, `keyed` and
  `bytes` are shared helpers.
- `app/` is the unverified shell around the library: file and process I/O,
  sockets, namespaces and cgroups, serde copies of library types, and the few
  computations that are floating-point.
- `tests/` exercises the library through its public interface.
