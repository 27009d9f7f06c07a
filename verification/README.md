# topo_core

A 2D topology-optimisation engine (SIMP on a regular grid of Q4 elements) and the web
service around it.

- `src/` is the verified library: grid topology and degree-of-freedom numbering, boundary
  conditions and their check against a grid, the predefined load scenarios, the search
  windows of the sensitivity filter, the text picture of a result, the job store, the
  request checks of the HTTP handlers and the state machine of the live-update WebSocket.
  Real-valued data (forces, prescribed displacements) cross the library as the bit patterns
  of their `f64` values.
- `app/` is the service: the float numerics (element stiffness, assembly, Gauss elimination,
  filter weights, optimality-criteria update, the SIMP loop), the VTK/CSV writers, and the
  axum/tokio plumbing.
- `tests/` exercises the library.
