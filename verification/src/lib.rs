//! Topology-optimisation engine: the integer side of the planar Q4 finite-element grid,
//! boundary conditions, filter neighbourhoods, result rendering and the job service's
//! bookkeeping, each with its contract proved by Verus.

pub mod error;
pub mod export;
pub mod fem;
pub mod filter;
pub mod jobs;
pub mod mesh;
pub mod routes;
pub mod ws;
