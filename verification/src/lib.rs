//! A round-robin request distribution engine for a redirecting load
//! balancer: a fixed, non-empty set of backend endpoints, a rotation cursor
//! that advances by one (wrapping) before each read, and the redirect
//! target built for the selected backend. The contracts pin the selection
//! order exactly; the laws in `rotation` state that the rotation covers
//! every backend once per cycle, has period equal to the set size, and
//! never skips or repeats out of turn.

pub mod backend;
pub mod distributor;
pub mod location;
pub mod rotation;
