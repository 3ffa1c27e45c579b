// Supervision and pool management of sandboxed request workers: the
// resource-limit state machine of a worker's supervisor, the grace cap of the
// near-heap-limit callback, a worker's lifecycle and request drain, the pool's
// identity table with its create/route/shutdown decisions, and the selection
// of root certificate sources.
use vstd::prelude::*;

pub mod certs;
pub mod heap;
pub mod pool;
pub mod supervisor;
pub mod worker;

verus! {

} // verus!
