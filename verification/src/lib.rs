//! Container management and distributed computing support for an educational
//! operating system: the decision logic of container lifecycles, resources,
//! security, images and orchestration, and of a distributed framework with
//! scheduling, message passing, MapReduce, shared memory, fault tolerance and
//! monitoring.
use vstd::prelude::*;

pub mod ids;
pub mod text;
pub mod encoding;
pub mod keyed;
pub mod bytes;
pub mod distributed;
pub mod containers;

verus! {

} // verus!
