//! The Tokio backend marker.

use vstd::prelude::*;

verus! {

/// The backend that drives sockets through the Tokio reactor.
#[derive(Clone, Copy, Debug, Default, Eq, Hash, Ord, PartialEq, PartialOrd)]
pub struct TokioBackend;

} // verus!
