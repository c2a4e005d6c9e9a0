//! Identifiers and the error type of the routing core.
//!
//! A space, an agent and a basis are opaque fixed-size identifiers: the
//! routing logic only ever compares them for equality, so each is modelled
//! as a fixed-width integer handle.

use vstd::prelude::*;

verus! {

/// Identifier of a routing partition ("space") of the peer overlay.
#[derive(Clone, Copy, Debug, PartialEq, Eq, Structural, Hash)]
pub struct KitsuneSpace {
    pub id: u64,
}

/// Identifier of a peer ("agent") within a space.
#[derive(Clone, Copy, Debug, PartialEq, Eq, Structural, Hash)]
pub struct KitsuneAgent {
    pub id: u64,
}

/// Routing key used to select which agents are relevant to a request.
///
/// Under the short-circuit routing policy every joined agent of a space is
/// relevant whatever the basis, but the identifier is kept in every query
/// signature so that a real proximity policy can be substituted later.
#[derive(Clone, Copy, Debug, PartialEq, Eq, Structural, Hash)]
pub struct KitsuneBasis {
    pub id: u64,
}

/// Errors surfaced to callers of the routing core.
///
/// A failed remote call to a single peer is never an error of the overall
/// operation: fan-out absorbs it.  Deadline expiry is normal termination
/// with a partial result, not an error.
#[derive(Clone, Copy, Debug, PartialEq, Eq, Structural)]
pub enum KitsuneP2pError {
    /// The operation referenced a space that has no directory entry.
    UnknownSpace(KitsuneSpace),
    /// A single remote dispatch failed; absorbed inside fan-out loops.
    TransportFailure,
}

} // verus!
