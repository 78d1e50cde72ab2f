//! Entity identifiers. Every project entity (asset, track, item, marker,
//! project) is addressed by a 128-bit identifier; cross-references between
//! entities are always by identifier, never by pointer, so dangling
//! references are representable and are handled as "not found".

use vstd::prelude::*;

verus! {

/// A 128-bit entity identifier (the integer form of a UUID).
#[derive(Debug, Clone, Copy, PartialEq, Eq, Structural, Hash, PartialOrd, Ord)]
pub struct Id(pub u128);

/// Relies on `uuid::Uuid::new_v4` to draw a random version-4 UUID.
/// The result is random, so nothing is promised of it; callers that need
/// freshness state it as a hypothesis where it matters.
#[verifier::external_body]
pub fn fresh_id() -> Id {
    Id(uuid::Uuid::new_v4().as_u128())
}

} // verus!
