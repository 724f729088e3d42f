//! Dense containers that hand out stable integer identities for inserted
//! values. Removal swaps the victim with the last live element, so storage
//! stays contiguous while identities of unrelated elements stay valid;
//! identities freed by removal are kept as tombstones and recycled by later
//! insertions.

use vstd::prelude::*;

pub mod container;
pub mod reference_container;
mod vec_util;

verus! {

/// Errors reported by the containers.
#[derive(Clone, Copy, PartialEq, Eq, Structural, Debug)]
pub enum ContainerError {
    /// The identity was never issued by this container.
    IdNotFound,
    /// The identity exists in the identity table, but its slot lies outside
    /// the live range: its element was removed and the identity is pending
    /// recycling.
    StaleIndex,
    /// A raw slot number exceeds the identity table's length.
    IndexOutOfBounds,
}

} // verus!
