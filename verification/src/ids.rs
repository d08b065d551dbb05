//! Identifiers for the principals that may own physical pages, and the
//! errors reported by the page-ownership tracker.

use vstd::prelude::*;

verus! {

/// Raw identifier reserved for the hypervisor itself.
pub const HYPERVISOR_ID: u64 = 0;

/// Raw identifier reserved for the host VM.
pub const HOST_ID: u64 = 1;

/// Smallest raw identifier that names a nested guest VM. Guest identifiers
/// are minted monotonically from this value as guests are created.
pub const FIRST_GUEST_ID: u64 = 2;

/// An opaque identifier for a principal that may own pages: the hypervisor,
/// the host VM, or a nested guest VM.
#[derive(Clone, Copy, Debug, PartialEq, Eq, Structural)]
pub struct PageOwnerId {
    pub raw: u64,
}

impl PageOwnerId {
    /// The identifier of the hypervisor.
    pub fn hypervisor() -> (r: Self)
        ensures
            r.raw == HYPERVISOR_ID,
    {
        Self { raw: HYPERVISOR_ID }
    }

    /// The identifier of the host VM.
    pub fn host() -> (r: Self)
        ensures
            r.raw == HOST_ID,
    {
        Self { raw: HOST_ID }
    }

    /// Interprets a raw value from a guest as an identifier. The two
    /// distinguished identifiers (hypervisor and host) cannot be named this
    /// way: a caller of the TEE interface may only refer to nested guests.
    pub fn new(raw: u64) -> (r: Option<Self>)
        ensures
            raw >= FIRST_GUEST_ID ==> r == Some(PageOwnerId { raw }),
            raw < FIRST_GUEST_ID ==> r is None,
    {
        if raw >= FIRST_GUEST_ID {
            Some(Self { raw })
        } else {
            None
        }
    }

    /// The raw 64-bit value of this identifier.
    pub fn raw(&self) -> (r: u64)
        ensures
            r == self.raw,
    {
        self.raw
    }
}

/// Errors surfaced by the per-page ownership tracker.
#[derive(Clone, Copy, Debug, PartialEq, Eq, Structural)]
pub enum PageTrackingError {
    /// The page is permanently reserved and can never change owners.
    ReservedPage,
    /// The page has no owner at all.
    UnownedPage,
    /// The ownership stack is full (on push), or only the inextinguishable
    /// root owner is left (on pop).
    OwnerOverflow,
}

/// Result type of the page-ownership tracker.
pub type PageTrackingResult<T> = core::result::Result<T, PageTrackingError>;

} // verus!
