//! Trusted interface to the fixed-capacity vectors of the `arrayvec` crate.
//!
//! The ownership tracker stores two bounded collections in `ArrayVec`s: the
//! per-page owner stack (capacity [`MAX_PAGE_OWNERS`]) and the sparse map of
//! the page directory (capacity [`MAX_SPARSE_MAP_ENTRIES`]). The contents of
//! each are named by an uninterpreted sequence, and every method the tracker
//! calls is wrapped with a contract stating what the crate's source shows.

use vstd::prelude::*;

verus! {

/// The maximum length for an ownership chain. Enough for the host VM to
/// assign a page to a guest VM without further nesting.
pub const MAX_PAGE_OWNERS: usize = 3;

/// The maximum number of entries in the sparse map of a page directory.
pub const MAX_SPARSE_MAP_ENTRIES: usize = 16;

#[verifier::external_type_specification]
#[verifier::external_body]
#[verifier::reject_recursive_types(T)]
pub struct ExArrayVec<T, const CAP: usize>(arrayvec::ArrayVec<T, CAP>);

/// A bounded stack of raw page-owner identifiers.
pub type OwnerVec = arrayvec::ArrayVec<u64, MAX_PAGE_OWNERS>;

/// A bounded vector of sparse-map entries `(base_pfn, num_pages,
/// page_map_index)`.
pub type SparseVec = arrayvec::ArrayVec<(u64, u64, u64), MAX_SPARSE_MAP_ENTRIES>;

/// The elements an owner stack holds, bottom first.
pub uninterp spec fn owner_seq(v: OwnerVec) -> Seq<u64>;

/// The elements a sparse-map vector holds, in insertion order.
pub uninterp spec fn sparse_seq(v: SparseVec) -> Seq<(u64, u64, u64)>;

/// Relies on arrayvec::ArrayVec::new: a new vector is empty.
#[verifier::external_body]
pub(crate) fn owner_vec_new() -> (r: OwnerVec)
    ensures
        owner_seq(r) == Seq::<u64>::empty(),
{
    arrayvec::ArrayVec::new()
}

/// Relies on arrayvec::ArrayVec::len: the number of elements held.
#[verifier::external_body]
pub(crate) fn owner_vec_len(v: &OwnerVec) -> (n: usize)
    ensures
        n == owner_seq(*v).len(),
{
    v.len()
}

/// Relies on arrayvec::ArrayVec::try_push: appends the element when the
/// vector is below capacity, and otherwise returns an error and leaves the
/// vector unchanged.
#[verifier::external_body]
pub(crate) fn owner_vec_try_push(v: &mut OwnerVec, id: u64) -> (ok: bool)
    ensures
        owner_seq(*old(v)).len() < MAX_PAGE_OWNERS ==> ok && owner_seq(*final(v))
            == owner_seq(*old(v)).push(id),
        owner_seq(*old(v)).len() >= MAX_PAGE_OWNERS ==> !ok && *final(v) == *old(v),
{
    v.try_push(id).is_ok()
}

/// Relies on arrayvec::ArrayVec::pop: removes and returns the last element,
/// or returns nothing and leaves an empty vector unchanged.
#[verifier::external_body]
pub(crate) fn owner_vec_pop(v: &mut OwnerVec) -> (r: Option<u64>)
    ensures
        owner_seq(*old(v)).len() == 0 ==> r is None && *final(v) == *old(v),
        owner_seq(*old(v)).len() > 0 ==> r == Some(owner_seq(*old(v)).last()) && owner_seq(
            *final(v),
        ) == owner_seq(*old(v)).drop_last(),
{
    v.pop()
}

/// Relies on arrayvec::ArrayVec's Index impl (through its slice deref): the
/// element at an in-bounds index.
#[verifier::external_body]
pub(crate) fn owner_vec_get(v: &OwnerVec, i: usize) -> (r: u64)
    requires
        i < owner_seq(*v).len(),
    ensures
        r == owner_seq(*v)[i as int],
{
    v[i]
}

/// Relies on arrayvec::ArrayVec::new: a new vector is empty.
#[verifier::external_body]
pub(crate) fn sparse_vec_new() -> (r: SparseVec)
    ensures
        sparse_seq(r) == Seq::<(u64, u64, u64)>::empty(),
{
    arrayvec::ArrayVec::new()
}

/// Relies on arrayvec::ArrayVec::len: the number of elements held.
#[verifier::external_body]
pub(crate) fn sparse_vec_len(v: &SparseVec) -> (n: usize)
    ensures
        n == sparse_seq(*v).len(),
{
    v.len()
}

/// Relies on arrayvec::ArrayVec::try_push: appends the element when the
/// vector is below capacity, and otherwise returns an error and leaves the
/// vector unchanged.
#[verifier::external_body]
pub(crate) fn sparse_vec_try_push(v: &mut SparseVec, e: (u64, u64, u64)) -> (ok: bool)
    ensures
        sparse_seq(*old(v)).len() < MAX_SPARSE_MAP_ENTRIES ==> ok && sparse_seq(*final(v))
            == sparse_seq(*old(v)).push(e),
        sparse_seq(*old(v)).len() >= MAX_SPARSE_MAP_ENTRIES ==> !ok && *final(v) == *old(v),
{
    v.try_push(e).is_ok()
}

/// Relies on arrayvec::ArrayVec's Index impl (through its slice deref): the
/// element at an in-bounds index.
#[verifier::external_body]
pub(crate) fn sparse_vec_get(v: &SparseVec, i: usize) -> (r: (u64, u64, u64))
    requires
        i < sparse_seq(*v).len(),
    ensures
        r == sparse_seq(*v)[i as int],
{
    v[i]
}

} // verus!
