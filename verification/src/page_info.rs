//! The per-page ownership record: a state machine over `Reserved`, `Free`
//! and `Owned`, where `Owned` carries a bounded stack of owner identifiers.
//! The stack establishes a chain of custody: the host hands a page to a
//! guest by pushing, and reclaims it on guest destruction by popping. The
//! bottom (root) owner is inextinguishable.

use vstd::prelude::*;

use crate::avec::{
    owner_seq, owner_vec_get, owner_vec_len, owner_vec_new, owner_vec_pop, owner_vec_try_push,
    OwnerVec, MAX_PAGE_OWNERS,
};
use crate::ids::{PageOwnerId, PageTrackingError, PageTrackingResult, HYPERVISOR_ID};

verus! {

/// Mathematical model of a [`PageInfo`]: the owner stack is a sequence of
/// raw identifiers, bottom first.
pub enum PageInfoView {
    Reserved,
    Free,
    Owned(Seq<u64>),
}

impl PageInfoView {
    /// Structural invariant: an owned stack is never empty and never deeper
    /// than [`MAX_PAGE_OWNERS`].
    pub open spec fn wf(self) -> bool {
        match self {
            PageInfoView::Owned(s) => 1 <= s.len() <= MAX_PAGE_OWNERS,
            _ => true,
        }
    }

    /// Depth of the ownership chain.
    pub open spec fn depth(self) -> nat {
        match self {
            PageInfoView::Owned(s) => s.len(),
            _ => 0,
        }
    }

    /// The current owner: the top of the stack, if any.
    pub open spec fn owner(self) -> Option<PageOwnerId> {
        match self {
            PageInfoView::Owned(s) => Some(PageOwnerId { raw: s.last() }),
            _ => None,
        }
    }

    /// Whether a push of a new owner succeeds in this state.
    pub open spec fn push_allowed(self) -> bool {
        match self {
            PageInfoView::Free => true,
            PageInfoView::Owned(s) => s.len() < MAX_PAGE_OWNERS,
            PageInfoView::Reserved => false,
        }
    }

    /// The error a failing push reports.
    pub open spec fn push_err(self) -> PageTrackingError {
        match self {
            PageInfoView::Reserved => PageTrackingError::ReservedPage,
            _ => PageTrackingError::OwnerOverflow,
        }
    }

    /// The state after a successful push of `id`.
    pub open spec fn pushed(self, id: u64) -> PageInfoView {
        match self {
            PageInfoView::Free => PageInfoView::Owned(seq![id]),
            PageInfoView::Owned(s) => PageInfoView::Owned(s.push(id)),
            PageInfoView::Reserved => self,
        }
    }

    /// Whether a pop succeeds in this state: only an owned page with more
    /// than the root owner can lose its top owner.
    pub open spec fn pop_allowed(self) -> bool {
        match self {
            PageInfoView::Owned(s) => s.len() > 1,
            _ => false,
        }
    }

    /// The error a failing pop reports.
    pub open spec fn pop_err(self) -> PageTrackingError {
        match self {
            PageInfoView::Reserved => PageTrackingError::ReservedPage,
            PageInfoView::Free => PageTrackingError::UnownedPage,
            PageInfoView::Owned(_) => PageTrackingError::OwnerOverflow,
        }
    }

    /// The state after a successful pop.
    pub open spec fn popped(self) -> PageInfoView {
        match self {
            PageInfoView::Owned(s) => PageInfoView::Owned(s.drop_last()),
            _ => self,
        }
    }

    /// The owner a successful pop returns: the top of the stack.
    pub open spec fn pop_value(self) -> u64 {
        match self {
            PageInfoView::Owned(s) => s.last(),
            _ => arbitrary(),
        }
    }
}

/// What [`PageInfo::pop_owners_while`] leaves behind when it started from an
/// owned stack `s`: the bottom `m` owners remain, every popped owner
/// satisfied `check`, and the loop stopped either at the inextinguishable
/// root or at an owner for which `check` answered false.
pub open spec fn popped_while_to<F: Fn(&PageOwnerId) -> bool>(
    s: Seq<u64>,
    check: F,
    result: PageInfoView,
    m: int,
) -> bool {
    &&& 1 <= m <= s.len()
    &&& result == PageInfoView::Owned(s.take(m))
    &&& forall|i: int| m <= i < s.len() ==> check.ensures((&(PageOwnerId { raw: s[i] }),), true)
    &&& m > 1 ==> check.ensures((&(PageOwnerId { raw: s[m - 1] }),), false)
}

/// What a successful [`PageInfo::find_owner`] found in an owned stack `s`:
/// the owner at position `i` satisfied `check`, and every owner above it
/// (closer to the top of the stack) did not.
pub open spec fn found_owner_at<F: Fn(&PageOwnerId) -> bool>(
    s: Seq<u64>,
    check: F,
    id: PageOwnerId,
    i: int,
) -> bool {
    &&& 0 <= i < s.len()
    &&& id == (PageOwnerId { raw: s[i] })
    &&& check.ensures((&id,), true)
    &&& forall|j: int| i < j < s.len() ==> check.ensures((&(PageOwnerId { raw: s[j] }),), false)
}

/// `PageInfo` holds the current ownership status of a 4 KiB page.
pub enum PageInfo {
    /// Not present, reserved, or otherwise not usable; never changes state.
    Reserved,
    /// Page is unowned. No pages are in this state after startup: they are
    /// either reserved or owned by the hypervisor / VMs.
    Free,
    /// Page is owned by the hypervisor or a VM. The stack of identifiers is
    /// the chain of custody, bottom first; the top is the current owner.
    Owned(OwnerVec),
}

impl View for PageInfo {
    type V = PageInfoView;

    open spec fn view(&self) -> PageInfoView {
        match self {
            PageInfo::Reserved => PageInfoView::Reserved,
            PageInfo::Free => PageInfoView::Free,
            PageInfo::Owned(v) => PageInfoView::Owned(owner_seq(*v)),
        }
    }
}

impl PageInfo {
    /// Well-formedness of the underlying representation.
    pub open spec fn wf(&self) -> bool {
        self@.wf()
    }

    /// Creates a new `PageInfo` that is free.
    pub fn new() -> (r: Self)
        ensures
            r@ == PageInfoView::Free,
            r.wf(),
    {
        PageInfo::Free
    }

    /// Creates a new `PageInfo` that is initially owned by the hypervisor.
    pub fn new_hypervisor_owned() -> (r: Self)
        ensures
            r@ == PageInfoView::Owned(seq![HYPERVISOR_ID]),
            r.wf(),
    {
        let mut owners = owner_vec_new();
        let _ = owner_vec_try_push(&mut owners, HYPERVISOR_ID);
        PageInfo::Owned(owners)
    }

    /// Creates a new `PageInfo` that is forever reserved.
    pub fn new_reserved() -> (r: Self)
        ensures
            r@ == PageInfoView::Reserved,
            r.wf(),
    {
        PageInfo::Reserved
    }

    /// Returns the current owner, if it exists.
    pub fn owner(&self) -> (r: Option<PageOwnerId>)
        requires
            self.wf(),
        ensures
            r == self@.owner(),
    {
        match self {
            PageInfo::Owned(owners) => {
                let n = owner_vec_len(owners);
                Some(PageOwnerId { raw: owner_vec_get(owners, n - 1) })
            },
            _ => None,
        }
    }

    /// Returns if the page is free.
    pub fn is_free(&self) -> (r: bool)
        ensures
            r == (self@ is Free),
    {
        matches!(self, PageInfo::Free)
    }

    /// Returns if the page is marked reserved.
    pub fn is_reserved(&self) -> (r: bool)
        ensures
            r == (self@ is Reserved),
    {
        matches!(self, PageInfo::Reserved)
    }

    /// Pops the current owner if there is one, returning the page to the
    /// previous owner. The root owner can never be popped.
    pub fn pop_owner(&mut self) -> (r: PageTrackingResult<PageOwnerId>)
        requires
            old(self).wf(),
        ensures
            final(self).wf(),
            old(self)@.pop_allowed() ==> r == Ok::<PageOwnerId, PageTrackingError>(
                PageOwnerId { raw: old(self)@.pop_value() },
            ) && final(self)@ == old(self)@.popped(),
            !old(self)@.pop_allowed() ==> r == Err::<PageOwnerId, PageTrackingError>(
                old(self)@.pop_err(),
            ) && final(self)@ == old(self)@,
    {
        match self {
            PageInfo::Owned(owners) => {
                let n = owner_vec_len(owners);
                if n == 1 {
                    // Can't pop the last owner.
                    Err(PageTrackingError::OwnerOverflow)
                } else {
                    let id = owner_vec_pop(owners).unwrap();
                    Ok(PageOwnerId { raw: id })
                }
            },
            PageInfo::Reserved => Err(PageTrackingError::ReservedPage),
            PageInfo::Free => Err(PageTrackingError::UnownedPage),
        }
    }

    /// Pops owners while the provided `check` function returns true and a
    /// pop is legal; stops on the first failing pop or negative answer and
    /// never errors. Free and reserved pages are left untouched.
    pub fn pop_owners_while<F: Fn(&PageOwnerId) -> bool>(&mut self, check: F)
        requires
            old(self).wf(),
            forall|o: PageOwnerId| #[trigger] check.requires((&o,)),
        ensures
            final(self).wf(),
            !(old(self)@ is Owned) ==> final(self)@ == old(self)@,
            old(self)@ matches PageInfoView::Owned(s) ==> exists|m: int|
                popped_while_to(s, check, final(self)@, m),
    {
        let ghost s: Seq<u64> = match old(self)@ {
            PageInfoView::Owned(s0) => s0,
            _ => Seq::empty(),
        };
        let ghost mut m: int = s.len() as int;
        proof {
            assert(s.take(m) =~= s);
        }
        loop
            invariant
                self.wf(),
                forall|o: PageOwnerId| #[trigger] check.requires((&o,)),
                !(old(self)@ is Owned) ==> self@ == old(self)@ && !(self@ is Owned),
                old(self)@ is Owned ==> old(self)@ == PageInfoView::Owned(s),
                old(self)@ is Owned ==> 1 <= m <= s.len(),
                old(self)@ is Owned ==> self@ == PageInfoView::Owned(s.take(m)),
                old(self)@ is Owned ==> forall|i: int|
                    m <= i < s.len() ==> check.ensures((&(PageOwnerId { raw: s[i] }),), true),
            ensures
                self.wf(),
                !(old(self)@ is Owned) ==> self@ == old(self)@,
                old(self)@ is Owned ==> popped_while_to(s, check, self@, m),
            decreases self@.depth(),
        {
            let o = match self.owner() {
                Some(o) => o,
                None => {
                    break ;
                },
            };
            proof {
                assert(s.take(m).last() == s[m - 1]);
            }
            if !check(&o) {
                break ;
            }
            let popped = self.pop_owner();
            if popped.is_err() {
                break ;
            }
            proof {
                assert(s.take(m).drop_last() =~= s.take(m - 1));
                m = m - 1;
            }
        }
        proof {
            if old(self)@ is Owned {
                assert(exists|mm: int| popped_while_to(s, check, self@, mm));
            }
        }
    }

    /// Finds the first owner, from the top of the stack downward, for which
    /// `check` returns true.
    pub fn find_owner<F: Fn(&PageOwnerId) -> bool>(&self, check: F) -> (r: Option<PageOwnerId>)
        requires
            self.wf(),
            forall|o: PageOwnerId| #[trigger] check.requires((&o,)),
        ensures
            !(self@ is Owned) ==> r is None,
            self@ matches PageInfoView::Owned(s) ==> match r {
                Some(id) => exists|i: int| found_owner_at(s, check, id, i),
                None => forall|j: int|
                    0 <= j < s.len() ==> check.ensures((&(PageOwnerId { raw: s[j] }),), false),
            },
    {
        match self {
            PageInfo::Owned(owners) => {
                // Go in reverse to start at the top of the ownership stack.
                let ghost s = owner_seq(*owners);
                let mut found: Option<PageOwnerId> = None;
                let mut k = owner_vec_len(owners);
                loop
                    invariant_except_break
                        found is None,
                    invariant
                        forall|o: PageOwnerId| #[trigger] check.requires((&o,)),
                        k <= s.len(),
                        owner_seq(*owners) == s,
                        self@ == PageInfoView::Owned(s),
                        forall|j: int|
                            k <= j < s.len() ==> check.ensures(
                                (&(PageOwnerId { raw: s[j] }),),
                                false,
                            ),
                    ensures
                        found is Some ==> exists|i: int| found_owner_at(
                            s,
                            check,
                            found->Some_0,
                            i,
                        ),
                        found is None ==> forall|j: int|
                            0 <= j < s.len() ==> check.ensures(
                                (&(PageOwnerId { raw: s[j] }),),
                                false,
                            ),
                    decreases k,
                {
                    if k == 0 {
                        break ;
                    }
                    let id = PageOwnerId { raw: owner_vec_get(owners, k - 1) };
                    if check(&id) {
                        found = Some(id);
                        proof {
                            assert(found_owner_at(s, check, found->Some_0, k - 1));
                            assert(exists|i: int| found_owner_at(s, check, found->Some_0, i));
                        }
                        break ;
                    }
                    k = k - 1;
                }
                found
            },
            _ => None,
        }
    }

    /// Sets the current owner of the page while maintaining the chain of
    /// custody, so the previous owner is known when the new owner abandons
    /// the page.
    pub fn push_owner(&mut self, owner: PageOwnerId) -> (r: PageTrackingResult<()>)
        requires
            old(self).wf(),
        ensures
            final(self).wf(),
            old(self)@.push_allowed() ==> r is Ok && final(self)@ == old(self)@.pushed(owner.raw),
            !old(self)@.push_allowed() ==> r == Err::<(), PageTrackingError>(
                old(self)@.push_err(),
            ) && final(self)@ == old(self)@,
    {
        match self {
            PageInfo::Owned(owners) => {
                if owner_vec_try_push(owners, owner.raw) {
                    Ok(())
                } else {
                    Err(PageTrackingError::OwnerOverflow)
                }
            },
            PageInfo::Free => {
                let mut owners = owner_vec_new();
                let _ = owner_vec_try_push(&mut owners, owner.raw);
                *self = PageInfo::Owned(owners);
                Ok(())
            },
            PageInfo::Reserved => Err(PageTrackingError::ReservedPage),
        }
    }
}

impl Default for PageInfo {
    /// A default page record is free.
    fn default() -> (r: Self)
        ensures
            r@ == PageInfoView::Free,
    {
        PageInfo::Free
    }
}

/// Pushing an owner onto an owned page and then popping is the identity:
/// the pop succeeds, returns exactly the pushed owner, and restores the
/// previous state. The push must have room in the chain (a push on a chain
/// of depth [`MAX_PAGE_OWNERS`] fails and already leaves the page unchanged).
pub proof fn lemma_push_pop_roundtrip(p: PageInfoView, id: u64)
    requires
        p is Owned,
        p.wf(),
        p.depth() < MAX_PAGE_OWNERS,
    ensures
        p.push_allowed(),
        p.pushed(id).pop_allowed(),
        p.pushed(id).pop_value() == id,
        p.pushed(id).popped() == p,
{
    match p {
        PageInfoView::Owned(s) => {
            assert(s.push(id).drop_last() =~= s);
        },
        _ => {},
    }
}

/// A push never drives the chain of custody past [`MAX_PAGE_OWNERS`]: on a
/// well-formed page the state after a push attempt is still well formed, so
/// the depth stays bounded over any sequence of pushes, and a push on a page
/// at full depth fails.
pub proof fn lemma_push_depth_bounded(p: PageInfoView, id: u64)
    requires
        p.wf(),
    ensures
        p.push_allowed() ==> p.pushed(id).wf() && p.pushed(id).depth() <= MAX_PAGE_OWNERS,
        p.depth() == MAX_PAGE_OWNERS ==> !p.push_allowed(),
{
}

/// A pop attempt also preserves well-formedness, so every sequence of pushes
/// and pops keeps the chain of custody within bounds.
pub proof fn lemma_pop_preserves_wf(p: PageInfoView)
    requires
        p.wf(),
    ensures
        p.pop_allowed() ==> p.popped().wf(),
{
}

/// A reserved page rejects every push and every pop, reporting
/// `ReservedPage` and remaining unchanged.
pub proof fn lemma_reserved_rejects_all(id: u64)
    ensures
        !PageInfoView::Reserved.push_allowed(),
        !PageInfoView::Reserved.pop_allowed(),
        PageInfoView::Reserved.push_err() == PageTrackingError::ReservedPage,
        PageInfoView::Reserved.pop_err() == PageTrackingError::ReservedPage,
        PageInfoView::Reserved.pushed(id) == PageInfoView::Reserved,
        PageInfoView::Reserved.popped() == PageInfoView::Reserved,
{
}

} // verus!
