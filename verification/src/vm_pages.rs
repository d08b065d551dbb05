//! Per-VM page state: the adapter through which the control plane moves
//! page ownership between a VM and its guests, maintains each guest's
//! stage-2 mappings, and accumulates the guest's measurement while it is
//! being built. The hardware page-table walker and the real digest are out
//! of scope; this module keeps the plain-value state the control plane
//! reads and decides on, against the ownership directory in [`PageMap`].

use vstd::prelude::*;

use crate::avec::MAX_PAGE_OWNERS;
use crate::ids::{PageOwnerId, FIRST_GUEST_ID};
use crate::mem_map::{PageAddr, PAGE_SIZE_4K};
use crate::page_info::PageInfoView;
use crate::page_map::{lemma_index_injective, PageMap};

verus! {

/// Pages donated to create a guest: four for the top-level page table, one
/// for guest-state tracking.
pub const TVM_DONOR_PAGES: u64 = 5;

/// Required alignment of the donor pages: the top-level stage-2 table is
/// 16 KiB.
pub const TVM_ROOT_ALIGN: u64 = 0x4000;

/// Multiplier of the measurement accumulator, folded over every page added
/// to a guest before it is finalized. A stand-in for the pluggable digest,
/// which is out of scope here.
pub const MEASURE_PRIME: u64 = 0x100_0000_01B3;

/// Errors of the per-VM page state operations.
#[derive(Clone, Copy, Debug, PartialEq, Eq, Structural)]
pub enum VmPagesError {
    /// An address violates the required alignment.
    UnalignedAddress,
    /// A page range leaves the 64-bit address space.
    AddressOverflow,
    /// A page is untracked, not owned by the acting VM, or its ownership
    /// chain is full.
    PageNotUsable,
    /// A guest physical address is already mapped.
    AlreadyMapped,
    /// A guest physical address is not mapped.
    NotMapped,
    /// A faulting address does not name a reclaimable page.
    NotReclaimable,
    /// Every guest identifier has been minted.
    IdsExhausted,
}

/// One 4 KiB stage-2 mapping: guest physical address `gpa` backed by the
/// supervisor physical frame `spa_pfn`.
#[derive(Clone, Copy, Debug, PartialEq, Eq, Structural)]
pub struct Mapping {
    pub gpa: u64,
    pub spa_pfn: u64,
}

/// Whether frame `pfn` is tracked, currently owned by `owner`, and has
/// room for one more owner.
pub open spec fn page_claimable_by(pm: PageMap, pfn: int, owner: PageOwnerId) -> bool {
    &&& pm.covered(pfn)
    &&& pm.page_view_of(pfn).owner() == Some(owner)
    &&& pm.page_view_of(pfn).depth() < MAX_PAGE_OWNERS
}

/// Whether every frame of `base_pfn .. base_pfn + n` is claimable by
/// `owner`.
pub open spec fn range_claimable_by(pm: PageMap, base_pfn: int, n: int, owner: PageOwnerId) -> bool {
    forall|pfn: int| base_pfn <= pfn < base_pfn + n ==> #[trigger] page_claimable_by(pm, pfn, owner)
}

/// Whether frame `pfn` is tracked, currently owned by `owner`, and can
/// lose that owner (more than the root owner is on its chain).
pub open spec fn page_releasable_by(pm: PageMap, pfn: int, owner: PageOwnerId) -> bool {
    &&& pm.covered(pfn)
    &&& pm.page_view_of(pfn).owner() == Some(owner)
    &&& pm.page_view_of(pfn).pop_allowed()
}

/// How a directory changes when `what` is applied to the frames of
/// `base_pfn .. base_pfn + n`: the sparse map and the other frames stay
/// exactly as they were.
pub open spec fn range_updated(
    pre: PageMap,
    post: PageMap,
    base_pfn: int,
    n: int,
    what: spec_fn(PageInfoView) -> PageInfoView,
) -> bool {
    &&& post.entries() == pre.entries()
    &&& post.pages@.len() == pre.pages@.len()
    &&& post.wf()
    &&& forall|pfn: int|
        pre.covered(pfn) && base_pfn <= pfn < base_pfn + n ==> post.page_view_of(pfn) == what(
            pre.page_view_of(pfn),
        )
    &&& forall|pfn: int|
        pre.covered(pfn) && !(base_pfn <= pfn < base_pfn + n) ==> post.page_view_of(pfn)
            == pre.page_view_of(pfn)
}

/// Checks whether one frame is claimable by `owner`.
pub(crate) fn check_page_claimable(page_map: &PageMap, pfn: u64, owner: PageOwnerId) -> (r: bool)
    requires
        page_map.wf(),
    ensures
        r == page_claimable_by(*page_map, pfn as int, owner),
{
    let idx = match page_map.index_for_pfn(pfn) {
        Some(idx) => idx,
        None => {
            return false;
        },
    };
    let total = page_map.pages.len();
    proof {
        assert(idx as int == page_map.index_of(pfn as int));
        assert(page_map.pages@[idx as int].wf());
        assert(page_map.pages@[idx as int]@ == page_map.page_view_of(pfn as int));
    }
    let info = &page_map.pages[idx];
    let page_owner = match info.owner() {
        Some(o) => o,
        None => {
            return false;
        },
    };
    if page_owner.raw != owner.raw {
        return false;
    }
    match info {
        crate::page_info::PageInfo::Owned(owners) => {
            crate::avec::owner_vec_len(owners) < MAX_PAGE_OWNERS
        },
        _ => false,
    }
}

/// Checks whether one frame is releasable by `owner`.
pub(crate) fn check_page_releasable(page_map: &PageMap, pfn: u64, owner: PageOwnerId) -> (r: bool)
    requires
        page_map.wf(),
    ensures
        r == page_releasable_by(*page_map, pfn as int, owner),
{
    let idx = match page_map.index_for_pfn(pfn) {
        Some(idx) => idx,
        None => {
            return false;
        },
    };
    let total = page_map.pages.len();
    proof {
        assert(idx as int == page_map.index_of(pfn as int));
        assert(page_map.pages@[idx as int].wf());
        assert(page_map.pages@[idx as int]@ == page_map.page_view_of(pfn as int));
    }
    let info = &page_map.pages[idx];
    let page_owner = match info.owner() {
        Some(o) => o,
        None => {
            return false;
        },
    };
    if page_owner.raw != owner.raw {
        return false;
    }
    match info {
        crate::page_info::PageInfo::Owned(owners) => {
            crate::avec::owner_vec_len(owners) > 1
        },
        _ => false,
    }
}

/// Checks that every frame of `base_pfn .. base_pfn + n` is claimable by
/// `owner`.
pub(crate) fn check_range_claimable(
    page_map: &PageMap,
    base_pfn: u64,
    n: u64,
    owner: PageOwnerId,
) -> (r: bool)
    requires
        page_map.wf(),
        base_pfn + n <= u64::MAX,
    ensures
        r == range_claimable_by(*page_map, base_pfn as int, n as int, owner),
{
    let mut ok = true;
    let ghost mut bad: int = 0;
    let mut i: u64 = 0;
    while i < n
        invariant
            page_map.wf(),
            i <= n,
            base_pfn + n <= u64::MAX,
            ok ==> forall|pfn: int|
                base_pfn <= pfn < base_pfn + i ==> #[trigger] page_claimable_by(
                    *page_map,
                    pfn,
                    owner,
                ),
            !ok ==> base_pfn <= bad < base_pfn + n && !page_claimable_by(*page_map, bad, owner),
        decreases n - i,
    {
        if ok {
            let pfn = base_pfn + i;
            let claimable = check_page_claimable(page_map, pfn, owner);
            if !claimable {
                ok = false;
                proof {
                    bad = pfn as int;
                }
            }
        }
        i = i + 1;
    }
    ok
}

/// Covered frames have in-bounds records.
pub proof fn lemma_covered_index_bounds(pm: PageMap, pfn: int)
    requires
        pm.wf(),
        pm.covered(pfn),
    ensures
        0 <= pm.index_of(pfn) < pm.pages@.len(),
{
    let es = pm.entries();
    let total = pm.pages@.len() as int;
    let pos = crate::page_map::entries_pos_of(es, pfn);
    assert(crate::page_map::entry_covers(es[pos], pfn));
    crate::page_map::lemma_entries_end(es, total, pos);
}

/// Replacing the record of one covered frame leaves every other frame's
/// record, the sparse map, and well-formedness intact.
pub proof fn lemma_point_update(mid: PageMap, post: PageMap, pfn: int, v: PageInfoView)
    requires
        mid.wf(),
        mid.covered(pfn),
        v.wf(),
        post.entries() == mid.entries(),
        post.pages@.len() == mid.pages@.len(),
        forall|k: int|
            0 <= k < mid.pages@.len() && k != mid.index_of(pfn) ==> post.pages@[k]
                == mid.pages@[k],
        post.pages@[mid.index_of(pfn)]@ == v,
        post.pages@[mid.index_of(pfn)].wf(),
    ensures
        post.wf(),
        forall|p2: int| post.covered(p2) <==> mid.covered(p2),
        post.page_view_of(pfn) == v,
        forall|p2: int|
            mid.covered(p2) && p2 != pfn ==> post.page_view_of(p2) == mid.page_view_of(p2),
{
    lemma_covered_index_bounds(mid, pfn);
    assert forall|k: int| 0 <= k < post.pages@.len() implies (#[trigger] post.pages@[k]).wf() by {
        if k != mid.index_of(pfn) {
            assert(post.pages@[k] == mid.pages@[k]);
        }
    }
    assert(post.index_of(pfn) == mid.index_of(pfn));
    assert forall|p2: int|
        mid.covered(p2) && p2 != pfn implies post.page_view_of(p2) == mid.page_view_of(p2) by {
        lemma_index_injective(mid, p2, pfn);
        lemma_covered_index_bounds(mid, p2);
        assert(post.index_of(p2) == mid.index_of(p2));
        assert(post.pages@[mid.index_of(p2)] == mid.pages@[mid.index_of(p2)]);
    }
}

/// Pushes `new_owner` onto every frame of `base_pfn .. base_pfn + n`.
#[verifier::rlimit(100)]
pub(crate) fn push_owner_range(
    page_map: &mut PageMap,
    base_pfn: u64,
    n: u64,
    new_owner: PageOwnerId,
)
    requires
        old(page_map).wf(),
        base_pfn + n <= u64::MAX,
        forall|pfn: int|
            base_pfn <= pfn < base_pfn + n ==> old(page_map).covered(pfn) && (#[trigger] old(
                page_map,
            ).page_view_of(pfn)).push_allowed(),
    ensures
        range_updated(
            *old(page_map),
            *final(page_map),
            base_pfn as int,
            n as int,
            |v: PageInfoView| v.pushed(new_owner.raw),
        ),
{
    let ghost pre = *page_map;
    let mut i: u64 = 0;
    while i < n
        invariant
            pre.wf(),
            page_map.wf(),
            i <= n,
            base_pfn + n <= u64::MAX,
            page_map.entries() == pre.entries(),
            page_map.pages@.len() == pre.pages@.len(),
            forall|pfn: int|
                base_pfn <= pfn < base_pfn + n ==> pre.covered(pfn) && (#[trigger] pre.page_view_of(
                    pfn,
                )).push_allowed(),
            forall|pfn: int|
                pre.covered(pfn) && base_pfn <= pfn < base_pfn + i ==> page_map.page_view_of(pfn)
                    == pre.page_view_of(pfn).pushed(new_owner.raw),
            forall|pfn: int|
                pre.covered(pfn) && !(base_pfn <= pfn < base_pfn + i) ==> page_map.page_view_of(pfn)
                    == pre.page_view_of(pfn),
        decreases n - i,
    {
        let pfn = base_pfn + i;
        let total = page_map.pages.len();
        let ghost mid = *page_map;
        proof {
            assert(pre.covered(pfn as int) && pre.page_view_of(pfn as int).push_allowed());
            assert(page_map.covered(pfn as int));
            assert(mid.page_view_of(pfn as int) == pre.page_view_of(pfn as int));
        }
        let idx = page_map.index_for_pfn(pfn).unwrap();
        proof {
            assert(idx as int == mid.index_of(pfn as int));
            assert(page_map.pages@[idx as int].wf());
            assert(mid.pages@[idx as int]@ == mid.page_view_of(pfn as int));
        }
        let info = &mut page_map.pages[idx];
        let _ = info.push_owner(new_owner);
        proof {
            lemma_point_update(
                mid,
                *page_map,
                pfn as int,
                mid.page_view_of(pfn as int).pushed(new_owner.raw),
            );
        }
        i = i + 1;
    }
}

/// Pops the top owner off every frame of `base_pfn .. base_pfn + n`.
#[verifier::rlimit(100)]
pub(crate) fn pop_owner_range(page_map: &mut PageMap, base_pfn: u64, n: u64)
    requires
        old(page_map).wf(),
        base_pfn + n <= u64::MAX,
        forall|pfn: int|
            base_pfn <= pfn < base_pfn + n ==> old(page_map).covered(pfn) && (#[trigger] old(
                page_map,
            ).page_view_of(pfn)).pop_allowed(),
    ensures
        range_updated(
            *old(page_map),
            *final(page_map),
            base_pfn as int,
            n as int,
            |v: PageInfoView| v.popped(),
        ),
{
    let ghost pre = *page_map;
    let mut i: u64 = 0;
    while i < n
        invariant
            pre.wf(),
            page_map.wf(),
            i <= n,
            base_pfn + n <= u64::MAX,
            page_map.entries() == pre.entries(),
            page_map.pages@.len() == pre.pages@.len(),
            forall|pfn: int|
                base_pfn <= pfn < base_pfn + n ==> pre.covered(pfn) && (#[trigger] pre.page_view_of(
                    pfn,
                )).pop_allowed(),
            forall|pfn: int|
                pre.covered(pfn) && base_pfn <= pfn < base_pfn + i ==> page_map.page_view_of(pfn)
                    == pre.page_view_of(pfn).popped(),
            forall|pfn: int|
                pre.covered(pfn) && !(base_pfn <= pfn < base_pfn + i) ==> page_map.page_view_of(pfn)
                    == pre.page_view_of(pfn),
        decreases n - i,
    {
        let pfn = base_pfn + i;
        let total = page_map.pages.len();
        let ghost mid = *page_map;
        proof {
            assert(pre.covered(pfn as int) && pre.page_view_of(pfn as int).pop_allowed());
            assert(page_map.covered(pfn as int));
            assert(mid.page_view_of(pfn as int) == pre.page_view_of(pfn as int));
        }
        let idx = page_map.index_for_pfn(pfn).unwrap();
        proof {
            assert(idx as int == mid.index_of(pfn as int));
            assert(page_map.pages@[idx as int].wf());
            assert(mid.pages@[idx as int]@ == mid.page_view_of(pfn as int));
        }
        let info = &mut page_map.pages[idx];
        let _ = info.pop_owner();
        proof {
            lemma_point_update(mid, *page_map, pfn as int, mid.page_view_of(pfn as int).popped());
        }
        i = i + 1;
    }
}

/// Whether a mapping list holds an entry for `gpa`.
pub open spec fn maps_gpa(ms: Seq<Mapping>, gpa: u64) -> bool {
    exists|i: int| 0 <= i < ms.len() && (#[trigger] ms[i]).gpa == gpa
}

/// The position of the entry for `gpa`.
pub open spec fn gpa_pos(ms: Seq<Mapping>, gpa: u64) -> int {
    choose|i: int| 0 <= i < ms.len() && (#[trigger] ms[i]).gpa == gpa
}

/// The supervisor physical frame backing `gpa`.
pub open spec fn spa_of(ms: Seq<Mapping>, gpa: u64) -> u64 {
    ms[gpa_pos(ms, gpa)].spa_pfn
}

/// Whether a mapping list holds an entry backed by frame `spa_pfn`.
pub open spec fn maps_spa(ms: Seq<Mapping>, spa_pfn: u64) -> bool {
    exists|i: int| 0 <= i < ms.len() && (#[trigger] ms[i]).spa_pfn == spa_pfn
}

/// A mapping list is well formed when its guest addresses are page aligned
/// and no guest address or backing frame appears twice.
pub open spec fn mappings_wf(ms: Seq<Mapping>) -> bool {
    &&& forall|i: int| 0 <= i < ms.len() ==> (#[trigger] ms[i]).gpa % PAGE_SIZE_4K == 0
    &&& forall|i: int, j: int|
        0 <= i < j < ms.len() ==> (#[trigger] ms[i]).gpa != (#[trigger] ms[j]).gpa && ms[i].spa_pfn
            != ms[j].spa_pfn
}

/// In a well-formed mapping list the entry for a mapped address is unique.
pub proof fn lemma_gpa_unique(ms: Seq<Mapping>, gpa: u64, i: int)
    requires
        mappings_wf(ms),
        0 <= i < ms.len(),
        ms[i].gpa == gpa,
    ensures
        maps_gpa(ms, gpa),
        gpa_pos(ms, gpa) == i,
        spa_of(ms, gpa) == ms[i].spa_pfn,
{
    assert(maps_gpa(ms, gpa));
    let j = gpa_pos(ms, gpa);
    if i < j {
        assert(ms[i].gpa != ms[j].gpa);
    } else if j < i {
        assert(ms[j].gpa != ms[i].gpa);
    }
}

/// Finds the entry for `gpa` in a mapping list.
pub(crate) fn mapping_find(ms: &Vec<Mapping>, gpa: u64) -> (r: Option<usize>)
    requires
        mappings_wf(ms@),
    ensures
        maps_gpa(ms@, gpa) ==> r is Some && (r->Some_0 as int) == gpa_pos(ms@, gpa) && (
        r->Some_0 as int) < ms@.len() && ms@[r->Some_0 as int].gpa == gpa && ms@[
            r->Some_0 as int
        ].spa_pfn == spa_of(ms@, gpa),
        !maps_gpa(ms@, gpa) ==> r is None,
    {
        let n = ms.len();
        let mut i: usize = 0;
        while i < n
            invariant
                mappings_wf(ms@),
                i <= n,
                n == ms@.len(),
                forall|j: int| 0 <= j < i ==> (#[trigger] ms@[j]).gpa != gpa,
            decreases n - i,
        {
            if ms[i].gpa == gpa {
                proof {
                    lemma_gpa_unique(ms@, gpa, i as int);
                }
                return Some(i);
            }
            i = i + 1;
        }
        None
    }

/// One step of the measurement accumulator: fold in a 64-bit value.
pub open spec fn measure_step(m: u64, v: u64) -> u64 {
    (((m ^ v) as nat * MEASURE_PRIME as nat) % 0x1_0000_0000_0000_0000nat) as u64
}

/// The accumulator after folding in the guest physical addresses
/// `gpa, gpa + 4 KiB, ..` of `n` pages.
pub open spec fn measure_fold(m: u64, gpa: u64, n: int) -> u64
    decreases n,
{
    if n <= 0 {
        m
    } else {
        measure_step(measure_fold(m, gpa, n - 1), (gpa + PAGE_SIZE_4K * (n - 1)) as u64)
    }
}

/// Per-VM page state: who this VM is, where its stage-2 root lives, the
/// identifiers it will mint for its guests, its running measurement, its
/// page-table page pool, and its 4 KiB stage-2 mappings (live ones, and
/// removed ones that may be demand-faulted back).
pub struct VmPages {
    pub page_owner_id: PageOwnerId,
    pub root_addr: u64,
    pub next_guest_id: u64,
    pub measurement: u64,
    pub pte_pages: u64,
    pub mapped: Vec<Mapping>,
    pub reclaimable: Vec<Mapping>,
}

impl VmPages {
    /// Structural invariant: guest identifiers can still be minted, and
    /// both mapping lists are well formed and disjoint.
    pub open spec fn wf(self) -> bool {
        &&& FIRST_GUEST_ID <= self.next_guest_id
        &&& mappings_wf(self.mapped@)
        &&& mappings_wf(self.reclaimable@)
        &&& forall|g: u64| maps_gpa(self.mapped@, g) ==> !maps_gpa(self.reclaimable@, g)
        &&& forall|s: u64| maps_spa(self.mapped@, s) ==> !maps_spa(self.reclaimable@, s)
    }

    /// Fresh page state for the VM `owner` whose stage-2 root pages start
    /// at `root_addr`.
    pub fn new(owner: PageOwnerId, root_addr: u64) -> (r: Self)
        ensures
            r == (VmPages {
                page_owner_id: owner,
                root_addr,
                next_guest_id: FIRST_GUEST_ID,
                measurement: 0,
                pte_pages: 0,
                mapped: r.mapped,
                reclaimable: r.reclaimable,
            }),
            r.mapped@.len() == 0,
            r.reclaimable@.len() == 0,
            r.wf(),
    {
        VmPages {
            page_owner_id: owner,
            root_addr,
            next_guest_id: FIRST_GUEST_ID,
            measurement: 0,
            pte_pages: 0,
            mapped: Vec::new(),
            reclaimable: Vec::new(),
        }
    }

    /// The identifier of the VM whose pages these are.
    pub fn page_owner_id(&self) -> (r: PageOwnerId)
        ensures
            r == self.page_owner_id,
    {
        self.page_owner_id
    }

    /// The base address of the stage-2 root page-table pages.
    pub fn root(&self) -> (r: u64)
        ensures
            r == self.root_addr,
    {
        self.root_addr
    }

    /// The measurement digest delivered to the host: the low 32 bits of
    /// the accumulator.
    pub fn measurement_digest(&self) -> (r: u32)
        ensures
            r == self.measurement as u32,
    {
        self.measurement as u32
    }
}

/// Whether slot `i` of a prospective mapping run starting at guest address
/// `to` and frame `base_pfn` collides with no existing mapping, live or
/// reclaimable.
pub open spec fn fresh_at(
    m: Seq<Mapping>,
    r: Seq<Mapping>,
    to: u64,
    base_pfn: u64,
    i: int,
) -> bool {
    &&& !maps_gpa(m, (to + PAGE_SIZE_4K * i) as u64)
    &&& !maps_gpa(r, (to + PAGE_SIZE_4K * i) as u64)
    &&& !maps_spa(m, (base_pfn + i) as u64)
    &&& !maps_spa(r, (base_pfn + i) as u64)
}

/// Whether a whole run of `n` mapping slots is fresh.
pub open spec fn range_fresh(
    m: Seq<Mapping>,
    r: Seq<Mapping>,
    to: u64,
    base_pfn: u64,
    n: int,
) -> bool {
    forall|i: int| 0 <= i < n ==> #[trigger] fresh_at(m, r, to, base_pfn, i)
}

/// Whether mapping slot `i` of the run starting at guest address `gpa` is
/// present in `ms` and backed by frame `pfn`.
pub open spec fn backs_at(ms: Seq<Mapping>, gpa: u64, i: int, pfn: int) -> bool {
    &&& maps_gpa(ms, (gpa + PAGE_SIZE_4K * i) as u64)
    &&& spa_of(ms, (gpa + PAGE_SIZE_4K * i) as u64) == pfn
}

/// Whether frame `pfn` backs one of the `n` mapped guest pages starting at
/// `gpa`.
pub open spec fn spa_backs_range(ms: Seq<Mapping>, gpa: u64, n: int, pfn: int) -> bool {
    exists|i: int| 0 <= i < n && #[trigger] backs_at(ms, gpa, i, pfn)
}

/// Finds the entry backed by frame `spa_pfn` in a mapping list.
pub(crate) fn mapping_find_spa(ms: &Vec<Mapping>, spa_pfn: u64) -> (r: Option<usize>)
    ensures
        r is Some ==> maps_spa(ms@, spa_pfn),
        r is None ==> !maps_spa(ms@, spa_pfn),
{
    let n = ms.len();
    let mut i: usize = 0;
    while i < n
        invariant
            i <= n,
            n == ms@.len(),
            forall|j: int| 0 <= j < i ==> (#[trigger] ms@[j]).spa_pfn != spa_pfn,
        decreases n - i,
    {
        if ms[i].spa_pfn == spa_pfn {
            proof {
                assert(maps_spa(ms@, spa_pfn));
            }
            return Some(i);
        }
        i = i + 1;
    }
    None
}

/// A builder for the page state of a guest that is still being
/// constructed; consumed when the guest is finalized.
pub struct GuestRootBuilder {
    pub vm_pages: VmPages,
}

impl GuestRootBuilder {
    /// Structural invariant of the underlying page state.
    pub open spec fn wf(self) -> bool {
        self.vm_pages.wf()
    }

    /// The identifier of the guest being built.
    pub fn page_owner_id(&self) -> (r: PageOwnerId)
        ensures
            r == self.vm_pages.page_owner_id,
    {
        self.vm_pages.page_owner_id
    }

    /// Finishes construction, producing the guest's page state.
    pub fn create_pages(self) -> (r: VmPages)
        ensures
            r == self.vm_pages,
    {
        self.vm_pages
    }
}

impl VmPages {
    /// Consumes five contiguous 16 KiB-aligned 4 KiB pages owned by this
    /// VM: the first four become a new guest's top-level stage-2 table and
    /// the fifth its state backing. Ownership of all five moves from this
    /// VM to a freshly minted guest identifier. On failure nothing
    /// changes.
    pub fn create_guest_root_builder(
        &mut self,
        page_map: &mut PageMap,
        from_addr: PageAddr,
    ) -> (r: Result<(GuestRootBuilder, u64), VmPagesError>)
        requires
            old(self).wf(),
            old(page_map).wf(),
            from_addr.wf(),
        ensures
            final(self).wf(),
            final(page_map).wf(),
            r is Err ==> *final(self) == *old(self) && *final(page_map) == *old(page_map),
            from_addr.addr % TVM_ROOT_ALIGN != 0 ==> r == Err::<(GuestRootBuilder, u64), VmPagesError>(
                VmPagesError::UnalignedAddress,
            ),
            from_addr.addr % TVM_ROOT_ALIGN == 0 && from_addr.addr + TVM_DONOR_PAGES * PAGE_SIZE_4K
                > u64::MAX ==> r == Err::<(GuestRootBuilder, u64), VmPagesError>(
                VmPagesError::AddressOverflow,
            ),
            from_addr.addr % TVM_ROOT_ALIGN == 0 && from_addr.addr + TVM_DONOR_PAGES * PAGE_SIZE_4K
                <= u64::MAX && old(self).next_guest_id == u64::MAX ==> r == Err::<
                (GuestRootBuilder, u64),
                VmPagesError,
            >(VmPagesError::IdsExhausted),
            from_addr.addr % TVM_ROOT_ALIGN == 0 && from_addr.addr + TVM_DONOR_PAGES * PAGE_SIZE_4K
                <= u64::MAX && old(self).next_guest_id < u64::MAX && !range_claimable_by(
                *old(page_map),
                from_addr.spec_pfn(),
                TVM_DONOR_PAGES as int,
                old(self).page_owner_id,
            ) ==> r == Err::<(GuestRootBuilder, u64), VmPagesError>(VmPagesError::PageNotUsable),
            from_addr.addr % TVM_ROOT_ALIGN == 0 && from_addr.addr + TVM_DONOR_PAGES * PAGE_SIZE_4K
                <= u64::MAX && old(self).next_guest_id < u64::MAX && range_claimable_by(
                *old(page_map),
                from_addr.spec_pfn(),
                TVM_DONOR_PAGES as int,
                old(self).page_owner_id,
            ) ==> r is Ok && {
                let b = r->Ok_0.0;
                let state_page = r->Ok_0.1;
                &&& b.vm_pages.page_owner_id == (PageOwnerId { raw: old(self).next_guest_id })
                &&& b.vm_pages.root_addr == from_addr.addr
                &&& b.vm_pages.next_guest_id == FIRST_GUEST_ID
                &&& b.vm_pages.measurement == 0
                &&& b.vm_pages.pte_pages == 0
                &&& b.vm_pages.mapped@.len() == 0
                &&& b.vm_pages.reclaimable@.len() == 0
                &&& b.wf()
                &&& state_page == from_addr.addr + (TVM_DONOR_PAGES - 1) * PAGE_SIZE_4K
                &&& *final(self) == (VmPages {
                    next_guest_id: (old(self).next_guest_id + 1) as u64,
                    ..*old(self)
                })
                &&& range_updated(
                    *old(page_map),
                    *final(page_map),
                    from_addr.spec_pfn(),
                    TVM_DONOR_PAGES as int,
                    |v: PageInfoView| v.pushed(old(self).next_guest_id),
                )
            },
    {
        if from_addr.addr % TVM_ROOT_ALIGN != 0 {
            return Err(VmPagesError::UnalignedAddress);
        }
        if from_addr.addr > u64::MAX - TVM_DONOR_PAGES * PAGE_SIZE_4K {
            return Err(VmPagesError::AddressOverflow);
        }
        if self.next_guest_id == u64::MAX {
            return Err(VmPagesError::IdsExhausted);
        }
        let base_pfn = from_addr.index();
        proof {
            assert(PAGE_SIZE_4K * (crate::page_map::MAX_PFN + 1) > u64::MAX);
            assert(base_pfn <= crate::page_map::MAX_PFN);
        }
        if !check_range_claimable(page_map, base_pfn, TVM_DONOR_PAGES, self.page_owner_id) {
            return Err(VmPagesError::PageNotUsable);
        }
        let new_id = PageOwnerId { raw: self.next_guest_id };
        self.next_guest_id = self.next_guest_id + 1;
        proof {
            lemma_claimable_range_pushable(
                *page_map,
                base_pfn as int,
                TVM_DONOR_PAGES as int,
                old(self).page_owner_id,
            );
        }
        push_owner_range(page_map, base_pfn, TVM_DONOR_PAGES, new_id);
        let state_page = from_addr.addr + (TVM_DONOR_PAGES - 1) * PAGE_SIZE_4K;
        Ok((GuestRootBuilder { vm_pages: VmPages::new(new_id, from_addr.addr) }, state_page))
    }
}

/// A range of pages claimable by some owner satisfies the push
/// precondition of [`push_owner_range`].
pub proof fn lemma_claimable_range_pushable(
    pm: PageMap,
    base_pfn: int,
    n: int,
    owner: PageOwnerId,
)
    requires
        range_claimable_by(pm, base_pfn, n, owner),
    ensures
        forall|pfn: int|
            base_pfn <= pfn < base_pfn + n ==> pm.covered(pfn) && (#[trigger] pm.page_view_of(
                pfn,
            )).push_allowed(),
{
    assert forall|pfn: int|
        base_pfn <= pfn < base_pfn + n implies pm.covered(pfn) && (#[trigger] pm.page_view_of(
        pfn,
    )).push_allowed() by {
        assert(page_claimable_by(pm, pfn, owner));
        match pm.page_view_of(pfn) {
            PageInfoView::Owned(s) => {},
            PageInfoView::Free => {},
            PageInfoView::Reserved => {},
        }
    }
}

impl VmPages {
    /// Contributes `num_pages` 4 KiB pages owned by this VM to a guest's
    /// stage-2 page-table pool: each page's ownership moves to the guest
    /// being built, and the builder's pool grows. On failure nothing
    /// changes.
    pub fn add_pte_pages_builder(
        &self,
        page_map: &mut PageMap,
        from_addr: PageAddr,
        num_pages: u64,
        builder: &mut GuestRootBuilder,
    ) -> (r: Result<(), VmPagesError>)
        requires
            old(page_map).wf(),
            old(builder).wf(),
            from_addr.wf(),
        ensures
            final(page_map).wf(),
            final(builder).wf(),
            r is Err ==> *final(builder) == *old(builder) && *final(page_map) == *old(page_map),
            from_addr.spec_pfn() + num_pages > u64::MAX ==> r == Err::<(), VmPagesError>(
                VmPagesError::AddressOverflow,
            ),
            from_addr.spec_pfn() + num_pages <= u64::MAX && !range_claimable_by(
                *old(page_map),
                from_addr.spec_pfn(),
                num_pages as int,
                self.page_owner_id,
            ) ==> r == Err::<(), VmPagesError>(VmPagesError::PageNotUsable),
            from_addr.spec_pfn() + num_pages <= u64::MAX && range_claimable_by(
                *old(page_map),
                from_addr.spec_pfn(),
                num_pages as int,
                self.page_owner_id,
            ) ==> r is Ok && {
                &&& range_updated(
                    *old(page_map),
                    *final(page_map),
                    from_addr.spec_pfn(),
                    num_pages as int,
                    |v: PageInfoView| v.pushed(old(builder).vm_pages.page_owner_id.raw),
                )
                &&& *final(builder) == (GuestRootBuilder {
                    vm_pages: VmPages {
                        pte_pages: old(builder).vm_pages.pte_pages.saturating_add(num_pages),
                        ..old(builder).vm_pages
                    },
                })
            },
    {
        let base_pfn = from_addr.index();
        proof {
            assert(PAGE_SIZE_4K * (crate::page_map::MAX_PFN + 1) > u64::MAX);
            assert(base_pfn <= crate::page_map::MAX_PFN);
        }
        if num_pages > u64::MAX - base_pfn {
            return Err(VmPagesError::AddressOverflow);
        }
        if !check_range_claimable(page_map, base_pfn, num_pages, self.page_owner_id) {
            return Err(VmPagesError::PageNotUsable);
        }
        proof {
            lemma_claimable_range_pushable(
                *page_map,
                base_pfn as int,
                num_pages as int,
                self.page_owner_id,
            );
        }
        let guest = builder.page_owner_id();
        push_owner_range(page_map, base_pfn, num_pages, guest);
        builder.vm_pages.pte_pages = builder.vm_pages.pte_pages.saturating_add(num_pages);
        Ok(())
    }

    /// Adds `num_pages` data pages owned by this VM to the guest being
    /// built: ownership moves to the guest, the pages are mapped at
    /// consecutive guest physical addresses from `to_addr`, and their
    /// addresses are folded into the guest's running measurement. The
    /// pages are zeroed before the transfer unless `measure_preserve` is
    /// set; page contents are not modeled here, so the flag does not
    /// appear in the contract. On failure nothing changes.
    pub fn add_4k_pages_builder(
        &self,
        page_map: &mut PageMap,
        from_addr: PageAddr,
        num_pages: u64,
        builder: &mut GuestRootBuilder,
        to_addr: PageAddr,
        measure_preserve: bool,
    ) -> (r: Result<(), VmPagesError>)
        requires
            old(page_map).wf(),
            old(builder).wf(),
            from_addr.wf(),
            to_addr.wf(),
        ensures
            final(page_map).wf(),
            final(builder).wf(),
            r is Err ==> *final(builder) == *old(builder) && *final(page_map) == *old(page_map),
            from_addr.spec_pfn() + num_pages > u64::MAX || to_addr.addr + PAGE_SIZE_4K * num_pages
                > u64::MAX ==> r == Err::<(), VmPagesError>(VmPagesError::AddressOverflow),
            add_pages_in_bounds(from_addr, to_addr, num_pages) && !range_claimable_by(
                *old(page_map),
                from_addr.spec_pfn(),
                num_pages as int,
                self.page_owner_id,
            ) ==> r == Err::<(), VmPagesError>(VmPagesError::PageNotUsable),
            add_pages_in_bounds(from_addr, to_addr, num_pages) && range_claimable_by(
                *old(page_map),
                from_addr.spec_pfn(),
                num_pages as int,
                self.page_owner_id,
            ) && !range_fresh(
                old(builder).vm_pages.mapped@,
                old(builder).vm_pages.reclaimable@,
                to_addr.addr,
                from_addr.spec_pfn() as u64,
                num_pages as int,
            ) ==> r == Err::<(), VmPagesError>(VmPagesError::AlreadyMapped),
            add_pages_in_bounds(from_addr, to_addr, num_pages) && range_claimable_by(
                *old(page_map),
                from_addr.spec_pfn(),
                num_pages as int,
                self.page_owner_id,
            ) && range_fresh(
                old(builder).vm_pages.mapped@,
                old(builder).vm_pages.reclaimable@,
                to_addr.addr,
                from_addr.spec_pfn() as u64,
                num_pages as int,
            ) ==> r is Ok && {
                &&& range_updated(
                    *old(page_map),
                    *final(page_map),
                    from_addr.spec_pfn(),
                    num_pages as int,
                    |v: PageInfoView| v.pushed(old(builder).vm_pages.page_owner_id.raw),
                )
                &&& final(builder).vm_pages.mapped@ == old(builder).vm_pages.mapped@ + Seq::new(
                    num_pages as nat,
                    |i: int| Mapping {
                        gpa: (to_addr.addr + PAGE_SIZE_4K * i) as u64,
                        spa_pfn: (from_addr.spec_pfn() + i) as u64,
                    },
                )
                &&& final(builder).vm_pages.measurement == measure_fold(
                    old(builder).vm_pages.measurement,
                    to_addr.addr,
                    num_pages as int,
                )
                &&& final(builder).vm_pages.reclaimable == old(builder).vm_pages.reclaimable
                &&& final(builder).vm_pages.page_owner_id == old(builder).vm_pages.page_owner_id
                &&& final(builder).vm_pages.root_addr == old(builder).vm_pages.root_addr
                &&& final(builder).vm_pages.next_guest_id == old(builder).vm_pages.next_guest_id
                &&& final(builder).vm_pages.pte_pages == old(builder).vm_pages.pte_pages
            },
    {
        let base_pfn = from_addr.index();
        proof {
            assert(PAGE_SIZE_4K * (crate::page_map::MAX_PFN + 1) > u64::MAX);
            assert(base_pfn <= crate::page_map::MAX_PFN);
        }
        if num_pages > u64::MAX - base_pfn {
            return Err(VmPagesError::AddressOverflow);
        }
        match num_pages.checked_mul(PAGE_SIZE_4K) {
            Some(bytes) => {
                if to_addr.addr > u64::MAX - bytes {
                    return Err(VmPagesError::AddressOverflow);
                }
            },
            None => {
                return Err(VmPagesError::AddressOverflow);
            },
        }
        if !check_range_claimable(page_map, base_pfn, num_pages, self.page_owner_id) {
            return Err(VmPagesError::PageNotUsable);
        }
        if !check_range_fresh(
            &builder.vm_pages.mapped,
            &builder.vm_pages.reclaimable,
            to_addr.addr,
            base_pfn,
            num_pages,
        ) {
            return Err(VmPagesError::AlreadyMapped);
        }
        proof {
            lemma_claimable_range_pushable(
                *page_map,
                base_pfn as int,
                num_pages as int,
                self.page_owner_id,
            );
        }
        let guest = builder.page_owner_id();
        push_owner_range(page_map, base_pfn, num_pages, guest);
        let ghost pre_b = builder.vm_pages;
        let mut i: u64 = 0;
        while i < num_pages
            invariant
                i <= num_pages,
                pre_b.wf(),
                to_addr.addr % PAGE_SIZE_4K == 0,
                to_addr.addr + PAGE_SIZE_4K * num_pages <= u64::MAX,
                base_pfn + num_pages <= u64::MAX,
                range_fresh(pre_b.mapped@, pre_b.reclaimable@, to_addr.addr, base_pfn, num_pages as int),
                builder.vm_pages.mapped@ == pre_b.mapped@ + Seq::new(
                    i as nat,
                    |j: int| Mapping {
                        gpa: (to_addr.addr + PAGE_SIZE_4K * j) as u64,
                        spa_pfn: (base_pfn + j) as u64,
                    },
                ),
                builder.vm_pages.measurement == measure_fold(
                    pre_b.measurement,
                    to_addr.addr,
                    i as int,
                ),
                builder.vm_pages.reclaimable == pre_b.reclaimable,
                builder.vm_pages.page_owner_id == pre_b.page_owner_id,
                builder.vm_pages.root_addr == pre_b.root_addr,
                builder.vm_pages.next_guest_id == pre_b.next_guest_id,
                builder.vm_pages.pte_pages == pre_b.pte_pages,
            decreases num_pages - i,
        {
            let gpa = to_addr.addr + i * PAGE_SIZE_4K;
            let spa_pfn = base_pfn + i;
            builder.vm_pages.mapped.push(Mapping { gpa, spa_pfn });
            builder.vm_pages.measurement = (builder.vm_pages.measurement ^ gpa).wrapping_mul(
                MEASURE_PRIME,
            );
            proof {
                assert(builder.vm_pages.mapped@ == pre_b.mapped@ + Seq::new(
                    (i + 1) as nat,
                    |j: int| Mapping {
                        gpa: (to_addr.addr + PAGE_SIZE_4K * j) as u64,
                        spa_pfn: (base_pfn + j) as u64,
                    },
                ));
            }
            i = i + 1;
        }
        proof {
            lemma_appended_mappings_wf(pre_b, builder.vm_pages, to_addr.addr, base_pfn, num_pages as int);
        }
        Ok(())
    }
}

/// Whether the source frames and the target guest range of an add-pages
/// request both fit the address space.
pub open spec fn add_pages_in_bounds(from_addr: PageAddr, to_addr: PageAddr, num_pages: u64) -> bool {
    &&& from_addr.spec_pfn() + num_pages <= u64::MAX
    &&& to_addr.addr + PAGE_SIZE_4K * num_pages <= u64::MAX
}

/// Checks that a whole run of mapping slots is fresh.
pub(crate) fn check_range_fresh(
    m: &Vec<Mapping>,
    r: &Vec<Mapping>,
    to: u64,
    base_pfn: u64,
    n: u64,
) -> (ok: bool)
    requires
        to + PAGE_SIZE_4K * n <= u64::MAX,
        base_pfn + n <= u64::MAX,
    ensures
        ok == range_fresh(m@, r@, to, base_pfn, n as int),
{
    let mut ok = true;
    let ghost mut bad: int = 0;
    let mut i: u64 = 0;
    while i < n
        invariant
            i <= n,
            to + PAGE_SIZE_4K * n <= u64::MAX,
            base_pfn + n <= u64::MAX,
            ok ==> forall|j: int| 0 <= j < i ==> #[trigger] fresh_at(m@, r@, to, base_pfn, j),
            !ok ==> 0 <= bad < n && !fresh_at(m@, r@, to, base_pfn, bad),
        decreases n - i,
    {
        if ok {
            let gpa = to + i * PAGE_SIZE_4K;
            let spa = base_pfn + i;
            if mapping_contains_gpa(m, gpa) || mapping_contains_gpa(r, gpa) || mapping_find_spa(
                m,
                spa,
            ).is_some() || mapping_find_spa(r, spa).is_some() {
                ok = false;
                proof {
                    bad = i as int;
                }
            } else {
                proof {
                    assert(fresh_at(m@, r@, to, base_pfn, i as int));
                }
            }
        }
        i = i + 1;
    }
    ok
}

/// Whether a mapping list holds an entry for `gpa` (no well-formedness
/// needed).
pub(crate) fn mapping_contains_gpa(ms: &Vec<Mapping>, gpa: u64) -> (r: bool)
    ensures
        r == maps_gpa(ms@, gpa),
{
    let n = ms.len();
    let mut i: usize = 0;
    while i < n
        invariant
            i <= n,
            n == ms@.len(),
            forall|j: int| 0 <= j < i ==> (#[trigger] ms@[j]).gpa != gpa,
        decreases n - i,
    {
        if ms[i].gpa == gpa {
            proof {
                assert(maps_gpa(ms@, gpa));
            }
            return true;
        }
        i = i + 1;
    }
    false
}

/// Appending a fresh run of mappings preserves well-formedness of the
/// page state.
pub proof fn lemma_appended_mappings_wf(
    pre: VmPages,
    post: VmPages,
    to: u64,
    base_pfn: u64,
    n: int,
)
    requires
        pre.wf(),
        to % PAGE_SIZE_4K == 0,
        to + PAGE_SIZE_4K * n <= u64::MAX,
        base_pfn + n <= u64::MAX,
        n >= 0,
        range_fresh(pre.mapped@, pre.reclaimable@, to, base_pfn, n),
        post.mapped@ == pre.mapped@ + Seq::new(
            n as nat,
            |j: int| Mapping { gpa: (to + PAGE_SIZE_4K * j) as u64, spa_pfn: (base_pfn + j) as u64 },
        ),
        post.reclaimable == pre.reclaimable,
        post.page_owner_id == pre.page_owner_id,
        post.next_guest_id == pre.next_guest_id,
    ensures
        post.wf(),
{
    let news = Seq::new(
        n as nat,
        |j: int| Mapping { gpa: (to + PAGE_SIZE_4K * j) as u64, spa_pfn: (base_pfn + j) as u64 },
    );
    assert forall|a: int, b: int|
        0 <= a < b < post.mapped@.len() implies (#[trigger] post.mapped@[a]).gpa
        != (#[trigger] post.mapped@[b]).gpa && post.mapped@[a].spa_pfn != post.mapped@[b].spa_pfn by {
        let pl = pre.mapped@.len() as int;
        if b < pl {
        } else if a < pl <= b {
            assert(fresh_at(pre.mapped@, pre.reclaimable@, to, base_pfn, b - pl));
            assert(post.mapped@[b] == news[b - pl]);
            if post.mapped@[a].gpa == post.mapped@[b].gpa {
                lemma_gpa_unique(pre.mapped@, post.mapped@[b].gpa, a);
                assert(maps_gpa(pre.mapped@, (to + PAGE_SIZE_4K * (b - pl)) as u64));
            }
            if post.mapped@[a].spa_pfn == post.mapped@[b].spa_pfn {
                assert(maps_spa(pre.mapped@, (base_pfn + (b - pl)) as u64));
            }
        } else {
            assert(post.mapped@[a] == news[a - pl]);
            assert(post.mapped@[b] == news[b - pl]);
        }
    }
    assert forall|a: int|
        0 <= a < post.mapped@.len() implies (#[trigger] post.mapped@[a]).gpa % PAGE_SIZE_4K
        == 0 by {
        let pl = pre.mapped@.len() as int;
        if a >= pl {
            assert(post.mapped@[a] == news[a - pl]);
            assert((to + PAGE_SIZE_4K * (a - pl)) as u64 % PAGE_SIZE_4K == 0) by {
                vstd::arithmetic::div_mod::lemma_mod_multiples_vanish(
                    a - pl,
                    to as int,
                    PAGE_SIZE_4K as int,
                );
            }
        }
    }
    assert forall|g: u64| maps_gpa(post.mapped@, g) implies !maps_gpa(post.reclaimable@, g) by {
        let p = gpa_pos(post.mapped@, g);
        let pl = pre.mapped@.len() as int;
        assert(0 <= p < post.mapped@.len() && post.mapped@[p].gpa == g);
        if p < pl {
            assert(maps_gpa(pre.mapped@, g));
        } else {
            assert(fresh_at(pre.mapped@, pre.reclaimable@, to, base_pfn, p - pl));
        }
    }
    assert forall|s: u64| maps_spa(post.mapped@, s) implies !maps_spa(post.reclaimable@, s) by {
        let p = choose|p: int| 0 <= p < post.mapped@.len() && (#[trigger] post.mapped@[p]).spa_pfn == s;
        let pl = pre.mapped@.len() as int;
        if p < pl {
            assert(maps_spa(pre.mapped@, s));
        } else {
            assert(fresh_at(pre.mapped@, pre.reclaimable@, to, base_pfn, p - pl));
        }
    }
}

/// Removing one entry from a well-formed mapping list removes exactly its
/// guest address and backing frame.
pub proof fn lemma_mapping_remove(ms: Seq<Mapping>, pos: int)
    requires
        mappings_wf(ms),
        0 <= pos < ms.len(),
    ensures
        mappings_wf(ms.remove(pos)),
        forall|g: u64| maps_gpa(ms.remove(pos), g) <==> maps_gpa(ms, g) && g != ms[pos].gpa,
        forall|g: u64|
            maps_gpa(ms.remove(pos), g) ==> spa_of(ms.remove(pos), g) == spa_of(ms, g),
        forall|s: u64| maps_spa(ms.remove(pos), s) <==> maps_spa(ms, s) && s != ms[pos].spa_pfn,
{
    let rm = ms.remove(pos);
    assert forall|g: u64| maps_gpa(rm, g) implies maps_gpa(ms, g) && g != ms[pos].gpa by {
        let k = gpa_pos(rm, g);
        let k0 = if k < pos {
            k
        } else {
            k + 1
        };
        assert(ms[k0] == rm[k]);
        assert(maps_gpa(ms, g));
        if g == ms[pos].gpa {
            lemma_gpa_unique(ms, g, k0);
            lemma_gpa_unique(ms, g, pos);
        }
    }
    assert forall|g: u64| maps_gpa(ms, g) && g != ms[pos].gpa implies maps_gpa(rm, g) && spa_of(
        rm,
        g,
    ) == spa_of(ms, g) by {
        let k0 = gpa_pos(ms, g);
        lemma_gpa_unique(ms, g, k0);
        let k = if k0 < pos {
            k0
        } else {
            k0 - 1
        };
        assert(rm[k] == ms[k0]);
        assert(maps_gpa(rm, g));
        lemma_gpa_unique2(rm, g, k);
    }
    assert forall|s: u64| maps_spa(rm, s) implies maps_spa(ms, s) && s != ms[pos].spa_pfn by {
        let k = choose|k: int| 0 <= k < rm.len() && (#[trigger] rm[k]).spa_pfn == s;
        let k0 = if k < pos {
            k
        } else {
            k + 1
        };
        assert(ms[k0] == rm[k]);
        assert(maps_spa(ms, s));
        if s == ms[pos].spa_pfn {
            assert(ms[k0].spa_pfn == ms[pos].spa_pfn && k0 != pos);
            if k0 < pos {
                assert(ms[k0].spa_pfn != ms[pos].spa_pfn);
            } else {
                assert(ms[pos].spa_pfn != ms[k0].spa_pfn);
            }
        }
    }
    assert forall|s: u64| maps_spa(ms, s) && s != ms[pos].spa_pfn implies maps_spa(rm, s) by {
        let k0 = choose|k: int| 0 <= k < ms.len() && (#[trigger] ms[k]).spa_pfn == s;
        let k = if k0 < pos {
            k0
        } else {
            k0 - 1
        };
        assert(rm[k] == ms[k0]);
        assert(maps_spa(rm, s));
    }
}

/// `lemma_gpa_unique` restated for use on an already-shrunk list.
pub proof fn lemma_gpa_unique2(ms: Seq<Mapping>, gpa: u64, i: int)
    requires
        mappings_wf(ms),
        0 <= i < ms.len(),
        ms[i].gpa == gpa,
    ensures
        spa_of(ms, gpa) == ms[i].spa_pfn,
{
    lemma_gpa_unique(ms, gpa, i);
}

/// Appending a fresh entry to a well-formed mapping list adds exactly its
/// guest address and backing frame.
pub proof fn lemma_mapping_push(ms: Seq<Mapping>, e: Mapping)
    requires
        mappings_wf(ms),
        !maps_gpa(ms, e.gpa),
        !maps_spa(ms, e.spa_pfn),
        e.gpa % PAGE_SIZE_4K == 0,
    ensures
        mappings_wf(ms.push(e)),
        forall|g: u64| maps_gpa(ms.push(e), g) <==> maps_gpa(ms, g) || g == e.gpa,
        forall|g: u64| maps_gpa(ms, g) ==> spa_of(ms.push(e), g) == spa_of(ms, g),
        spa_of(ms.push(e), e.gpa) == e.spa_pfn,
        forall|s: u64| maps_spa(ms.push(e), s) <==> maps_spa(ms, s) || s == e.spa_pfn,
{
    let pe = ms.push(e);
    assert(pe[ms.len() as int] == e);
    assert(forall|k: int| 0 <= k < ms.len() ==> pe[k] == ms[k]);
    assert forall|a: int, b: int|
        0 <= a < b < pe.len() implies (#[trigger] pe[a]).gpa != (#[trigger] pe[b]).gpa
        && pe[a].spa_pfn != pe[b].spa_pfn by {
        if b == ms.len() as int {
            if pe[a].gpa == e.gpa {
                assert(maps_gpa(ms, e.gpa));
            }
            if pe[a].spa_pfn == e.spa_pfn {
                assert(maps_spa(ms, e.spa_pfn));
            }
        }
    }
    assert forall|g: u64| maps_gpa(pe, g) implies maps_gpa(ms, g) || g == e.gpa by {
        let k = gpa_pos(pe, g);
        if k < ms.len() as int {
            assert(ms[k] == pe[k]);
            assert(maps_gpa(ms, g));
        }
    }
    assert forall|g: u64| maps_gpa(ms, g) implies maps_gpa(pe, g) && spa_of(pe, g) == spa_of(
        ms,
        g,
    ) by {
        let k = gpa_pos(ms, g);
        lemma_gpa_unique(ms, g, k);
        assert(pe[k] == ms[k]);
        assert(maps_gpa(pe, g));
        lemma_gpa_unique(pe, g, k);
    }
    lemma_gpa_unique(pe, e.gpa, ms.len() as int);
    assert forall|s: u64| maps_spa(pe, s) implies maps_spa(ms, s) || s == e.spa_pfn by {
        let k = choose|k: int| 0 <= k < pe.len() && (#[trigger] pe[k]).spa_pfn == s;
        if k < ms.len() as int {
            assert(ms[k] == pe[k]);
            assert(maps_spa(ms, s));
        }
    }
    assert forall|s: u64| maps_spa(ms, s) implies maps_spa(pe, s) by {
        let k = choose|k: int| 0 <= k < ms.len() && (#[trigger] ms[k]).spa_pfn == s;
        assert(pe[k] == ms[k]);
        assert(maps_spa(pe, s));
    }
}

/// Whether mapping slot `i` of the run starting at `gpa` is present in
/// `ms`.
pub open spec fn rm_mapped_at(ms: Seq<Mapping>, gpa: u64, i: int) -> bool {
    maps_gpa(ms, (gpa + PAGE_SIZE_4K * i) as u64)
}

/// Whether the page backing mapping slot `i` can lose `owner` from its
/// ownership chain.
pub open spec fn rm_releasable_at(
    ms: Seq<Mapping>,
    pm: PageMap,
    gpa: u64,
    i: int,
    owner: PageOwnerId,
) -> bool {
    page_releasable_by(pm, spa_of(ms, (gpa + PAGE_SIZE_4K * i) as u64) as int, owner)
}

impl VmPages {
    /// Unmaps the `num_pages` guest pages starting at `from_addr` and pops
    /// this VM's ownership of the backing frames, returning them to the
    /// previous owner. The unmapped entries stay reclaimable for later
    /// demand faulting. On failure nothing changes.
    #[verifier::rlimit(100)]
    pub fn remove_4k_pages(
        &mut self,
        page_map: &mut PageMap,
        from_addr: PageAddr,
        num_pages: u64,
    ) -> (r: Result<u64, VmPagesError>)
        requires
            old(self).wf(),
            old(page_map).wf(),
            from_addr.wf(),
        ensures
            final(self).wf(),
            final(page_map).wf(),
            r is Err ==> *final(self) == *old(self) && *final(page_map) == *old(page_map),
            from_addr.addr + PAGE_SIZE_4K * num_pages > u64::MAX ==> r == Err::<u64, VmPagesError>(
                VmPagesError::AddressOverflow,
            ),
            from_addr.addr + PAGE_SIZE_4K * num_pages <= u64::MAX && !(forall|i: int|
                0 <= i < num_pages ==> #[trigger] rm_mapped_at(
                    old(self).mapped@,
                    from_addr.addr,
                    i,
                )) ==> r == Err::<u64, VmPagesError>(VmPagesError::NotMapped),
            from_addr.addr + PAGE_SIZE_4K * num_pages <= u64::MAX && (forall|i: int|
                0 <= i < num_pages ==> #[trigger] rm_mapped_at(
                    old(self).mapped@,
                    from_addr.addr,
                    i,
                )) && !(forall|i: int|
                0 <= i < num_pages ==> #[trigger] rm_releasable_at(
                    old(self).mapped@,
                    *old(page_map),
                    from_addr.addr,
                    i,
                    old(self).page_owner_id,
                )) ==> r == Err::<u64, VmPagesError>(VmPagesError::PageNotUsable),
            from_addr.addr + PAGE_SIZE_4K * num_pages <= u64::MAX && (forall|i: int|
                0 <= i < num_pages ==> #[trigger] rm_mapped_at(
                    old(self).mapped@,
                    from_addr.addr,
                    i,
                )) && (forall|i: int|
                0 <= i < num_pages ==> #[trigger] rm_releasable_at(
                    old(self).mapped@,
                    *old(page_map),
                    from_addr.addr,
                    i,
                    old(self).page_owner_id,
                )) ==> r == Ok::<u64, VmPagesError>(num_pages) && {
                let gpa0 = from_addr.addr;
                &&& forall|g: u64|
                    #[trigger] maps_gpa(final(self).mapped@, g) <==> maps_gpa(
                        old(self).mapped@,
                        g,
                    ) && !(gpa0 <= g < gpa0 + PAGE_SIZE_4K * num_pages)
                &&& forall|g: u64|
                    #[trigger] maps_gpa(final(self).mapped@, g) ==> spa_of(final(self).mapped@, g)
                        == spa_of(old(self).mapped@, g)
                &&& forall|g: u64|
                    #[trigger] maps_gpa(final(self).reclaimable@, g) <==> maps_gpa(
                        old(self).reclaimable@,
                        g,
                    ) || (maps_gpa(old(self).mapped@, g) && gpa0 <= g < gpa0 + PAGE_SIZE_4K
                        * num_pages)
                &&& forall|g: u64|
                    maps_gpa(old(self).reclaimable@, g) ==> spa_of(final(self).reclaimable@, g)
                        == spa_of(old(self).reclaimable@, g)
                &&& forall|g: u64|
                    maps_gpa(old(self).mapped@, g) && gpa0 <= g < gpa0 + PAGE_SIZE_4K * num_pages
                        ==> spa_of(final(self).reclaimable@, g) == spa_of(old(self).mapped@, g)
                &&& final(self).page_owner_id == old(self).page_owner_id
                &&& final(self).root_addr == old(self).root_addr
                &&& final(self).next_guest_id == old(self).next_guest_id
                &&& final(self).measurement == old(self).measurement
                &&& final(self).pte_pages == old(self).pte_pages
                &&& final(page_map).entries() == old(page_map).entries()
                &&& final(page_map).pages@.len() == old(page_map).pages@.len()
                &&& forall|pfn: int|
                    old(page_map).covered(pfn) && spa_backs_range(
                        old(self).mapped@,
                        gpa0,
                        num_pages as int,
                        pfn,
                    ) ==> final(page_map).page_view_of(pfn) == old(page_map).page_view_of(
                        pfn,
                    ).popped()
                &&& forall|pfn: int|
                    old(page_map).covered(pfn) && !spa_backs_range(
                        old(self).mapped@,
                        gpa0,
                        num_pages as int,
                        pfn,
                    ) ==> final(page_map).page_view_of(pfn) == old(page_map).page_view_of(pfn)
            },
    {
        let gpa0 = from_addr.addr;
        match num_pages.checked_mul(PAGE_SIZE_4K) {
            Some(bytes) => {
                if gpa0 > u64::MAX - bytes {
                    return Err(VmPagesError::AddressOverflow);
                }
            },
            None => {
                return Err(VmPagesError::AddressOverflow);
            },
        }
        // Validate first: every slot mapped, every backing page poppable.
        let mut ok = true;
        let ghost mut bad: int = 0;
        let mut i: u64 = 0;
        while i < num_pages
            invariant
                self.wf(),
                i <= num_pages,
                gpa0 + PAGE_SIZE_4K * num_pages <= u64::MAX,
                ok ==> forall|j: int|
                    0 <= j < i ==> #[trigger] rm_mapped_at(self.mapped@, gpa0, j),
                !ok ==> 0 <= bad < num_pages && !rm_mapped_at(self.mapped@, gpa0, bad),
            decreases num_pages - i,
        {
            if ok {
                let g = gpa0 + i * PAGE_SIZE_4K;
                if !mapping_contains_gpa(&self.mapped, g) {
                    ok = false;
                    proof {
                        bad = i as int;
                    }
                }
            }
            i = i + 1;
        }
        if !ok {
            return Err(VmPagesError::NotMapped);
        }
        let mut ok2 = true;
        let ghost mut bad2: int = 0;
        let mut i: u64 = 0;
        while i < num_pages
            invariant
                self.wf(),
                page_map.wf(),
                i <= num_pages,
                gpa0 + PAGE_SIZE_4K * num_pages <= u64::MAX,
                forall|j: int| 0 <= j < num_pages ==> #[trigger] rm_mapped_at(self.mapped@, gpa0, j),
                ok2 ==> forall|j: int|
                    0 <= j < i ==> #[trigger] rm_releasable_at(
                        self.mapped@,
                        *page_map,
                        gpa0,
                        j,
                        self.page_owner_id,
                    ),
                !ok2 ==> 0 <= bad2 < num_pages && !rm_releasable_at(
                    self.mapped@,
                    *page_map,
                    gpa0,
                    bad2,
                    self.page_owner_id,
                ),
            decreases num_pages - i,
        {
            if ok2 {
                let g = gpa0 + i * PAGE_SIZE_4K;
                proof {
                    assert(rm_mapped_at(self.mapped@, gpa0, i as int));
                }
                let pos = mapping_find(&self.mapped, g).unwrap();
                let spa = self.mapped[pos].spa_pfn;
                proof {
                    assert(spa == spa_of(self.mapped@, g));
                }
                if !check_page_releasable(page_map, spa, self.page_owner_id) {
                    ok2 = false;
                    proof {
                        bad2 = i as int;
                        assert(!rm_releasable_at(
                            self.mapped@,
                            *page_map,
                            gpa0,
                            i as int,
                            self.page_owner_id,
                        ));
                    }
                } else {
                    proof {
                        assert(rm_releasable_at(
                            self.mapped@,
                            *page_map,
                            gpa0,
                            i as int,
                            self.page_owner_id,
                        ));
                    }
                }
            }
            i = i + 1;
        }
        if !ok2 {
            return Err(VmPagesError::PageNotUsable);
        }
        // Act: move each mapping to the reclaimable list and pop the
        // backing frame's owner.
        let ghost pre_s = *self;
        let ghost pre_pm = *page_map;
        let mut i: u64 = 0;
        while i < num_pages
            invariant
                self.wf(),
                page_map.wf(),
                i <= num_pages,
                gpa0 % PAGE_SIZE_4K == 0,
                gpa0 + PAGE_SIZE_4K * num_pages <= u64::MAX,
                pre_s.wf(),
                pre_pm.wf(),
                forall|j: int|
                    0 <= j < num_pages ==> #[trigger] rm_mapped_at(pre_s.mapped@, gpa0, j),
                forall|j: int|
                    0 <= j < num_pages ==> #[trigger] rm_releasable_at(
                        pre_s.mapped@,
                        pre_pm,
                        gpa0,
                        j,
                        pre_s.page_owner_id,
                    ),
                self.page_owner_id == pre_s.page_owner_id,
                self.root_addr == pre_s.root_addr,
                self.next_guest_id == pre_s.next_guest_id,
                self.measurement == pre_s.measurement,
                self.pte_pages == pre_s.pte_pages,
                forall|g: u64|
                    #[trigger] maps_gpa(self.mapped@, g) <==> maps_gpa(pre_s.mapped@, g) && !(gpa0
                        <= g < gpa0 + PAGE_SIZE_4K * i),
                forall|g: u64|
                    #[trigger] maps_gpa(self.mapped@, g) ==> spa_of(self.mapped@, g) == spa_of(
                        pre_s.mapped@,
                        g,
                    ),
                forall|g: u64|
                    #[trigger] maps_gpa(self.reclaimable@, g) <==> maps_gpa(pre_s.reclaimable@, g)
                        || (maps_gpa(pre_s.mapped@, g) && gpa0 <= g < gpa0 + PAGE_SIZE_4K * i),
                forall|g: u64|
                    maps_gpa(pre_s.reclaimable@, g) ==> spa_of(self.reclaimable@, g) == spa_of(
                        pre_s.reclaimable@,
                        g,
                    ),
                forall|g: u64|
                    maps_gpa(pre_s.mapped@, g) && gpa0 <= g < gpa0 + PAGE_SIZE_4K * i ==> spa_of(
                        self.reclaimable@,
                        g,
                    ) == spa_of(pre_s.mapped@, g),
                forall|s: u64|
                    #[trigger] maps_spa(self.mapped@, s) ==> maps_spa(pre_s.mapped@, s),
                page_map.entries() == pre_pm.entries(),
                page_map.pages@.len() == pre_pm.pages@.len(),
                forall|pfn: int|
                    pre_pm.covered(pfn) && spa_backs_range(pre_s.mapped@, gpa0, i as int, pfn)
                        ==> page_map.page_view_of(pfn) == pre_pm.page_view_of(pfn).popped(),
                forall|pfn: int|
                    pre_pm.covered(pfn) && !spa_backs_range(pre_s.mapped@, gpa0, i as int, pfn)
                        ==> page_map.page_view_of(pfn) == pre_pm.page_view_of(pfn),
            decreases num_pages - i,
        {
            let g = gpa0 + i * PAGE_SIZE_4K;
            proof {
                assert(rm_mapped_at(pre_s.mapped@, gpa0, i as int));
                assert(PAGE_SIZE_4K * i < PAGE_SIZE_4K * (i + 1));
                assert(maps_gpa(self.mapped@, g));
            }
            let pos = mapping_find(&self.mapped, g).unwrap();
            let entry = self.mapped[pos];
            let ghost mapped0 = self.mapped@;
            let ghost rec0 = self.reclaimable@;
            proof {
                assert(entry.gpa == g);
                assert(entry.spa_pfn == spa_of(mapped0, g));
                assert(entry.spa_pfn == spa_of(pre_s.mapped@, g));
                assert(rm_releasable_at(pre_s.mapped@, pre_pm, gpa0, i as int, pre_s.page_owner_id));
                assert(page_releasable_by(pre_pm, entry.spa_pfn as int, pre_s.page_owner_id));
                // The frame has not been popped yet: it backs no earlier slot.
                assert(!spa_backs_range(pre_s.mapped@, gpa0, i as int, entry.spa_pfn as int)) by {
                    if spa_backs_range(pre_s.mapped@, gpa0, i as int, entry.spa_pfn as int) {
                        let j = choose|j: int|
                            0 <= j < i && #[trigger] backs_at(
                                pre_s.mapped@,
                                gpa0,
                                j,
                                entry.spa_pfn as int,
                            );
                        let gj = (gpa0 + PAGE_SIZE_4K * j) as u64;
                        assert(PAGE_SIZE_4K * j < PAGE_SIZE_4K * i);
                        assert(gj != g);
                        let pj = gpa_pos(pre_s.mapped@, gj);
                        let pg = gpa_pos(pre_s.mapped@, g);
                        assert(maps_gpa(pre_s.mapped@, gj));
                        assert(pre_s.mapped@[pj].gpa == gj && pre_s.mapped@[pg].gpa == g);
                        assert(pre_s.mapped@[pj].spa_pfn == entry.spa_pfn);
                        assert(pre_s.mapped@[pg].spa_pfn == entry.spa_pfn);
                        if pj < pg {
                            assert(pre_s.mapped@[pj].spa_pfn != pre_s.mapped@[pg].spa_pfn);
                        } else if pg < pj {
                            assert(pre_s.mapped@[pg].spa_pfn != pre_s.mapped@[pj].spa_pfn);
                        }
                    }
                }
                assert(page_map.page_view_of(entry.spa_pfn as int) == pre_pm.page_view_of(
                    entry.spa_pfn as int,
                ));
                lemma_mapping_remove(mapped0, pos as int);
            }
            self.mapped.remove(pos);
            proof {
                assert(self.mapped@ == mapped0.remove(pos as int));
                assert(!maps_gpa(rec0, entry.gpa));
                assert(!maps_spa(rec0, entry.spa_pfn)) by {
                    if maps_spa(rec0, entry.spa_pfn) {
                        assert(maps_spa(mapped0, entry.spa_pfn)) by {
                            lemma_gpa_unique(mapped0, g, pos as int);
                            assert(mapped0[pos as int].spa_pfn == entry.spa_pfn);
                        }
                        assert(maps_spa(pre_s.mapped@, entry.spa_pfn));
                        let k = choose|k: int|
                            0 <= k < rec0.len() && (#[trigger] rec0[k]).spa_pfn == entry.spa_pfn;
                        let gk = rec0[k].gpa;
                        assert(maps_gpa(rec0, gk));
                        lemma_gpa_unique(rec0, gk, k);
                        if maps_gpa(pre_s.reclaimable@, gk) {
                            assert(spa_of(rec0, gk) == spa_of(pre_s.reclaimable@, gk));
                            assert(maps_spa(pre_s.reclaimable@, entry.spa_pfn)) by {
                                let kp = gpa_pos(pre_s.reclaimable@, gk);
                                assert(pre_s.reclaimable@[kp].spa_pfn == spa_of(
                                    pre_s.reclaimable@,
                                    gk,
                                ));
                            }
                        } else {
                            assert(maps_gpa(pre_s.mapped@, gk) && gpa0 <= gk < gpa0 + PAGE_SIZE_4K
                                * i);
                            assert(spa_of(rec0, gk) == spa_of(pre_s.mapped@, gk));
                            assert(gk % PAGE_SIZE_4K == 0) by {
                                let kq = gpa_pos(pre_s.mapped@, gk);
                                assert(pre_s.mapped@[kq].gpa == gk);
                            }
                            let j = lemma_aligned_slot(gpa0, gk, i as int);
                            assert(backs_at(pre_s.mapped@, gpa0, j, entry.spa_pfn as int));
                            assert(spa_backs_range(
                                pre_s.mapped@,
                                gpa0,
                                i as int,
                                entry.spa_pfn as int,
                            ));
                        }
                    }
                }
                assert(entry.gpa % PAGE_SIZE_4K == 0);
                lemma_mapping_push(rec0, entry);
            }
            self.reclaimable.push(entry);
            proof {
                assert(self.reclaimable@ == rec0.push(entry));
            }
            let ghost pm_mid = *page_map;
            proof {
                assert forall|pfn: int|
                    entry.spa_pfn as int <= pfn < entry.spa_pfn as int + 1 implies pm_mid.covered(
                    pfn,
                ) && (#[trigger] pm_mid.page_view_of(pfn)).pop_allowed() by {
                    assert(pm_mid.page_view_of(pfn) == pre_pm.page_view_of(pfn));
                }
            }
            pop_owner_range(page_map, entry.spa_pfn, 1);
            proof {
                let m1 = mapped0.remove(pos as int);
                let r1 = rec0.push(entry);
                assert forall|pfn: int|
                    pre_pm.covered(pfn) && spa_backs_range(
                        pre_s.mapped@,
                        gpa0,
                        (i + 1) as int,
                        pfn,
                    ) implies page_map.page_view_of(pfn) == pre_pm.page_view_of(pfn).popped() by {
                    let j = choose|j: int|
                        0 <= j < i + 1 && #[trigger] backs_at(pre_s.mapped@, gpa0, j, pfn);
                    if j < i {
                        assert(spa_backs_range(pre_s.mapped@, gpa0, i as int, pfn));
                        assert(pfn != entry.spa_pfn as int);
                    } else {
                        assert((gpa0 + PAGE_SIZE_4K * j) as u64 == g);
                        assert(pfn == entry.spa_pfn as int);
                    }
                }
                assert forall|pfn: int|
                    pre_pm.covered(pfn) && !spa_backs_range(
                        pre_s.mapped@,
                        gpa0,
                        (i + 1) as int,
                        pfn,
                    ) implies page_map.page_view_of(pfn) == pre_pm.page_view_of(pfn) by {
                    assert(!backs_at(pre_s.mapped@, gpa0, i as int, pfn));
                    assert(pfn != entry.spa_pfn as int) by {
                        if pfn == entry.spa_pfn as int {
                            assert(backs_at(pre_s.mapped@, gpa0, i as int, pfn));
                        }
                    }
                    assert(!spa_backs_range(pre_s.mapped@, gpa0, i as int, pfn)) by {
                        if spa_backs_range(pre_s.mapped@, gpa0, i as int, pfn) {
                            let j = choose|j: int|
                                0 <= j < i && #[trigger] backs_at(pre_s.mapped@, gpa0, j, pfn);
                            assert(backs_at(pre_s.mapped@, gpa0, j, pfn));
                            assert(spa_backs_range(pre_s.mapped@, gpa0, (i + 1) as int, pfn));
                        }
                    }
                }
                assert forall|g2: u64|
                    #[trigger] maps_gpa(self.mapped@, g2) implies maps_gpa(pre_s.mapped@, g2)
                    && !(gpa0 <= g2 < gpa0 + PAGE_SIZE_4K * (i + 1)) by {
                    assert(maps_gpa(m1, g2));
                    assert(maps_gpa(mapped0, g2) && g2 != entry.gpa);
                    assert(maps_gpa(pre_s.mapped@, g2));
                    if gpa0 <= g2 < gpa0 + PAGE_SIZE_4K * (i + 1) {
                        assert(!(gpa0 <= g2 < gpa0 + PAGE_SIZE_4K * i));
                        assert(g2 % PAGE_SIZE_4K == 0) by {
                            let kq = gpa_pos(pre_s.mapped@, g2);
                            assert(pre_s.mapped@[kq].gpa == g2);
                        }
                        assert(g % PAGE_SIZE_4K == 0);
                        lemma_only_aligned_in_page(g2, g);
                    }
                }
                assert forall|g2: u64|
                    maps_gpa(pre_s.mapped@, g2) && !(gpa0 <= g2 < gpa0 + PAGE_SIZE_4K * (i + 1))
                    implies maps_gpa(self.mapped@, g2) by {
                    assert(PAGE_SIZE_4K * i < PAGE_SIZE_4K * (i + 1));
                    assert(maps_gpa(mapped0, g2));
                    assert(g2 != entry.gpa);
                    assert(maps_gpa(m1, g2));
                }
                assert forall|g2: u64|
                    #[trigger] maps_gpa(self.mapped@, g2) implies spa_of(self.mapped@, g2)
                    == spa_of(pre_s.mapped@, g2) by {
                    assert(maps_gpa(m1, g2));
                    assert(spa_of(m1, g2) == spa_of(mapped0, g2));
                    assert(maps_gpa(mapped0, g2));
                }
                assert forall|g2: u64|
                    #[trigger] maps_gpa(self.reclaimable@, g2) implies maps_gpa(
                    pre_s.reclaimable@,
                    g2,
                ) || (maps_gpa(pre_s.mapped@, g2) && gpa0 <= g2 < gpa0 + PAGE_SIZE_4K * (i + 1))
                    by {
                    assert(maps_gpa(r1, g2));
                    if g2 == entry.gpa {
                        assert(maps_gpa(pre_s.mapped@, g2));
                        assert(PAGE_SIZE_4K * i < PAGE_SIZE_4K * (i + 1));
                    } else {
                        assert(maps_gpa(rec0, g2));
                        assert(PAGE_SIZE_4K * i < PAGE_SIZE_4K * (i + 1));
                    }
                }
                assert forall|g2: u64|
                    maps_gpa(pre_s.reclaimable@, g2) || (maps_gpa(pre_s.mapped@, g2) && gpa0 <= g2
                        < gpa0 + PAGE_SIZE_4K * (i + 1)) implies #[trigger] maps_gpa(
                    self.reclaimable@,
                    g2,
                ) by {
                    if maps_gpa(pre_s.reclaimable@, g2) {
                        assert(maps_gpa(rec0, g2));
                        assert(maps_gpa(r1, g2));
                    } else {
                        if gpa0 <= g2 < gpa0 + PAGE_SIZE_4K * i {
                            assert(maps_gpa(rec0, g2));
                            assert(maps_gpa(r1, g2));
                        } else {
                            assert(g2 % PAGE_SIZE_4K == 0) by {
                                let kq = gpa_pos(pre_s.mapped@, g2);
                                assert(pre_s.mapped@[kq].gpa == g2);
                            }
                            lemma_only_aligned_in_page(g2, g);
                            assert(maps_gpa(r1, g2));
                        }
                    }
                }
                assert forall|g2: u64|
                    maps_gpa(pre_s.reclaimable@, g2) implies spa_of(self.reclaimable@, g2)
                    == spa_of(pre_s.reclaimable@, g2) by {
                    assert(maps_gpa(rec0, g2));
                    assert(spa_of(r1, g2) == spa_of(rec0, g2));
                }
                assert forall|g2: u64|
                    maps_gpa(pre_s.mapped@, g2) && gpa0 <= g2 < gpa0 + PAGE_SIZE_4K * (i + 1)
                    implies spa_of(self.reclaimable@, g2) == spa_of(pre_s.mapped@, g2) by {
                    if g2 == entry.gpa {
                        assert(spa_of(r1, entry.gpa) == entry.spa_pfn);
                    } else if gpa0 <= g2 < gpa0 + PAGE_SIZE_4K * i {
                        assert(spa_of(r1, g2) == spa_of(rec0, g2));
                    } else {
                        assert(g2 % PAGE_SIZE_4K == 0) by {
                            let kq = gpa_pos(pre_s.mapped@, g2);
                            assert(pre_s.mapped@[kq].gpa == g2);
                        }
                        lemma_only_aligned_in_page(g2, g);
                    }
                }
                assert forall|s: u64| #[trigger] maps_spa(self.mapped@, s) implies maps_spa(
                    pre_s.mapped@,
                    s,
                ) by {
                    assert(maps_spa(m1, s));
                    assert(maps_spa(mapped0, s));
                }
                assert forall|g2: u64| #[trigger] maps_gpa(self.mapped@, g2) implies !maps_gpa(
                    self.reclaimable@,
                    g2,
                ) by {
                    assert(maps_gpa(m1, g2));
                    assert(maps_gpa(mapped0, g2) && g2 != entry.gpa);
                    assert(!maps_gpa(rec0, g2));
                    assert(!maps_gpa(r1, g2));
                }
                assert forall|s: u64| #[trigger] maps_spa(self.mapped@, s) implies !maps_spa(
                    self.reclaimable@,
                    s,
                ) by {
                    assert(maps_spa(m1, s));
                    assert(maps_spa(mapped0, s) && s != entry.spa_pfn);
                    assert(!maps_spa(rec0, s));
                    assert(!maps_spa(r1, s));
                }
            }
            i = i + 1;
        }
        Ok(num_pages)
    }
}

/// A 4 KiB-aligned address inside an aligned run of `n` pages is exactly
/// one of the run's slots.
pub proof fn lemma_aligned_slot(gpa0: u64, g: u64, n: int) -> (j: int)
    requires
        gpa0 % PAGE_SIZE_4K == 0,
        g % PAGE_SIZE_4K == 0,
        gpa0 <= g,
        g < gpa0 + PAGE_SIZE_4K * n,
    ensures
        0 <= j < n,
        g == (gpa0 + PAGE_SIZE_4K * j) as u64,
{
    vstd::arithmetic::div_mod::lemma_fundamental_div_mod(g as int, PAGE_SIZE_4K as int);
    vstd::arithmetic::div_mod::lemma_fundamental_div_mod(gpa0 as int, PAGE_SIZE_4K as int);
    let a = g as int / PAGE_SIZE_4K as int;
    let b = gpa0 as int / PAGE_SIZE_4K as int;
    vstd::arithmetic::div_mod::lemma_div_is_ordered(gpa0 as int, g as int, PAGE_SIZE_4K as int);
    a - b
}

/// Two 4 KiB-aligned addresses in the same 4 KiB page are equal.
pub proof fn lemma_only_aligned_in_page(g2: u64, g: u64)
    requires
        g2 % PAGE_SIZE_4K == 0,
        g % PAGE_SIZE_4K == 0,
        g <= g2 < g + PAGE_SIZE_4K,
    ensures
        g2 == g,
{
    vstd::arithmetic::div_mod::lemma_fundamental_div_mod(g2 as int, PAGE_SIZE_4K as int);
    vstd::arithmetic::div_mod::lemma_fundamental_div_mod(g as int, PAGE_SIZE_4K as int);
    vstd::arithmetic::div_mod::lemma_div_is_ordered(g as int, g2 as int, PAGE_SIZE_4K as int);
    vstd::arithmetic::div_mod::lemma_div_is_ordered(g2 as int, g as int + PAGE_SIZE_4K as int - 1, PAGE_SIZE_4K as int);
}

/// The exact contract of [`VmPages::handle_page_fault`]: what each outcome
/// means and how the state changes on success.
pub open spec fn page_fault_post(
    pre: VmPages,
    prepm: PageMap,
    fault_addr: u64,
    post: VmPages,
    postpm: PageMap,
    r: Result<(), VmPagesError>,
) -> bool {
    let page = (fault_addr - fault_addr % PAGE_SIZE_4K) as u64;
    &&& (r is Err ==> post == pre && postpm == prepm)
    &&& (!maps_gpa(pre.reclaimable@, page) ==> r == Err::<(), VmPagesError>(
        VmPagesError::NotReclaimable,
    ))
    &&& (maps_gpa(pre.reclaimable@, page) && {
        let spa = spa_of(pre.reclaimable@, page);
        !(prepm.covered(spa as int) && prepm.page_view_of(spa as int).push_allowed())
    } ==> r == Err::<(), VmPagesError>(VmPagesError::PageNotUsable))
    &&& (maps_gpa(pre.reclaimable@, page) && {
        let spa = spa_of(pre.reclaimable@, page);
        prepm.covered(spa as int) && prepm.page_view_of(spa as int).push_allowed()
    } ==> r is Ok && {
        let spa = spa_of(pre.reclaimable@, page);
        &&& forall|g: u64|
            #[trigger] maps_gpa(post.mapped@, g) <==> maps_gpa(pre.mapped@, g) || g == page
        &&& forall|g: u64|
            maps_gpa(pre.mapped@, g) ==> spa_of(post.mapped@, g) == spa_of(pre.mapped@, g)
        &&& spa_of(post.mapped@, page) == spa
        &&& forall|g: u64|
            #[trigger] maps_gpa(post.reclaimable@, g) <==> maps_gpa(pre.reclaimable@, g) && g
                != page
        &&& forall|g: u64|
            maps_gpa(post.reclaimable@, g) ==> spa_of(post.reclaimable@, g) == spa_of(
                pre.reclaimable@,
                g,
            )
        &&& post.page_owner_id == pre.page_owner_id
        &&& post.root_addr == pre.root_addr
        &&& post.next_guest_id == pre.next_guest_id
        &&& post.measurement == pre.measurement
        &&& post.pte_pages == pre.pte_pages
        &&& postpm.entries() == prepm.entries()
        &&& postpm.pages@.len() == prepm.pages@.len()
        &&& postpm.page_view_of(spa as int) == prepm.page_view_of(spa as int).pushed(
            pre.page_owner_id.raw,
        )
        &&& forall|pfn: int|
            prepm.covered(pfn) && pfn != spa as int ==> postpm.page_view_of(pfn)
                == prepm.page_view_of(pfn)
    })
}

/// Checks whether one frame is tracked and has room for one more owner.
pub(crate) fn check_page_pushable(page_map: &PageMap, pfn: u64) -> (r: bool)
    requires
        page_map.wf(),
    ensures
        r == (page_map.covered(pfn as int) && page_map.page_view_of(pfn as int).push_allowed()),
{
    let idx = match page_map.index_for_pfn(pfn) {
        Some(idx) => idx,
        None => {
            return false;
        },
    };
    let total = page_map.pages.len();
    proof {
        assert(idx as int == page_map.index_of(pfn as int));
        assert(page_map.pages@[idx as int].wf());
        assert(page_map.pages@[idx as int]@ == page_map.page_view_of(pfn as int));
    }
    match &page_map.pages[idx] {
        crate::page_info::PageInfo::Free => true,
        crate::page_info::PageInfo::Owned(owners) => crate::avec::owner_vec_len(owners)
            < MAX_PAGE_OWNERS,
        crate::page_info::PageInfo::Reserved => false,
    }
}

impl VmPages {
    /// Demand-faults a previously removed but reclaimable page back into
    /// this VM: the faulting address's page must be on the reclaimable
    /// list and its backing frame must have room for this VM on its
    /// ownership chain; the mapping is then re-established. On failure
    /// nothing changes.
    pub fn handle_page_fault(&mut self, page_map: &mut PageMap, fault_addr: u64) -> (r: Result<
        (),
        VmPagesError,
    >)
        requires
            old(self).wf(),
            old(page_map).wf(),
        ensures
            final(self).wf(),
            final(page_map).wf(),
            page_fault_post(
                *old(self),
                *old(page_map),
                fault_addr,
                *final(self),
                *final(page_map),
                r,
            ),
    {
        let page = fault_addr - fault_addr % PAGE_SIZE_4K;
        let pos = match mapping_find(&self.reclaimable, page) {
            Some(p) => p,
            None => {
                return Err(VmPagesError::NotReclaimable);
            },
        };
        let entry = self.reclaimable[pos];
        proof {
            assert(entry.gpa == page);
            assert(entry.spa_pfn == spa_of(self.reclaimable@, page));
        }
        if !check_page_pushable(page_map, entry.spa_pfn) {
            return Err(VmPagesError::PageNotUsable);
        }
        let ghost rec0 = self.reclaimable@;
        let ghost mapped0 = self.mapped@;
        proof {
            lemma_mapping_remove(rec0, pos as int);
        }
        self.reclaimable.remove(pos);
        proof {
            assert(self.reclaimable@ == rec0.remove(pos as int));
            assert(!maps_gpa(mapped0, entry.gpa)) by {
                if maps_gpa(mapped0, entry.gpa) {
                    assert(maps_gpa(rec0, entry.gpa));
                }
            }
            assert(!maps_spa(mapped0, entry.spa_pfn)) by {
                if maps_spa(mapped0, entry.spa_pfn) {
                    assert(maps_spa(rec0, entry.spa_pfn)) by {
                        lemma_gpa_unique(rec0, page, pos as int);
                        assert(rec0[pos as int].spa_pfn == entry.spa_pfn);
                    }
                }
            }
            assert(entry.gpa % PAGE_SIZE_4K == 0);
            lemma_mapping_push(mapped0, entry);
        }
        self.mapped.push(entry);
        let ghost pm0 = *page_map;
        proof {
            assert(self.mapped@ == mapped0.push(entry));
            assert forall|pfn: int|
                entry.spa_pfn as int <= pfn < entry.spa_pfn as int + 1 implies pm0.covered(pfn) && (
            #[trigger] pm0.page_view_of(pfn)).push_allowed() by {}
        }
        push_owner_range(page_map, entry.spa_pfn, 1, self.page_owner_id);
        proof {
            let m1 = mapped0.push(entry);
            let r1 = rec0.remove(pos as int);
            assert forall|g2: u64| #[trigger] maps_gpa(self.reclaimable@, g2) implies !maps_gpa(
                self.mapped@,
                g2,
            ) by {
                assert(maps_gpa(r1, g2));
                assert(maps_gpa(rec0, g2) && g2 != entry.gpa);
                if maps_gpa(m1, g2) {
                    assert(maps_gpa(mapped0, g2));
                }
            }
            assert forall|g2: u64| #[trigger] maps_gpa(self.mapped@, g2) implies !maps_gpa(
                self.reclaimable@,
                g2,
            ) by {
                assert(maps_gpa(m1, g2));
                if maps_gpa(r1, g2) {
                    assert(maps_gpa(rec0, g2) && g2 != entry.gpa);
                    assert(maps_gpa(mapped0, g2) || g2 == entry.gpa);
                }
            }
            assert forall|s: u64| #[trigger] maps_spa(self.mapped@, s) implies !maps_spa(
                self.reclaimable@,
                s,
            ) by {
                assert(maps_spa(m1, s));
                if maps_spa(r1, s) {
                    assert(maps_spa(rec0, s) && s != entry.spa_pfn);
                    assert(maps_spa(mapped0, s) || s == entry.spa_pfn);
                }
            }
        }
        Ok(())
    }
}

/// Checks whether one frame is tracked and currently owned by `owner`.
pub(crate) fn check_page_owned_by(page_map: &PageMap, pfn: u64, owner: PageOwnerId) -> (r: bool)
    requires
        page_map.wf(),
    ensures
        r == (page_map.covered(pfn as int) && page_map.page_view_of(pfn as int).owner() == Some(
            owner,
        )),
{
    let idx = match page_map.index_for_pfn(pfn) {
        Some(idx) => idx,
        None => {
            return false;
        },
    };
    let total = page_map.pages.len();
    proof {
        assert(idx as int == page_map.index_of(pfn as int));
        assert(page_map.pages@[idx as int].wf());
        assert(page_map.pages@[idx as int]@ == page_map.page_view_of(pfn as int));
    }
    let info = &page_map.pages[idx];
    match info.owner() {
        Some(o) => o.raw == owner.raw,
        None => false,
    }
}

} // verus!
