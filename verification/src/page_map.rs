//! The per-4 KiB-page ownership directory for all of physical memory: a
//! dense array of [`PageInfo`] records, indexed through a sparse map of
//! contiguous frame runs. Built once at boot from a [`HwMemMap`]; afterwards
//! only the [`PageInfo`] records it vends can change.

use vstd::arithmetic::div_mod::lemma_fundamental_div_mod;
use vstd::prelude::*;

use crate::avec::{
    sparse_seq, sparse_vec_get, sparse_vec_len, sparse_vec_new, sparse_vec_try_push, SparseVec,
    MAX_SPARSE_MAP_ENTRIES,
};
use crate::ids::HYPERVISOR_ID;
use crate::mem_map::{
    HwMemMap, HwMemRegion, HwMemType, HwReservedMemType, MemMapError, PageAddr, PageSize,
    PAGE_SIZE_4K,
};
use crate::page_info::{PageInfo, PageInfoView};

verus! {

/// Bytes of tracker backing memory set aside per tracked frame: the size of
/// one per-frame record.
pub const PAGE_INFO_BYTES: u64 = 40;

/// The largest page frame number a 64-bit physical address can hold.
pub const MAX_PFN: u64 = 0xF_FFFF_FFFF_FFFF;

/// A sparse-map entry `(base_pfn, num_pages, page_map_index)`: the frames
/// `base_pfn .. base_pfn + num_pages` are stored in the page array starting
/// at `page_map_index`.
pub open spec fn entry_covers(e: (u64, u64, u64), pfn: int) -> bool {
    e.0 <= pfn < e.0 + e.1
}

/// Well-formedness of a sparse map over a page array of length `total`:
/// entries are in ascending frame order and pairwise disjoint, their index
/// fields chain, and together they account for exactly `total` records.
pub open spec fn entries_wf(es: Seq<(u64, u64, u64)>, total: int) -> bool {
    &&& forall|i: int| 0 <= i < es.len() ==> (#[trigger] es[i]).0 + es[i].1 <= u64::MAX
    &&& forall|i: int, j: int|
        0 <= i < j < es.len() ==> (#[trigger] es[i]).0 + es[i].1 <= (#[trigger] es[j]).0
    &&& (es.len() > 0 ==> es[0].2 == 0)
    &&& forall|i: int| 1 <= i < es.len() ==> (#[trigger] es[i]).2 == es[i - 1].2 + es[i - 1].1
    &&& (if es.len() == 0 {
        total == 0
    } else {
        es.last().2 + es.last().1 == total
    })
}

/// Whether some entry covers frame `pfn`.
pub open spec fn entries_covered(es: Seq<(u64, u64, u64)>, pfn: int) -> bool {
    exists|i: int| 0 <= i < es.len() && #[trigger] entry_covers(es[i], pfn)
}

/// The position of the entry covering frame `pfn`.
pub open spec fn entries_pos_of(es: Seq<(u64, u64, u64)>, pfn: int) -> int {
    choose|i: int| 0 <= i < es.len() && #[trigger] entry_covers(es[i], pfn)
}

/// The index in the page array of the record for frame `pfn`.
pub open spec fn entries_index_of(es: Seq<(u64, u64, u64)>, pfn: int) -> int {
    let e = es[entries_pos_of(es, pfn)];
    e.2 + pfn - e.0
}

/// In a well-formed sparse map at most one entry covers a frame.
pub proof fn lemma_entries_unique(es: Seq<(u64, u64, u64)>, total: int, pfn: int, i: int)
    requires
        entries_wf(es, total),
        0 <= i < es.len(),
        entry_covers(es[i], pfn),
    ensures
        entries_covered(es, pfn),
        entries_pos_of(es, pfn) == i,
        entries_index_of(es, pfn) == es[i].2 + pfn - es[i].0,
{
    assert(entries_covered(es, pfn));
    let j = entries_pos_of(es, pfn);
    if i < j {
        assert(es[i].0 + es[i].1 <= es[j].0);
        assert(false);
    } else if j < i {
        assert(es[j].0 + es[j].1 <= es[i].0);
        assert(false);
    }
}

/// In a well-formed sparse map every entry's run of records lies inside the
/// page array.
pub proof fn lemma_entries_end(es: Seq<(u64, u64, u64)>, total: int, i: int)
    requires
        entries_wf(es, total),
        0 <= i < es.len(),
    ensures
        es[i].2 + es[i].1 <= total,
        es[i].2 >= 0,
    decreases es.len() - i,
{
    if i == es.len() - 1 {
    } else {
        lemma_entries_end(es, total, i + 1);
    }
}

/// In a well-formed sparse map the record runs of distinct entries appear
/// in entry order and do not overlap.
pub proof fn lemma_entries_monotone(es: Seq<(u64, u64, u64)>, total: int, i: int, j: int)
    requires
        entries_wf(es, total),
        0 <= i < j < es.len(),
    ensures
        es[i].2 + es[i].1 <= es[j].2,
    decreases j - i,
{
    if j == i + 1 {
    } else {
        lemma_entries_monotone(es, total, i, j - 1);
    }
}

/// Distinct frames have distinct records: the page array holds one record
/// per tracked frame.
pub proof fn lemma_index_injective(pm: PageMap, pfn1: int, pfn2: int)
    requires
        pm.wf(),
        pm.covered(pfn1),
        pm.covered(pfn2),
        pfn1 != pfn2,
    ensures
        pm.index_of(pfn1) != pm.index_of(pfn2),
{
    let es = pm.entries();
    let total = pm.pages@.len() as int;
    let p1 = entries_pos_of(es, pfn1);
    let p2 = entries_pos_of(es, pfn2);
    assert(entry_covers(es[p1], pfn1));
    assert(entry_covers(es[p2], pfn2));
    if p1 < p2 {
        lemma_entries_monotone(es, total, p1, p2);
    } else if p2 < p1 {
        lemma_entries_monotone(es, total, p2, p1);
    }
}

/// The per-frame record a freshly built directory holds for each kind of
/// memory: available frames are free, the host kernel and initramfs images
/// are hypervisor-owned, and every other reserved range is unusable.
pub open spec fn expected_page_view(t: HwMemType) -> PageInfoView {
    match t {
        HwMemType::Available => PageInfoView::Free,
        HwMemType::Reserved(HwReservedMemType::HostKernelImage) => PageInfoView::Owned(
            seq![HYPERVISOR_ID],
        ),
        HwMemType::Reserved(HwReservedMemType::HostInitramfsImage) => PageInfoView::Owned(
            seq![HYPERVISOR_ID],
        ),
        HwMemType::Reserved(_) => PageInfoView::Reserved,
    }
}

/// The total number of 4 KiB frames across a sequence of regions.
pub open spec fn spec_total_frames(rs: Seq<HwMemRegion>) -> int
    decreases rs.len(),
{
    if rs.len() == 0 {
        0
    } else {
        spec_total_frames(rs.drop_last()) + rs.last().spec_num_pages()
    }
}

/// The bytes of backing memory the directory reserves for its per-frame
/// records: one record per frame, rounded up to whole 4 KiB pages.
pub open spec fn spec_page_map_size(mem_map: HwMemMap) -> int {
    ((spec_total_frames(mem_map.regions@) * PAGE_INFO_BYTES + PAGE_SIZE_4K - 1) / (
    PAGE_SIZE_4K as int)) * (PAGE_SIZE_4K as int)
}

/// Whether region `i` of the map is an available region large enough to
/// hold the directory's per-frame records.
pub open spec fn page_map_fit_at(mem_map: HwMemMap, i: int) -> bool {
    &&& 0 <= i < mem_map.regions@.len()
    &&& mem_map.regions@[i].mem_type == HwMemType::Available
    &&& mem_map.regions@[i].size >= spec_page_map_size(mem_map)
}

/// How [`PageMap::build_from`] adjusted the memory map: the prefix of the
/// first available region that could hold the records (region `i`, with no
/// earlier fit) is now reserved as tracker backing memory, and every other
/// frame kept its kind.
pub open spec fn page_map_reserved_at(mem_map: HwMemMap, mm: HwMemMap, i: int) -> bool {
    &&& page_map_fit_at(mem_map, i)
    &&& forall|j: int| 0 <= j < i ==> !page_map_fit_at(mem_map, j)
    &&& forall|pfn: int|
        mem_map.regions@[i].base <= PAGE_SIZE_4K * pfn < mem_map.regions@[i].base
            + spec_page_map_size(mem_map) ==> mm.type_of_pfn(pfn) == HwMemType::Reserved(
            HwReservedMemType::PageMap,
        )
    &&& forall|pfn: int|
        mem_map.covered(pfn) && !(mem_map.regions@[i].base <= PAGE_SIZE_4K * pfn
            < mem_map.regions@[i].base + spec_page_map_size(mem_map)) ==> mm.type_of_pfn(pfn)
            == mem_map.type_of_pfn(pfn)
}

/// The state of a directory mid-construction, after the first `r` regions
/// of `mem_map` have been walked: `es` holds the finished sparse-map
/// entries and `cur` the entry still being extended. Together they cover
/// exactly the frames of those regions, and the record of each covered
/// frame matches its region's kind.
pub open spec fn populate_inv(
    mem_map: HwMemMap,
    r: int,
    es: Seq<(u64, u64, u64)>,
    cur: (u64, u64, u64),
    pages: Seq<PageInfo>,
) -> bool {
    let ves = es.push(cur);
    &&& entries_wf(ves, pages.len() as int)
    &&& forall|pfn: int|
        entries_covered(ves, pfn) <==> (exists|q: int|
            0 <= q < r && (#[trigger] mem_map.regions@[q]).contains_pfn(pfn))
    &&& forall|pfn: int|
        entries_covered(ves, pfn) ==> {
            &&& 0 <= entries_index_of(ves, pfn) < pages.len()
            &&& pages[entries_index_of(ves, pfn)]@ == expected_page_view(
                mem_map.type_of_pfn(pfn),
            )
        }
}

/// Closing the current sparse-map entry and starting an empty one at or
/// after its end preserves the construction invariant.
proof fn lemma_populate_close(
    mem_map: HwMemMap,
    r: int,
    es: Seq<(u64, u64, u64)>,
    cur: (u64, u64, u64),
    pages: Seq<PageInfo>,
    newcur: (u64, u64, u64),
)
    requires
        mem_map.wf(),
        0 <= r < mem_map.regions@.len(),
        populate_inv(mem_map, r, es, cur, pages),
        newcur.1 == 0,
        newcur.2 == cur.2 + cur.1,
        cur.0 + cur.1 <= newcur.0,
    ensures
        populate_inv(mem_map, r, es.push(cur), newcur, pages),
{
    let total = pages.len() as int;
    let ves0 = es.push(cur);
    let ves1 = es.push(cur).push(newcur);
    assert(forall|p: int| 0 <= p < ves0.len() ==> ves1[p] == ves0[p]);
    assert forall|pfn: int| entries_covered(ves1, pfn) implies entries_covered(ves0, pfn) by {
        let p = choose|p: int| 0 <= p < ves1.len() && #[trigger] entry_covers(ves1[p], pfn);
        assert(entry_covers(ves0[p], pfn));
    }
    assert forall|pfn: int| entries_covered(ves0, pfn) implies entries_covered(ves1, pfn)
        && entries_index_of(ves1, pfn) == entries_index_of(ves0, pfn) by {
        let p = choose|p: int| 0 <= p < ves0.len() && #[trigger] entry_covers(ves0[p], pfn);
        assert(entry_covers(ves1[p], pfn));
        lemma_entries_unique(ves0, total, pfn, p);
        lemma_entries_unique(ves1, total, pfn, p);
    }
}

/// Extending the current sparse-map entry by the frames of region `r`,
/// whose records have been appended to the page array, advances the
/// construction invariant to `r + 1`.
proof fn lemma_populate_extend(
    mem_map: HwMemMap,
    r: int,
    es: Seq<(u64, u64, u64)>,
    cur: (u64, u64, u64),
    pages: Seq<PageInfo>,
    pages2: Seq<PageInfo>,
    cur2: (u64, u64, u64),
)
    requires
        mem_map.wf(),
        0 <= r < mem_map.regions@.len(),
        populate_inv(mem_map, r, es, cur, pages),
        cur.0 + cur.1 == mem_map.regions@[r].spec_base_pfn(),
        cur2.0 == cur.0,
        cur2.2 == cur.2,
        cur2.1 == cur.1 + mem_map.regions@[r].spec_num_pages(),
        cur2.0 + cur2.1 <= u64::MAX,
        pages2.len() == pages.len() + mem_map.regions@[r].spec_num_pages(),
        forall|t: int| 0 <= t < pages.len() ==> pages2[t] == pages[t],
        forall|t: int|
            pages.len() <= t < pages2.len() ==> (#[trigger] pages2[t])@ == expected_page_view(
                mem_map.regions@[r].mem_type,
            ),
    ensures
        populate_inv(mem_map, r + 1, es, cur2, pages2),
{
    let reg = mem_map.regions@[r];
    let base_len = pages.len() as int;
    let ves0 = es.push(cur);
    let ves1 = es.push(cur2);
    assert(reg.wf());
    reg.lemma_pfn_range();
    assert(forall|p: int| 0 <= p < es.len() ==> ves1[p] == ves0[p]);
    assert(ves1[ves1.len() - 1] == cur2);
    assert(entries_wf(ves1, pages2.len() as int));
    assert forall|pfn: int| entries_covered(ves0, pfn) implies entries_covered(ves1, pfn)
        && entries_index_of(ves1, pfn) == entries_index_of(ves0, pfn) by {
        let p = choose|p: int| 0 <= p < ves0.len() && #[trigger] entry_covers(ves0[p], pfn);
        assert(entry_covers(ves1[p], pfn));
        lemma_entries_unique(ves0, base_len, pfn, p);
        lemma_entries_unique(ves1, pages2.len() as int, pfn, p);
    }
    assert forall|pfn: int| reg.contains_pfn(pfn) implies entries_covered(ves1, pfn)
        && entries_index_of(ves1, pfn) == base_len + (pfn - reg.spec_base_pfn())
        && mem_map.type_of_pfn(pfn) == reg.mem_type by {
        assert(entry_covers(ves1[ves1.len() - 1], pfn));
        lemma_entries_unique(ves1, pages2.len() as int, pfn, ves1.len() - 1);
        mem_map.lemma_covering_unique(pfn, r);
    }
    assert forall|pfn: int| entries_covered(ves1, pfn) implies (entries_covered(ves0, pfn)
        || reg.contains_pfn(pfn)) by {
        let p = choose|p: int| 0 <= p < ves1.len() && #[trigger] entry_covers(ves1[p], pfn);
        if p < ves1.len() - 1 {
            assert(entry_covers(ves0[p], pfn));
        } else {
            if pfn < cur.0 + cur.1 {
                assert(entry_covers(ves0[p], pfn));
            } else {
                assert(reg.contains_pfn(pfn));
            }
        }
    }
    assert forall|pfn: int|
        entries_covered(ves1, pfn) implies (exists|q: int|
            0 <= q < r + 1 && (#[trigger] mem_map.regions@[q]).contains_pfn(pfn)) by {
        if entries_covered(ves0, pfn) {
            let q = choose|q: int|
                0 <= q < r && (#[trigger] mem_map.regions@[q]).contains_pfn(pfn);
            assert(mem_map.regions@[q].contains_pfn(pfn));
        } else {
            assert(reg.contains_pfn(pfn));
            assert(mem_map.regions@[r].contains_pfn(pfn));
        }
    }
    assert forall|pfn: int|
        (exists|q: int| 0 <= q < r + 1 && (#[trigger] mem_map.regions@[q]).contains_pfn(pfn))
            implies entries_covered(ves1, pfn) by {
        let q = choose|q: int|
            0 <= q < r + 1 && (#[trigger] mem_map.regions@[q]).contains_pfn(pfn);
        if q < r {
            assert(entries_covered(ves0, pfn));
        } else {
            assert(entry_covers(ves1[ves1.len() - 1], pfn));
        }
    }
    assert forall|pfn: int| entries_covered(ves1, pfn) implies {
        &&& 0 <= entries_index_of(ves1, pfn) < pages2.len()
        &&& pages2[entries_index_of(ves1, pfn)]@ == expected_page_view(mem_map.type_of_pfn(pfn))
    } by {
        if reg.contains_pfn(pfn) {
            assert(pages2[entries_index_of(ves1, pfn)]@ == expected_page_view(reg.mem_type));
        } else {
            assert(entries_covered(ves0, pfn));
            assert(pages[entries_index_of(ves0, pfn)]@ == expected_page_view(
                mem_map.type_of_pfn(pfn),
            ));
            assert(pages2[entries_index_of(ves1, pfn)] == pages[entries_index_of(ves0, pfn)]);
        }
    }
}

/// Keeps ownership information for all physical pages in the system.
pub struct PageMap {
    pub pages: Vec<PageInfo>,
    pub sparse_map: SparseVec,
}

impl PageMap {
    /// The sparse-map entries.
    pub open spec fn entries(self) -> Seq<(u64, u64, u64)> {
        sparse_seq(self.sparse_map)
    }

    /// Structural invariant: a well-formed sparse map over well-formed
    /// per-page records.
    pub open spec fn wf(self) -> bool {
        &&& entries_wf(self.entries(), self.pages@.len() as int)
        &&& forall|k: int| 0 <= k < self.pages@.len() ==> (#[trigger] self.pages@[k]).wf()
    }

    /// Whether the directory tracks frame `pfn`.
    pub open spec fn covered(self, pfn: int) -> bool {
        entries_covered(self.entries(), pfn)
    }

    /// The index in the page array of the record for frame `pfn`.
    pub open spec fn index_of(self, pfn: int) -> int {
        entries_index_of(self.entries(), pfn)
    }

    /// The record the directory holds for frame `pfn`.
    pub open spec fn page_view_of(self, pfn: int) -> PageInfoView {
        self.pages@[self.index_of(pfn)]@
    }

    /// Constructs an empty `PageMap` from an existing, still empty vector
    /// of per-page records.
    pub fn new(pages: Vec<PageInfo>) -> (r: Self)
        requires
            pages@.len() == 0,
        ensures
            r.wf(),
            r.pages@.len() == 0,
            r.entries().len() == 0,
    {
        PageMap { pages, sparse_map: sparse_vec_new() }
    }

    /// Builds a `PageMap` from a populated memory map, tracking ownership
    /// for each page in the system. First enough space for the per-frame
    /// records is taken from the first available region that can hold them
    /// and reserved as tracker backing memory; then the directory is
    /// populated from the adjusted map, which is returned beside it.
    /// Construction fails only when no single available region can hold
    /// the records.
    pub fn build_from(mem_map: HwMemMap) -> (r: Result<(PageMap, HwMemMap), MemMapError>)
        requires
            mem_map.wf(),
            1 <= mem_map.regions@.len(),
            mem_map.regions@.len() + 2 <= MAX_SPARSE_MAP_ENTRIES,
        ensures
            r is Err <==> r == Err::<(PageMap, HwMemMap), MemMapError>(
                MemMapError::NoContainingRegion,
            ) && !(exists|i: int| page_map_fit_at(mem_map, i)),
            r is Ok ==> ({
                let pm = r->Ok_0.0;
                let mm = r->Ok_0.1;
                &&& mm.wf()
                &&& pm.wf()
                &&& forall|pfn: int| mm.covered(pfn) <==> mem_map.covered(pfn)
                &&& forall|pfn: int| pm.covered(pfn) <==> mem_map.covered(pfn)
                &&& forall|pfn: int|
                    mem_map.covered(pfn) ==> 0 <= pm.index_of(pfn) < pm.pages@.len()
                &&& forall|pfn: int|
                    mem_map.covered(pfn) ==> pm.page_view_of(pfn) == expected_page_view(
                        mm.type_of_pfn(pfn),
                    )
                &&& exists|i: int| #[trigger] page_map_reserved_at(mem_map, mm, i)
            }),
    {
        let ghost rs = mem_map.regions@;
        let nr = mem_map.regions.len();
        // Determine how many pages the system holds and how much backing
        // memory their records need.
        let mut total: u64 = 0;
        let mut i: usize = 0;
        while i < nr
            invariant
                mem_map.wf(),
                rs == mem_map.regions@,
                nr == rs.len(),
                nr + 2 <= MAX_SPARSE_MAP_ENTRIES,
                i <= nr,
                total == spec_total_frames(rs.take(i as int)),
                total <= i * MAX_PFN,
                i <= total,
            decreases nr - i,
        {
            let reg = mem_map.regions[i];
            proof {
                assert(rs[i as int].wf());
                rs[i as int].lemma_pfn_range();
                lemma_fundamental_div_mod(u64::MAX as int, PAGE_SIZE_4K as int);
            }
            let np = reg.num_pages();
            proof {
                assert(PAGE_SIZE_4K * (MAX_PFN + 1) > u64::MAX);
                assert(np <= MAX_PFN);
                assert(np >= 1);
            }
            total = total + np;
            proof {
                assert(rs.take(i as int + 1).drop_last() =~= rs.take(i as int));
            }
            i = i + 1;
        }
        proof {
            assert(rs.take(nr as int) =~= rs);
        }
        let bytes = total * PAGE_INFO_BYTES;
        let page_map_size = ((bytes + (PAGE_SIZE_4K - 1)) / PAGE_SIZE_4K) * PAGE_SIZE_4K;
        proof {
            lemma_fundamental_div_mod((bytes + (PAGE_SIZE_4K - 1)) as int, PAGE_SIZE_4K as int);
            vstd::arithmetic::div_mod::lemma_mod_multiples_basic(
                (bytes + (PAGE_SIZE_4K - 1)) as int / (PAGE_SIZE_4K as int),
                PAGE_SIZE_4K as int,
            );
            assert(page_map_size % PAGE_SIZE_4K == 0);
            assert(page_map_size > 0);
            assert(page_map_size == spec_page_map_size(mem_map));
        }
        // Find a space for the page map: the first available region that
        // can hold all the records.
        let mut idx: Option<usize> = None;
        let mut j: usize = 0;
        while j < nr
            invariant
                mem_map.wf(),
                rs == mem_map.regions@,
                nr == rs.len(),
                j <= nr,
                page_map_size == spec_page_map_size(mem_map),
                page_map_size % PAGE_SIZE_4K == 0,
                page_map_size > 0,
                match idx {
                    Some(k) => k < nr && page_map_fit_at(mem_map, k as int) && forall|q: int|
                        0 <= q < k ==> !page_map_fit_at(mem_map, q),
                    None => forall|q: int| 0 <= q < j ==> !page_map_fit_at(mem_map, q),
                },
            decreases nr - j,
        {
            if idx.is_none() {
                let reg = mem_map.regions[j];
                if matches!(reg.mem_type, HwMemType::Available) && reg.size >= page_map_size {
                    idx = Some(j);
                }
            }
            j = j + 1;
        }
        let idx = match idx {
            Some(k) => k,
            None => {
                return Err(MemMapError::NoContainingRegion);
            },
        };
        let region = mem_map.regions[idx];
        // Reserve the memory consumed by the page map itself.
        let mut mm = mem_map;
        let reserved = mm.reserve_region(HwReservedMemType::PageMap, region.base, page_map_size);
        proof {
            assert(rs[idx as int].wf());
            assert(mem_map.spec_can_hold(idx as int, region.base, page_map_size));
            assert(mem_map.spec_reservable(region.base, page_map_size));
            assert(reserved is Ok);
        }
        let mut page_map = PageMap::new(Vec::new());
        page_map.populate_from(&mm);
        proof {
            assert forall|pfn: int|
                rs[idx as int].base <= PAGE_SIZE_4K * pfn < rs[idx as int].base + page_map_size
                    implies mem_map.type_of_pfn(pfn) == HwMemType::Available by {
                assert(rs[idx as int].contains_pfn(pfn));
                mem_map.lemma_covering_unique(pfn, idx as int);
            }
            assert(page_map_reserved_at(mem_map, mm, idx as int));
        }
        Ok((page_map, mm))
    }

    /// Populates an already-constructed, still-empty `PageMap` with the
    /// regions of the given memory map. Every frame of every region gets
    /// its [`expected_page_view`] record; frames outside all regions stay
    /// untracked. Adjacent regions share one sparse-map entry; a new entry
    /// starts at each gap.
    pub fn populate_from(&mut self, mem_map: &HwMemMap)
        requires
            old(self).wf(),
            old(self).pages@.len() == 0,
            old(self).entries().len() == 0,
            mem_map.wf(),
            1 <= mem_map.regions@.len() <= MAX_SPARSE_MAP_ENTRIES,
        ensures
            final(self).wf(),
            forall|pfn: int| final(self).covered(pfn) <==> mem_map.covered(pfn),
            forall|pfn: int|
                final(self).covered(pfn) ==> 0 <= final(self).index_of(pfn)
                    < final(self).pages@.len(),
            forall|pfn: int|
                mem_map.covered(pfn) ==> final(self).page_view_of(pfn) == expected_page_view(
                    mem_map.type_of_pfn(pfn),
                ),
    {
        let ghost rs = mem_map.regions@;
        let n = mem_map.regions.len();
        let first = mem_map.regions[0];
        proof {
            assert(rs[0].wf());
        }
        let mut cur_base: u64 = first.base_pfn();
        let mut cur_num: u64 = 0;
        let mut cur_index: u64 = 0;
        let mut r: usize = 0;
        while r < n
            invariant
                mem_map.wf(),
                rs == mem_map.regions@,
                1 <= n <= MAX_SPARSE_MAP_ENTRIES,
                n == rs.len(),
                r <= n,
                populate_inv(
                    *mem_map,
                    r as int,
                    self.entries(),
                    (cur_base, cur_num, cur_index),
                    self.pages@,
                ),
                r == 0 ==> self.entries().len() == 0 && cur_num == 0 && cur_base == rs[
                    0
                ].spec_base_pfn(),
                r >= 1 ==> self.entries().len() <= r - 1,
                r >= 1 ==> cur_base + cur_num == rs[r - 1].spec_base_pfn() + rs[
                    r - 1
                ].spec_num_pages(),
                PAGE_SIZE_4K * (cur_base + cur_num) <= u64::MAX,
                cur_index + cur_num == self.pages@.len(),
                forall|k: int| 0 <= k < self.pages@.len() ==> (#[trigger] self.pages@[k]).wf(),
            decreases n - r,
        {
            let reg = mem_map.regions[r];
            proof {
                assert(rs[r as int].wf());
            }
            let base_pfn = reg.base_pfn();
            let num = reg.num_pages();
            if cur_base + cur_num != base_pfn {
                let ghost es0 = self.entries();
                let ghost cur0 = (cur_base, cur_num, cur_index);
                proof {
                    if r >= 1 {
                        assert(rs[r - 1].base + rs[r - 1].size <= rs[r as int].base);
                        rs[r - 1].lemma_pfn_range();
                        rs[r as int].lemma_pfn_range();
                    }
                }
                let ok = sparse_vec_try_push(&mut self.sparse_map, (cur_base, cur_num, cur_index));
                proof {
                    assert(ok);
                }
                cur_index = cur_index + cur_num;
                cur_base = base_pfn;
                cur_num = 0;
                proof {
                    lemma_populate_close(
                        *mem_map,
                        r as int,
                        es0,
                        cur0,
                        self.pages@,
                        (cur_base, cur_num, cur_index),
                    );
                }
            }
            let ghost es1 = self.entries();
            let ghost cur1 = (cur_base, cur_num, cur_index);
            let ghost pages1 = self.pages@;
            let ghost base_len = self.pages@.len() as int;
            proof {
                rs[r as int].lemma_pfn_range();
            }
            let mut k: u64 = 0;
            while k < num
                invariant
                    k <= num,
                    rs == mem_map.regions@,
                    0 <= (r as int) < rs.len(),
                    reg == rs[r as int],
                    reg.wf(),
                    num == reg.spec_num_pages(),
                    self.entries() == es1,
                    0 <= base_len,
                    pages1.len() == base_len,
                    self.pages@.len() == base_len + k,
                    forall|t: int| 0 <= t < base_len ==> self.pages@[t] == pages1[t],
                    forall|t: int|
                        base_len <= t < base_len + k ==> (#[trigger] self.pages@[t])@
                            == expected_page_view(reg.mem_type) && self.pages@[t].wf(),
                decreases num - k,
            {
                let info = match reg.mem_type() {
                    HwMemType::Available => PageInfo::new(),
                    HwMemType::Reserved(HwReservedMemType::HostKernelImage) => PageInfo::new_hypervisor_owned(),
                    HwMemType::Reserved(HwReservedMemType::HostInitramfsImage) => PageInfo::new_hypervisor_owned(),
                    HwMemType::Reserved(_) => PageInfo::new_reserved(),
                };
                proof {
                    assert(info@ == expected_page_view(reg.mem_type));
                    assert(info.wf());
                }
                let ghost prev_pages = self.pages@;
                self.pages.push(info);
                k = k + 1;
                proof {
                    assert(self.pages@ == prev_pages.push(info));
                    assert(forall|t: int|
                        0 <= t < prev_pages.len() ==> self.pages@[t] == prev_pages[t]);
                    assert forall|t: int|
                        base_len <= t < base_len + k implies (#[trigger] self.pages@[t])@
                            == expected_page_view(reg.mem_type) && self.pages@[t].wf() by {
                        if t < base_len + (k - 1) {
                            assert(prev_pages[t]@ == expected_page_view(reg.mem_type));
                            assert(prev_pages[t].wf());
                            assert(self.pages@[t] == prev_pages[t]);
                        } else {
                            assert(self.pages@[t] == info);
                        }
                    }
                }
            }
            let ghost cur_mid = (cur_base, cur_num, cur_index);
            cur_num = cur_num + num;
            proof {
                lemma_populate_extend(
                    *mem_map,
                    r as int,
                    es1,
                    cur_mid,
                    pages1,
                    self.pages@,
                    (cur_base, cur_num, cur_index),
                );
                assert forall|t: int|
                    0 <= t < self.pages@.len() implies (#[trigger] self.pages@[t]).wf() by {
                    if t < base_len {
                        assert(self.pages@[t] == pages1[t]);
                        assert(pages1[t].wf());
                    }
                }
            }
            r = r + 1;
        }
        let ghost es_fin = self.entries();
        let ghost ves_fin = es_fin.push((cur_base, cur_num, cur_index));
        let ok = sparse_vec_try_push(&mut self.sparse_map, (cur_base, cur_num, cur_index));
        proof {
            assert(ok);
            assert(self.entries() == ves_fin);
            assert forall|pfn: int| self.covered(pfn) implies mem_map.covered(pfn) by {
                let q = choose|q: int| 0 <= q < n && (#[trigger] rs[q]).contains_pfn(pfn);
                assert(mem_map.regions@[q].contains_pfn(pfn));
            }
            assert forall|pfn: int| mem_map.covered(pfn) implies self.covered(pfn) by {
                let q = choose|q: int|
                    0 <= q < mem_map.regions@.len() && (#[trigger] mem_map.regions@[q]).contains_pfn(
                        pfn,
                    );
                assert(rs[q].contains_pfn(pfn));
                assert(entries_covered(ves_fin, pfn));
            }
        }
    }

    /// Returns the index in the page array for the given frame, or nothing
    /// when no tracked region covers it.
    #[verifier::rlimit(100)]
    pub fn index_for_pfn(&self, pfn: u64) -> (r: Option<usize>)
        requires
            self.wf(),
        ensures
            self.covered(pfn as int) ==> r == Some(self.index_of(pfn as int) as usize) && 0
                <= self.index_of(pfn as int) < self.pages@.len(),
            !self.covered(pfn as int) ==> r is None,
    {
        let ghost es = self.entries();
        let n = sparse_vec_len(&self.sparse_map);
        let total = self.pages.len();
        let mut i: usize = 0;
        let mut found: Option<usize> = None;
        let ghost mut wit: int = 0;
        while i < n
            invariant
                self.wf(),
                es == self.entries(),
                i <= n,
                n == es.len(),
                total == self.pages@.len(),
                match found {
                    None => forall|j: int| 0 <= j < i ==> !entry_covers(es[j], pfn as int),
                    Some(v) => {
                        &&& 0 <= wit < es.len()
                        &&& entry_covers(es[wit], pfn as int)
                        &&& v == es[wit].2 + pfn - es[wit].0
                        &&& es[wit].2 + es[wit].1 <= total
                    },
                },
            decreases n - i,
        {
            if found.is_none() {
                let e = sparse_vec_get(&self.sparse_map, i);
                proof {
                    assert(es[i as int].0 + es[i as int].1 <= u64::MAX);
                    lemma_entries_end(es, self.pages@.len() as int, i as int);
                }
                if e.0 <= pfn && pfn < e.0 + e.1 {
                    found = Some(((pfn - e.0) + e.2) as usize);
                    proof {
                        wit = i as int;
                    }
                }
            }
            i = i + 1;
        }
        proof {
            match found {
                Some(_) => {
                    lemma_entries_unique(es, self.pages@.len() as int, pfn as int, wit);
                },
                None => {},
            }
        }
        found
    }

    /// Returns the index in the page array for the given address, or
    /// nothing when no tracked region covers it.
    pub fn get_map_index(&self, addr: PageAddr) -> (r: Option<usize>)
        requires
            self.wf(),
            addr.wf(),
        ensures
            self.covered(addr.spec_pfn()) ==> r == Some(self.index_of(addr.spec_pfn()) as usize)
                && 0 <= self.index_of(addr.spec_pfn()) < self.pages@.len(),
            !self.covered(addr.spec_pfn()) ==> r is None,
    {
        self.index_for_pfn(addr.index())
    }

    /// Returns a reference to the record for the 4 KiB page at `addr`, or
    /// nothing for a huge-page address or an untracked frame.
    pub fn get(&self, addr: PageAddr) -> (r: Option<&PageInfo>)
        requires
            self.wf(),
            addr.wf(),
        ensures
            addr.size == PageSize::Size4k && self.covered(addr.spec_pfn()) ==> r is Some && *r->Some_0
                == self.pages@[self.index_of(addr.spec_pfn())],
            !(addr.size == PageSize::Size4k && self.covered(addr.spec_pfn())) ==> r is None,
    {
        if addr.size().is_huge() {
            return None;
        }
        let total = self.pages.len();
        match self.get_map_index(addr) {
            Some(index) => {
                proof {
                    assert(index as int == self.index_of(addr.spec_pfn()));
                }
                Some(&self.pages[index])
            },
            None => None,
        }
    }

    /// For a directory populated from a memory map, lookups are defined
    /// exactly inside the map's regions: every frame some region covers
    /// has an in-bounds record, and every frame outside all regions has
    /// none.
    pub proof fn lemma_lookup_defined(self, mem_map: HwMemMap, pfn: int)
        requires
            self.wf(),
            forall|p: int| self.covered(p) <==> mem_map.covered(p),
        ensures
            mem_map.covered(pfn) ==> self.covered(pfn) && 0 <= self.index_of(pfn)
                < self.pages@.len(),
            !mem_map.covered(pfn) ==> !self.covered(pfn),
    {
        if mem_map.covered(pfn) {
            crate::vm_pages::lemma_covered_index_bounds(self, pfn);
        }
    }

    /// The initial ownership states of a directory populated from a
    /// memory map, frame by frame: every frame of an available region is
    /// free; every frame of a host-kernel-image or host-initramfs-image
    /// reservation is owned by the hypervisor alone, with a chain of
    /// depth one; and every frame of any other reserved region is
    /// permanently reserved.
    pub proof fn lemma_initial_page_states(self, mem_map: HwMemMap, pfn: int)
        requires
            self.wf(),
            forall|p: int| self.covered(p) <==> mem_map.covered(p),
            forall|p: int|
                mem_map.covered(p) ==> #[trigger] self.page_view_of(p) == expected_page_view(
                    mem_map.type_of_pfn(p),
                ),
        ensures
            mem_map.covered(pfn) && mem_map.type_of_pfn(pfn) == HwMemType::Available
                ==> self.page_view_of(pfn) == PageInfoView::Free,
            mem_map.covered(pfn) && (mem_map.type_of_pfn(pfn) == HwMemType::Reserved(
                HwReservedMemType::HostKernelImage,
            ) || mem_map.type_of_pfn(pfn) == HwMemType::Reserved(
                HwReservedMemType::HostInitramfsImage,
            )) ==> self.page_view_of(pfn).owner() == Some(
                crate::ids::PageOwnerId { raw: HYPERVISOR_ID },
            ) && self.page_view_of(pfn).depth() == 1,
            mem_map.covered(pfn) && (mem_map.type_of_pfn(pfn) matches HwMemType::Reserved(t)
                && t != HwReservedMemType::HostKernelImage && t
                != HwReservedMemType::HostInitramfsImage) ==> self.page_view_of(pfn)
                == PageInfoView::Reserved,
    {
    }

    /// Returns a mutable reference to the record for the 4 KiB page at
    /// `addr`, or nothing for a huge-page address or an untracked frame.
    pub fn get_mut(&mut self, addr: PageAddr) -> (r: Option<&mut PageInfo>)
        requires
            old(self).wf(),
            addr.wf(),
        ensures
            addr.size == PageSize::Size4k && old(self).covered(addr.spec_pfn()) ==> r is Some && {
                &&& *r->Some_0 == old(self).pages@[old(self).index_of(addr.spec_pfn())]
                &&& final(self).pages@ == old(self).pages@.update(
                    old(self).index_of(addr.spec_pfn()),
                    *final(r->Some_0),
                )
                &&& final(self).sparse_map == old(self).sparse_map
            },
            !(addr.size == PageSize::Size4k && old(self).covered(addr.spec_pfn())) ==> r is None
                && *final(self) == *old(self),
    {
        if addr.size().is_huge() {
            return None;
        }
        let total = self.pages.len();
        match self.get_map_index(addr) {
            Some(index) => {
                proof {
                    assert(index as int == self.index_of(addr.spec_pfn()));
                }
                Some(&mut self.pages[index])
            },
            None => None,
        }
    }

    /// Returns the number of records from the one for `addr` to the end of
    /// the page array, or nothing for a huge-page address or an untracked
    /// frame. Used by bulk iterators.
    pub fn num_after(&self, addr: PageAddr) -> (r: Option<usize>)
        requires
            self.wf(),
            addr.wf(),
        ensures
            addr.size == PageSize::Size4k && self.covered(addr.spec_pfn()) ==> r == Some(
                (self.pages@.len() - self.index_of(addr.spec_pfn())) as usize,
            ),
            !(addr.size == PageSize::Size4k && self.covered(addr.spec_pfn())) ==> r is None,
    {
        if addr.size().is_huge() {
            return None;
        }
        match self.get_map_index(addr) {
            Some(index) => Some(self.pages.len() - index),
            None => None,
        }
    }
}

} // verus!
