//! A boot-time description of physical memory: an ordered sequence of
//! non-overlapping regions, each tagged available or reserved. The map is
//! built once by [`HwMemMapBuilder`], and sub-ranges of available regions
//! can afterwards be reserved (for the host kernel image, firmware, or the
//! page tracker's own backing memory).
//!
//! All spec-level reasoning is in terms of 4 KiB page frame numbers (PFNs):
//! a region covers frame `pfn` when the frame's address `4096 * pfn` lies
//! inside it.

use vstd::arithmetic::div_mod::lemma_fundamental_div_mod;
use vstd::prelude::*;

verus! {

/// The only page granularity at which ownership is tracked.
pub const PAGE_SIZE_4K: u64 = 4096;

/// Page sizes a guest mapping may use. Ownership is still tracked per
/// 4 KiB frame; the larger sizes only matter to the page-table mapper.
#[derive(Clone, Copy, Debug, PartialEq, Eq, Structural)]
pub enum PageSize {
    Size4k,
    Size2M,
    Size1G,
    Size512G,
}

impl PageSize {
    /// Whether this is a huge-page size (anything larger than 4 KiB).
    pub fn is_huge(&self) -> (r: bool)
        ensures
            r == (*self != PageSize::Size4k),
    {
        !matches!(self, PageSize::Size4k)
    }
}

/// A page-aligned physical address together with the page size it refers
/// to. The address is always aligned to 4 KiB; the page tracker only
/// resolves the 4 KiB-sized ones.
#[derive(Clone, Copy, Debug, PartialEq, Eq, Structural)]
pub struct PageAddr {
    pub addr: u64,
    pub size: PageSize,
}

impl PageAddr {
    /// The 4 KiB alignment every `PageAddr` carries.
    pub open spec fn wf(self) -> bool {
        self.addr % PAGE_SIZE_4K == 0
    }

    /// The page frame number of this address.
    pub open spec fn spec_pfn(self) -> int {
        self.addr as int / PAGE_SIZE_4K as int
    }

    /// Interprets `addr` as a 4 KiB page address; fails on unaligned input.
    pub fn new_4k(addr: u64) -> (r: Option<Self>)
        ensures
            addr % PAGE_SIZE_4K == 0 ==> r == Some(
                PageAddr { addr, size: PageSize::Size4k },
            ) && r->Some_0.wf(),
            addr % PAGE_SIZE_4K != 0 ==> r is None,
    {
        if addr % PAGE_SIZE_4K == 0 {
            Some(PageAddr { addr, size: PageSize::Size4k })
        } else {
            None
        }
    }

    /// The size of the page this address refers to.
    pub fn size(&self) -> (r: PageSize)
        ensures
            r == self.size,
    {
        self.size
    }

    /// The page frame number: the address divided by 4 KiB.
    pub fn index(&self) -> (r: u64)
        requires
            self.wf(),
        ensures
            r == self.spec_pfn(),
            PAGE_SIZE_4K * r == self.addr,
    {
        proof {
            lemma_fundamental_div_mod(self.addr as int, PAGE_SIZE_4K as int);
        }
        self.addr / PAGE_SIZE_4K
    }
}

/// The sub-kinds of reserved memory the tracker distinguishes.
#[derive(Clone, Copy, Debug, PartialEq, Eq, Structural)]
pub enum HwReservedMemType {
    /// Firmware-held memory, never usable.
    FirmwareReserved,
    /// The host kernel image, initially owned by the hypervisor.
    HostKernelImage,
    /// The host initramfs image, initially owned by the hypervisor.
    HostInitramfsImage,
    /// The backing memory of the page tracker itself.
    PageMap,
}

/// The kind of a memory region.
#[derive(Clone, Copy, Debug, PartialEq, Eq, Structural)]
pub enum HwMemType {
    /// Usable RAM, initially unowned.
    Available,
    /// Permanently set aside for the given purpose.
    Reserved(HwReservedMemType),
}

/// Errors of memory-map construction and reservation.
#[derive(Clone, Copy, Debug, PartialEq, Eq, Structural)]
pub enum MemMapError {
    /// A base address or size is not a multiple of 4 KiB.
    Unaligned,
    /// A region of zero bytes.
    EmptyRegion,
    /// The end of the range does not fit in a 64-bit address.
    AddressOverflow,
    /// The region does not lie entirely above the regions already added.
    OutOfOrder,
    /// No single available region contains the range to reserve.
    NoContainingRegion,
}

/// A contiguous range of physical memory of one kind.
#[derive(Clone, Copy, Debug, PartialEq, Eq, Structural)]
pub struct HwMemRegion {
    pub base: u64,
    pub size: u64,
    pub mem_type: HwMemType,
}

impl HwMemRegion {
    /// A region is 4 KiB-aligned, non-empty, and does not wrap the address
    /// space.
    pub open spec fn wf(self) -> bool {
        &&& self.base % PAGE_SIZE_4K == 0
        &&& self.size % PAGE_SIZE_4K == 0
        &&& self.size > 0
        &&& self.base + self.size <= u64::MAX
    }

    /// Whether frame `pfn` lies inside this region.
    pub open spec fn contains_pfn(self, pfn: int) -> bool {
        self.base <= PAGE_SIZE_4K * pfn && PAGE_SIZE_4K * pfn < self.base + self.size
    }

    /// The number of 4 KiB frames the region holds.
    pub open spec fn spec_num_pages(self) -> int {
        self.size as int / PAGE_SIZE_4K as int
    }

    /// The first frame of the region.
    pub open spec fn spec_base_pfn(self) -> int {
        self.base as int / PAGE_SIZE_4K as int
    }

    /// The base address of the region.
    pub fn base(&self) -> (r: u64)
        ensures
            r == self.base,
    {
        self.base
    }

    /// The size of the region in bytes.
    pub fn size(&self) -> (r: u64)
        ensures
            r == self.size,
    {
        self.size
    }

    /// The kind of the region.
    pub fn mem_type(&self) -> (r: HwMemType)
        ensures
            r == self.mem_type,
    {
        self.mem_type
    }

    /// The first frame of the region.
    pub fn base_pfn(&self) -> (r: u64)
        requires
            self.wf(),
        ensures
            r == self.spec_base_pfn(),
            PAGE_SIZE_4K * r == self.base,
    {
        proof {
            lemma_fundamental_div_mod(self.base as int, PAGE_SIZE_4K as int);
        }
        self.base / PAGE_SIZE_4K
    }

    /// The number of 4 KiB frames the region holds.
    pub fn num_pages(&self) -> (r: u64)
        requires
            self.wf(),
        ensures
            r == self.spec_num_pages(),
            PAGE_SIZE_4K * r == self.size,
    {
        proof {
            lemma_fundamental_div_mod(self.size as int, PAGE_SIZE_4K as int);
        }
        self.size / PAGE_SIZE_4K
    }

    /// The basic frame arithmetic of a well-formed region: its frames are
    /// exactly `spec_base_pfn() ..  spec_base_pfn() + spec_num_pages()`.
    pub proof fn lemma_pfn_range(self)
        requires
            self.wf(),
        ensures
            PAGE_SIZE_4K * self.spec_base_pfn() == self.base,
            PAGE_SIZE_4K * self.spec_num_pages() == self.size,
            forall|pfn: int|
                self.contains_pfn(pfn) <==> self.spec_base_pfn() <= pfn < self.spec_base_pfn()
                    + self.spec_num_pages(),
    {
        lemma_fundamental_div_mod(self.base as int, PAGE_SIZE_4K as int);
        lemma_fundamental_div_mod(self.size as int, PAGE_SIZE_4K as int);
    }
}

/// The boot-time map of physical memory: regions in ascending address
/// order, pairwise disjoint.
#[derive(Debug)]
pub struct HwMemMap {
    pub regions: Vec<HwMemRegion>,
}

impl HwMemMap {
    /// Every region is well formed, and they are sorted and disjoint.
    pub open spec fn wf(self) -> bool {
        &&& forall|i: int| 0 <= i < self.regions@.len() ==> (#[trigger] self.regions@[i]).wf()
        &&& forall|i: int, j: int|
            0 <= i < j < self.regions@.len() ==> self.regions@[i].base + self.regions@[i].size
                <= self.regions@[j].base
    }

    /// Whether some region of the map covers frame `pfn`.
    pub open spec fn covered(self, pfn: int) -> bool {
        exists|i: int| 0 <= i < self.regions@.len() && (#[trigger] self.regions@[i]).contains_pfn(pfn)
    }

    /// The index of the region covering frame `pfn`.
    pub open spec fn region_index_of(self, pfn: int) -> int {
        choose|i: int| 0 <= i < self.regions@.len() && (#[trigger] self.regions@[i]).contains_pfn(pfn)
    }

    /// The kind of memory at frame `pfn`.
    pub open spec fn type_of_pfn(self, pfn: int) -> HwMemType
        recommends
            self.covered(pfn),
    {
        self.regions@[self.region_index_of(pfn)].mem_type
    }

    /// In a well-formed map at most one region covers a frame, so any
    /// covering region decides the frame's kind.
    pub proof fn lemma_covering_unique(self, pfn: int, i: int)
        requires
            self.wf(),
            0 <= i < self.regions@.len(),
            self.regions@[i].contains_pfn(pfn),
        ensures
            self.covered(pfn),
            self.region_index_of(pfn) == i,
            self.type_of_pfn(pfn) == self.regions@[i].mem_type,
    {
        assert(self.covered(pfn));
        let j = self.region_index_of(pfn);
        if i < j {
            assert(self.regions@[i].base + self.regions@[i].size <= self.regions@[j].base);
            assert(false);
        } else if j < i {
            assert(self.regions@[j].base + self.regions@[j].size <= self.regions@[i].base);
            assert(false);
        }
    }

    /// The regions of the map, in ascending address order.
    pub fn regions(&self) -> (r: &Vec<HwMemRegion>)
        ensures
            r == &self.regions,
    {
        &self.regions
    }

    /// Whether region `i` is an available region containing the whole range
    /// `[base, base + size)`.
    pub open spec fn spec_can_hold(self, i: int, base: u64, size: u64) -> bool {
        &&& self.regions@[i].mem_type == HwMemType::Available
        &&& self.regions@[i].base <= base
        &&& base + size <= self.regions@[i].base + self.regions@[i].size
    }

    /// Whether some single available region contains the whole range.
    pub open spec fn spec_reservable(self, base: u64, size: u64) -> bool {
        exists|i: int|
            0 <= i < self.regions@.len() && #[trigger] self.spec_can_hold(i, base, size)
    }

    /// Reserves the sub-range `[base, base + size)` for `mem_type`. The
    /// range must be 4 KiB-aligned, non-empty, must not wrap, and must lie
    /// entirely within a single available region; in particular a range
    /// that overlaps an already-reserved range is refused. On failure the
    /// map is unchanged.
    #[verifier::rlimit(100)]
    pub fn reserve_region(&mut self, mem_type: HwReservedMemType, base: u64, size: u64) -> (r:
        Result<(), MemMapError>)
        requires
            old(self).wf(),
        ensures
            final(self).wf(),
            r is Err ==> *final(self) == *old(self),
            base % PAGE_SIZE_4K != 0 || size % PAGE_SIZE_4K != 0 ==> r == Err::<(), MemMapError>(
                MemMapError::Unaligned,
            ),
            base % PAGE_SIZE_4K == 0 && size % PAGE_SIZE_4K == 0 && size == 0 ==> r == Err::<
                (),
                MemMapError,
            >(MemMapError::EmptyRegion),
            base % PAGE_SIZE_4K == 0 && size % PAGE_SIZE_4K == 0 && size > 0 && base + size
                > u64::MAX ==> r == Err::<(), MemMapError>(MemMapError::AddressOverflow),
            base % PAGE_SIZE_4K == 0 && size % PAGE_SIZE_4K == 0 && size > 0 && base + size
                <= u64::MAX && !old(self).spec_reservable(base, size) ==> r == Err::<
                (),
                MemMapError,
            >(MemMapError::NoContainingRegion),
            base % PAGE_SIZE_4K == 0 && size % PAGE_SIZE_4K == 0 && size > 0 && base + size
                <= u64::MAX && old(self).spec_reservable(base, size) ==> r is Ok && {
                &&& old(self).regions@.len() <= final(self).regions@.len() <= old(
                    self,
                ).regions@.len() + 2
                &&& forall|pfn: int| final(self).covered(pfn) <==> old(self).covered(pfn)
                &&& forall|pfn: int|
                    base <= PAGE_SIZE_4K * pfn < base + size ==> final(self).type_of_pfn(pfn)
                        == HwMemType::Reserved(mem_type)
                &&& forall|pfn: int|
                    old(self).covered(pfn) && !(base <= PAGE_SIZE_4K * pfn < base + size)
                        ==> final(self).type_of_pfn(pfn) == old(self).type_of_pfn(pfn)
            },
    {
        if base % PAGE_SIZE_4K != 0 || size % PAGE_SIZE_4K != 0 {
            return Err(MemMapError::Unaligned);
        }
        if size == 0 {
            return Err(MemMapError::EmptyRegion);
        }
        if base.checked_add(size).is_none() {
            return Err(MemMapError::AddressOverflow);
        }
        let n = self.regions.len();
        let mut idx: Option<usize> = None;
        let mut i: usize = 0;
        while i < n
            invariant
                i <= n,
                n == self.regions@.len(),
                *self == *old(self),
                self.wf(),
                base % PAGE_SIZE_4K == 0,
                size % PAGE_SIZE_4K == 0,
                size > 0,
                base + size <= u64::MAX,
                match idx {
                    Some(k) => k < n && self.spec_can_hold(k as int, base, size),
                    None => forall|j: int| 0 <= j < i ==> !self.spec_can_hold(j, base, size),
                },
            decreases n - i,
        {
            if idx.is_none() {
                let reg = self.regions[i];
                if matches!(reg.mem_type, HwMemType::Available) && reg.base <= base && base + size
                    <= reg.base + reg.size {
                    idx = Some(i);
                }
            }
            i = i + 1;
        }
        let idx = match idx {
            Some(k) => k,
            None => {
                return Err(MemMapError::NoContainingRegion);
            },
        };
        self.carve_reserved(idx, mem_type, base, size);
        Ok(())
    }

    /// Replaces the available region at `idx`, which contains the whole
    /// range `[base, base + size)`, by up to three pieces: an available
    /// prefix, the reserved range, and an available suffix.
    #[verifier::rlimit(100)]
    #[verifier::spinoff_prover]
    fn carve_reserved(&mut self, idx: usize, mem_type: HwReservedMemType, base: u64, size: u64)
        requires
            old(self).wf(),
            (idx as int) < old(self).regions@.len(),
            old(self).spec_can_hold(idx as int, base, size),
            base % PAGE_SIZE_4K == 0,
            size % PAGE_SIZE_4K == 0,
            size > 0,
            base + size <= u64::MAX,
        ensures
            final(self).wf(),
            old(self).regions@.len() <= final(self).regions@.len() <= old(self).regions@.len() + 2,
            forall|pfn: int| final(self).covered(pfn) <==> old(self).covered(pfn),
            forall|pfn: int|
                base <= PAGE_SIZE_4K * pfn < base + size ==> final(self).type_of_pfn(pfn)
                    == HwMemType::Reserved(mem_type),
            forall|pfn: int|
                old(self).covered(pfn) && !(base <= PAGE_SIZE_4K * pfn < base + size)
                    ==> final(self).type_of_pfn(pfn) == old(self).type_of_pfn(pfn),
    {
        let ghost rs0 = self.regions@;
        let total_regions = self.regions.len();
        proof {
            assert(idx < total_regions);
        }
        let reg = self.regions[idx];
        proof {
            assert(rs0[idx as int].wf());
        }
        let has_prefix = reg.base < base;
        let has_suffix = base + size < reg.base + reg.size;
        self.regions.remove(idx);
        if has_prefix {
            self.regions.insert(
                idx,
                HwMemRegion { base: reg.base, size: base - reg.base, mem_type: HwMemType::Available },
            );
        }
        let rpos = if has_prefix {
            idx + 1
        } else {
            idx
        };
        self.regions.insert(
            rpos,
            HwMemRegion { base, size, mem_type: HwMemType::Reserved(mem_type) },
        );
        if has_suffix {
            let cur_len = self.regions.len();
            proof {
                assert(rpos < cur_len);
            }
            self.regions.insert(
                rpos + 1,
                HwMemRegion {
                    base: base + size,
                    size: (reg.base + reg.size) - (base + size),
                    mem_type: HwMemType::Available,
                },
            );
        }
        proof {
            let rs = self.regions@;
            let delta: int = rs.len() - rs0.len() + 1;
            let d = delta;
            assert(1 <= d <= 3);
            // Elementwise layout of the new region sequence.
            assert(forall|k: int| 0 <= k < idx ==> rs[k] == rs0[k]);
            assert(forall|k: int| idx + d <= k < rs.len() ==> rs[k] == rs0[k - d + 1]);
            assert(forall|k: int|
                idx <= k < idx + d ==> (#[trigger] rs[k]).base >= rs0[idx as int].base && rs[k].base
                    + rs[k].size <= rs0[idx as int].base + rs0[idx as int].size && rs[k].wf());
            // The pieces partition the old region exactly.
            assert forall|pfn: int| rs0[idx as int].contains_pfn(pfn) implies exists|k: int|
                idx <= k < idx + d && (#[trigger] rs[k]).contains_pfn(pfn) by {
                let a = PAGE_SIZE_4K * pfn;
                if a < base {
                    assert(rs[idx as int].contains_pfn(pfn));
                } else if a < base + size {
                    assert(rs[rpos as int].contains_pfn(pfn));
                } else {
                    assert(rs[rpos + 1].contains_pfn(pfn));
                }
            }
            self.lemma_reserve_post(*old(self), idx as int, d, base, size, mem_type);
        }
    }

    /// After region `idx` of `prev` has been replaced by `d` pieces that
    /// partition it, coverage is unchanged, the reserved range has the new
    /// kind, and every other frame keeps its kind.
    proof fn lemma_reserve_post(
        self,
        prev: Self,
        idx: int,
        d: int,
        base: u64,
        size: u64,
        mem_type: HwReservedMemType,
    )
        requires
            prev.wf(),
            0 <= idx < prev.regions@.len(),
            prev.spec_can_hold(idx, base, size),
            prev.regions@[idx].mem_type == HwMemType::Available,
            1 <= d <= 3,
            self.regions@.len() == prev.regions@.len() + d - 1,
            forall|k: int| 0 <= k < idx ==> self.regions@[k] == prev.regions@[k],
            forall|k: int|
                idx + d <= k < self.regions@.len() ==> self.regions@[k] == prev.regions@[k - d + 1],
            forall|k: int|
                idx <= k < idx + d ==> (#[trigger] self.regions@[k]).base >= prev.regions@[idx].base
                    && self.regions@[k].base + self.regions@[k].size <= prev.regions@[idx].base
                    + prev.regions@[idx].size && self.regions@[k].wf(),
            forall|k: int, k2: int|
                idx <= k < k2 < idx + d ==> self.regions@[k].base + self.regions@[k].size
                    <= self.regions@[k2].base,
            forall|pfn: int|
                prev.regions@[idx].contains_pfn(pfn) ==> exists|k: int|
                    idx <= k < idx + d && (#[trigger] self.regions@[k]).contains_pfn(pfn),
            forall|k: int|
                idx <= k < idx + d ==> forall|pfn: int|
                    (#[trigger] self.regions@[k]).contains_pfn(pfn) ==> (base <= PAGE_SIZE_4K * pfn
                        < base + size <==> self.regions@[k].mem_type == HwMemType::Reserved(
                        mem_type,
                    )),
            forall|k: int|
                idx <= k < idx + d ==> (#[trigger] self.regions@[k]).mem_type == HwMemType::Reserved(
                    mem_type,
                ) || self.regions@[k].mem_type == HwMemType::Available,
        ensures
            self.wf(),
            forall|pfn: int| self.covered(pfn) <==> prev.covered(pfn),
            forall|pfn: int|
                base <= PAGE_SIZE_4K * pfn < base + size ==> self.type_of_pfn(pfn)
                    == HwMemType::Reserved(mem_type),
            forall|pfn: int|
                prev.covered(pfn) && !(base <= PAGE_SIZE_4K * pfn < base + size)
                    ==> self.type_of_pfn(pfn) == prev.type_of_pfn(pfn),
    {
        let rs = self.regions@;
        let rs0 = prev.regions@;
        assert forall|a: int, b: int| 0 <= a < b < rs.len() implies rs[a].base + rs[a].size
            <= rs[b].base by {
            let a0 = if a < idx {
                a
            } else if a < idx + d {
                idx
            } else {
                a - d + 1
            };
            let b0 = if b < idx {
                b
            } else if b < idx + d {
                idx
            } else {
                b - d + 1
            };
            if a0 < b0 {
                assert(rs0[a0].base + rs0[a0].size <= rs0[b0].base);
            }
        }
        assert forall|pfn: int| self.covered(pfn) implies prev.covered(pfn) by {
            let k = choose|k: int| 0 <= k < rs.len() && (#[trigger] rs[k]).contains_pfn(pfn);
            let k0 = if k < idx {
                k
            } else if k < idx + d {
                idx
            } else {
                k - d + 1
            };
            assert(rs0[k0].contains_pfn(pfn));
        }
        assert forall|pfn: int| prev.covered(pfn) implies self.covered(pfn) by {
            let k0 = choose|k: int| 0 <= k < rs0.len() && (#[trigger] rs0[k]).contains_pfn(pfn);
            if k0 < idx {
                assert(rs[k0].contains_pfn(pfn));
            } else if k0 == idx {
                let k = choose|k: int| idx <= k < idx + d && (#[trigger] rs[k]).contains_pfn(pfn);
                assert(rs[k].contains_pfn(pfn));
            } else {
                assert(rs[k0 + d - 1].contains_pfn(pfn));
            }
        }
        assert forall|pfn: int| base <= PAGE_SIZE_4K * pfn < base + size implies self.type_of_pfn(
            pfn,
        ) == HwMemType::Reserved(mem_type) by {
            assert(rs0[idx].contains_pfn(pfn));
            let k = choose|k: int| idx <= k < idx + d && (#[trigger] rs[k]).contains_pfn(pfn);
            self.lemma_covering_unique(pfn, k);
        }
        assert forall|pfn: int|
            prev.covered(pfn) && !(base <= PAGE_SIZE_4K * pfn < base + size) implies self.type_of_pfn(
            pfn,
        ) == prev.type_of_pfn(pfn) by {
            let k0 = choose|k: int| 0 <= k < rs0.len() && (#[trigger] rs0[k]).contains_pfn(pfn);
            prev.lemma_covering_unique(pfn, k0);
            if k0 < idx {
                self.lemma_covering_unique(pfn, k0);
            } else if k0 == idx {
                let k = choose|k: int| idx <= k < idx + d && (#[trigger] rs[k]).contains_pfn(pfn);
                self.lemma_covering_unique(pfn, k);
            } else {
                self.lemma_covering_unique(pfn, k0 + d - 1);
            }
        }
    }
}

/// Builds a [`HwMemMap`] region by region, in ascending address order.
#[derive(Debug)]
pub struct HwMemMapBuilder {
    pub map: HwMemMap,
}

impl HwMemMapBuilder {
    /// A builder for a map with 4 KiB tracking granularity.
    pub fn new(page_size: u64) -> (r: Self)
        requires
            page_size == PAGE_SIZE_4K,
        ensures
            r.map.regions@.len() == 0,
            r.map.wf(),
    {
        HwMemMapBuilder { map: HwMemMap { regions: Vec::new() } }
    }

    /// Adds an available RAM region. Regions must be added in ascending
    /// address order; the new region must be 4 KiB-aligned, non-empty, must
    /// not wrap the address space and must lie entirely above every region
    /// added before.
    pub fn add_memory_region(self, base: u64, size: u64) -> (r: Result<Self, MemMapError>)
        requires
            self.map.wf(),
        ensures
            base % PAGE_SIZE_4K != 0 || size % PAGE_SIZE_4K != 0 ==> r == Err::<
                Self,
                MemMapError,
            >(MemMapError::Unaligned),
            base % PAGE_SIZE_4K == 0 && size % PAGE_SIZE_4K == 0 && size == 0 ==> r == Err::<
                Self,
                MemMapError,
            >(MemMapError::EmptyRegion),
            base % PAGE_SIZE_4K == 0 && size % PAGE_SIZE_4K == 0 && size > 0 && base + size
                > u64::MAX ==> r == Err::<Self, MemMapError>(MemMapError::AddressOverflow),
            base % PAGE_SIZE_4K == 0 && size % PAGE_SIZE_4K == 0 && size > 0 && base + size
                <= u64::MAX && !self.spec_fits_above(base) ==> r == Err::<Self, MemMapError>(
                MemMapError::OutOfOrder,
            ),
            base % PAGE_SIZE_4K == 0 && size % PAGE_SIZE_4K == 0 && size > 0 && base + size
                <= u64::MAX && self.spec_fits_above(base) ==> r is Ok && {
                let new = r->Ok_0;
                &&& new.map.wf()
                &&& new.map.regions@ == self.map.regions@.push(
                    HwMemRegion { base, size, mem_type: HwMemType::Available },
                )
                &&& forall|pfn: int|
                    new.map.covered(pfn) <==> self.map.covered(pfn) || (base <= PAGE_SIZE_4K * pfn
                        < base + size)
                &&& forall|pfn: int|
                    base <= PAGE_SIZE_4K * pfn < base + size ==> new.map.type_of_pfn(pfn)
                        == HwMemType::Available
                &&& forall|pfn: int|
                    self.map.covered(pfn) ==> new.map.type_of_pfn(pfn) == self.map.type_of_pfn(pfn)
            },
    {
        if base % PAGE_SIZE_4K != 0 || size % PAGE_SIZE_4K != 0 {
            return Err(MemMapError::Unaligned);
        }
        if size == 0 {
            return Err(MemMapError::EmptyRegion);
        }
        if base.checked_add(size).is_none() {
            return Err(MemMapError::AddressOverflow);
        }
        let n = self.map.regions.len();
        if n > 0 {
            let last = self.map.regions[n - 1];
            if !(last.base + last.size <= base) {
                return Err(MemMapError::OutOfOrder);
            }
        }
        let mut map = self.map;
        let region = HwMemRegion { base, size, mem_type: HwMemType::Available };
        map.regions.push(region);
        proof {
            let rs = map.regions@;
            let old_rs = self.map.regions@;
            assert(forall|i: int| 0 <= i < old_rs.len() ==> rs[i] == old_rs[i]);
            assert forall|pfn: int|
                map.covered(pfn) <==> self.map.covered(pfn) || (base <= PAGE_SIZE_4K * pfn < base
                    + size) by {
                if map.covered(pfn) {
                    let i = choose|i: int| 0 <= i < rs.len() && (#[trigger] rs[i]).contains_pfn(pfn);
                    if i < rs.len() - 1 {
                        assert(self.map.regions@[i].contains_pfn(pfn));
                        assert(self.map.covered(pfn));
                    }
                }
                if self.map.covered(pfn) {
                    let i = choose|i: int|
                        0 <= i < old_rs.len() && (#[trigger] old_rs[i]).contains_pfn(pfn);
                    assert(rs[i].contains_pfn(pfn));
                    assert(map.covered(pfn));
                }
                if base <= PAGE_SIZE_4K * pfn < base + size {
                    assert(rs[rs.len() - 1].contains_pfn(pfn));
                    assert(map.covered(pfn));
                }
            }
            assert forall|pfn: int| base <= PAGE_SIZE_4K * pfn < base + size implies map.type_of_pfn(
                pfn,
            ) == HwMemType::Available by {
                assert(rs[rs.len() - 1].contains_pfn(pfn));
                map.lemma_covering_unique(pfn, rs.len() - 1);
            }
            assert forall|pfn: int| self.map.covered(pfn) implies map.type_of_pfn(pfn)
                == self.map.type_of_pfn(pfn) by {
                let i = choose|i: int|
                    0 <= i < old_rs.len() && (#[trigger] old_rs[i]).contains_pfn(pfn);
                self.map.lemma_covering_unique(pfn, i);
                assert(rs[i].contains_pfn(pfn));
                map.lemma_covering_unique(pfn, i);
            }
        }
        Ok(HwMemMapBuilder { map })
    }

    /// Whether a region starting at `base` lies above everything added so
    /// far.
    pub open spec fn spec_fits_above(self, base: u64) -> bool {
        self.map.regions@.len() == 0 || self.map.regions@.last().base
            + self.map.regions@.last().size <= base
    }

    /// Finishes construction.
    pub fn build(self) -> (r: HwMemMap)
        ensures
            r == self.map,
    {
        self.map
    }
}

} // verus!
