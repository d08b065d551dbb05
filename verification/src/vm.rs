//! The per-VM state and the TEE control plane: a VM's saved CPU state, the
//! registry of its guests, and the dispatcher that decodes SBI calls from a
//! trapped guest, drives guest lifecycle transitions (create, add pages,
//! finalize, run, remove pages, destroy), and encodes the results back into
//! the caller's registers. Actually entering a guest hart, printing a
//! console byte, powering off, and writing a measurement into physical
//! memory are actions the embedder performs; the dispatcher returns them as
//! values.

use vstd::prelude::*;

use crate::ids::PageOwnerId;
use crate::mem_map::{PageAddr, PAGE_SIZE_4K};
use crate::page_info::{popped_while_to, PageInfoView};
use crate::page_map::PageMap;
use crate::regs::{GeneralPurposeRegisters, GprIndex, Trap};
use crate::sbi::{Error as SbiError, ResetFunction, SbiMessage, SbiReturn, TeeFunction};
use crate::vm_pages::{GuestRootBuilder, VmPages};

verus! {

/// Boot value of the guest's `sie` mirror: supervisor software, timer and
/// external interrupts enabled (bits 1, 5 and 9).
pub const SIE_BOOT: u64 = 0x222;

/// Boot value of the `hedeleg` mirror: instruction misaligned, breakpoint,
/// user environment call and the three page faults delegated (bits 0, 3,
/// 8, 12, 13 and 15).
pub const HEDELEG_BOOT: u64 = 0xB109;

/// Boot value of the `hideleg` mirror: the three virtual-supervisor
/// interrupts delegated (bits 2, 6 and 10).
pub const HIDELEG_BOOT: u64 = 0x444;

/// Boot value of the `hstatus` mirror: `spv` set and `spvp` supervisor
/// (bits 7 and 8).
pub const HSTATUS_BOOT: u64 = 0x180;

/// Boot value of the `sstatus` mirror: `spie` set and `spp` supervisor
/// (bits 5 and 8).
pub const SSTATUS_BOOT: u64 = 0x120;

/// Boot value of the `hcounteren` mirror: all counters enabled.
pub const HCOUNTEREN_BOOT: u64 = 0xFFFF_FFFF_FFFF_FFFF;

/// The Sv48x4 mode field of `hgatp` (bits 63:60 holding 9).
pub const HGATP_MODE_SV48X4: u64 = 0x9000_0000_0000_0000;

/// The VMID field of `hgatp` for VMID 1 (bit 44).
pub const HGATP_VMID_1: u64 = 0x1000_0000_0000;

/// Width of the PPN field of `hgatp`: 44 bits.
pub const HGATP_PPN_MASK_PLUS_1: u64 = 0x1000_0000_0000;

/// Guest-registry slots per dedicated tracking page: a page of 8-byte
/// entry references.
pub const GUESTS_PER_TRACKING_PAGE: u64 = 512;

/// The control and status registers saved and restored around a guest
/// switch.
#[derive(Clone, Copy, Debug, PartialEq, Eq, Structural)]
pub struct VmCsrs {
    pub sepc: u64,
    pub sie: u64,
    pub scause: u64,
    pub stvec: u64,
    pub hgatp: u64,
    pub hedeleg: u64,
    pub hideleg: u64,
    pub hstatus: u64,
    pub hcounteren: u64,
    pub sstatus: u64,
    pub stval: u64,
    pub htval: u64,
}

impl Default for VmCsrs {
    /// All mirrors zero.
    fn default() -> (r: Self)
        ensures
            r == (VmCsrs {
                sepc: 0,
                sie: 0,
                scause: 0,
                stvec: 0,
                hgatp: 0,
                hedeleg: 0,
                hideleg: 0,
                hstatus: 0,
                hcounteren: 0,
                sstatus: 0,
                stval: 0,
                htval: 0,
            }),
    {
        VmCsrs {
            sepc: 0,
            sie: 0,
            scause: 0,
            stvec: 0,
            hgatp: 0,
            hedeleg: 0,
            hideleg: 0,
            hstatus: 0,
            hcounteren: 0,
            sstatus: 0,
            stval: 0,
            htval: 0,
        }
    }
}

/// A VM's saved CPU state: any value of the guest registers is safe for
/// the host; the guest might malfunction but it cannot affect host memory.
#[derive(Clone, Copy, Debug, PartialEq, Eq)]
pub struct VmCpuState {
    pub sp: u64,
    pub csrs: VmCsrs,
    pub gprs: GeneralPurposeRegisters,
}

/// A run of physically contiguous 4 KiB pages, donated for bookkeeping.
#[derive(Clone, Copy, Debug, PartialEq, Eq, Structural)]
pub struct SequentialPages {
    pub base: u64,
    pub num_pages: u64,
}

/// The registry capacity that `num_pages` dedicated tracking pages allow.
pub open spec fn tracking_capacity(num_pages: u64) -> u64 {
    if num_pages * GUESTS_PER_TRACKING_PAGE > u64::MAX {
        u64::MAX
    } else {
        (num_pages * GUESTS_PER_TRACKING_PAGE) as u64
    }
}

/// The lifecycle state of one guest: still being built, or runnable. The
/// transient placeholder exists only for the instant of the
/// initializing-to-running swap and is never left in a well-formed
/// registry.
pub enum GuestState {
    Init(GuestRootBuilder),
    Running(Vm),
    Temp,
}

impl GuestState {
    /// A well-formed registry entry is never transient; a running nested
    /// guest keeps no registry of its own (the bounded chain of custody
    /// leaves it no pages to delegate further).
    pub open spec fn wf(self) -> bool {
        match self {
            GuestState::Init(b) => b.wf(),
            GuestState::Running(vm) => vm.vm_pages.wf() && vm.guests is None,
            GuestState::Temp => false,
        }
    }

    /// The identifier of the guest this entry describes.
    pub open spec fn spec_owner_raw(self) -> u64 {
        match self {
            GuestState::Init(b) => b.vm_pages.page_owner_id.raw,
            GuestState::Running(vm) => vm.vm_pages.page_owner_id.raw,
            GuestState::Temp => arbitrary(),
        }
    }

    /// The identifier of the guest this entry describes.
    pub fn page_owner_id(&self) -> (r: PageOwnerId)
        requires
            self.wf(),
        ensures
            r.raw == self.spec_owner_raw(),
    {
        match self {
            GuestState::Init(b) => b.page_owner_id(),
            GuestState::Running(vm) => vm.vm_pages.page_owner_id(),
            // A well-formed registry never holds the transient state.
            GuestState::Temp => PageOwnerId::hypervisor(),
        }
    }

    /// The builder, while the guest is still being built.
    pub fn init_mut(&mut self) -> (r: Option<&mut GuestRootBuilder>)
        ensures
            (*old(self)) is Init ==> r is Some && *r->Some_0 == (*old(self))->Init_0 && *final(self)
                == GuestState::Init(*final(r->Some_0)),
            !((*old(self)) is Init) ==> r is None && *final(self) == *old(self),
    {
        match self {
            GuestState::Init(b) => Some(b),
            _ => None,
        }
    }

    /// The VM, once the guest is running.
    pub fn vm_mut(&mut self) -> (r: Option<&mut Vm>)
        ensures
            (*old(self)) is Running ==> r is Some && *r->Some_0 == (*old(self))->Running_0
                && *final(self) == GuestState::Running(*final(r->Some_0)),
            !((*old(self)) is Running) ==> r is None && *final(self) == *old(self),
    {
        match self {
            GuestState::Running(vm) => Some(vm),
            _ => None,
        }
    }
}

/// Whether some entry of a registry carries the raw identifier `raw`.
pub open spec fn registry_has(gs: Seq<GuestState>, raw: u64) -> bool {
    exists|i: int| 0 <= i < gs.len() && (#[trigger] gs[i]).spec_owner_raw() == raw
}

/// Whether `e` is one of the entries of `orig`, exactly as it was.
pub open spec fn from_registry(orig: Seq<GuestState>, e: GuestState) -> bool {
    exists|j: int| 0 <= j < orig.len() && (#[trigger] orig[j]) == e
}

/// The first position in a registry holding the guest with raw identifier
/// `raw`, if any.
pub open spec fn find_guest_at(gs: Seq<GuestState>, raw: u64, i: int) -> bool {
    &&& 0 <= i < gs.len()
    &&& gs[i].spec_owner_raw() == raw
    &&& forall|j: int| 0 <= j < i ==> (#[trigger] gs[j]).spec_owner_raw() != raw
}

/// The registry of one VM's guests, bounded by the pages its owner
/// dedicated to tracking at creation time.
pub struct Guests {
    pub inner: Vec<GuestState>,
    pub capacity: u64,
}

impl Guests {
    /// Every entry is well formed.
    pub open spec fn wf(self) -> bool {
        forall|i: int| 0 <= i < self.inner@.len() ==> (#[trigger] self.inner@[i]).wf()
    }

    /// Adds a guest entry; fails when the dedicated tracking space is
    /// exhausted.
    pub fn add(&mut self, guest_state: GuestState) -> (r: Result<(), SbiError>)
        requires
            old(self).wf(),
            guest_state.wf(),
        ensures
            final(self).wf(),
            old(self).inner@.len() >= old(self).capacity ==> r == Err::<(), SbiError>(
                SbiError::InvalidParam,
            ) && *final(self) == *old(self),
            old(self).inner@.len() < old(self).capacity ==> r is Ok && final(self).inner@ == old(self).inner@.push(guest_state) && final(self).capacity == old(self).capacity,
    {
        if self.inner.len() as u64 >= self.capacity {
            return Err(SbiError::InvalidParam);
        }
        self.inner.push(guest_state);
        Ok(())
    }

    /// Returns the index into the guest list of the given guest id, or an
    /// error if the id is not a guest identifier or no entry carries it.
    pub fn get_guest_index(&self, guest_id: u64) -> (r: Result<usize, SbiError>)
        requires
            self.wf(),
        ensures
            r matches Ok(i) ==> find_guest_at(self.inner@, guest_id, i as int) && guest_id
                >= crate::ids::FIRST_GUEST_ID,
            r is Err ==> r == Err::<usize, SbiError>(SbiError::InvalidParam) && (guest_id
                < crate::ids::FIRST_GUEST_ID || forall|j: int|
                0 <= j < self.inner@.len() ==> (#[trigger] self.inner@[j]).spec_owner_raw()
                    != guest_id),
    {
        let page_owner_id = match PageOwnerId::new(guest_id) {
            Some(id) => id,
            None => {
                return Err(SbiError::InvalidParam);
            },
        };
        let n = self.inner.len();
        let mut i: usize = 0;
        let mut found: Option<usize> = None;
        while i < n
            invariant
                self.wf(),
                i <= n,
                n == self.inner@.len(),
                page_owner_id.raw == guest_id,
                match found {
                    Some(k) => find_guest_at(self.inner@, guest_id, k as int),
                    None => forall|j: int|
                        0 <= j < i ==> (#[trigger] self.inner@[j]).spec_owner_raw() != guest_id,
                },
            decreases n - i,
        {
            if found.is_none() {
                let entry_id = self.inner[i].page_owner_id();
                if entry_id.raw == guest_id {
                    found = Some(i);
                }
            }
            i = i + 1;
        }
        match found {
            Some(k) => Ok(k),
            None => Err(SbiError::InvalidParam),
        }
    }

    /// Removes every entry of the given guest id, keeping the others.
    pub fn remove(&mut self, guest_id: u64) -> (r: Result<(), SbiError>)
        requires
            old(self).wf(),
        ensures
            final(self).wf(),
            final(self).capacity == old(self).capacity,
            guest_id < crate::ids::FIRST_GUEST_ID ==> r == Err::<(), SbiError>(
                SbiError::InvalidParam,
            ) && *final(self) == *old(self),
            guest_id >= crate::ids::FIRST_GUEST_ID ==> r is Ok && !registry_has(
                final(self).inner@,
                guest_id,
            ) && (forall|raw: u64|
                raw != guest_id ==> (#[trigger] registry_has(final(self).inner@, raw)
                    <==> registry_has(old(self).inner@, raw))) && forall|k: int|
                0 <= k < final(self).inner@.len() ==> #[trigger] from_registry(
                    old(self).inner@,
                    final(self).inner@[k],
                ),
    {
        if PageOwnerId::new(guest_id).is_none() {
            return Err(SbiError::InvalidParam);
        }
        let ghost orig = self.inner@;
        loop
            invariant
                self.wf(),
                self.capacity == old(self).capacity,
                guest_id >= crate::ids::FIRST_GUEST_ID,
                forall|raw: u64|
                    raw != guest_id ==> (#[trigger] registry_has(self.inner@, raw)
                        <==> registry_has(orig, raw)),
                forall|k: int|
                    0 <= k < self.inner@.len() ==> #[trigger] from_registry(orig, self.inner@[k]),
            ensures
                self.wf(),
                self.capacity == old(self).capacity,
                !registry_has(self.inner@, guest_id),
                forall|raw: u64|
                    raw != guest_id ==> (#[trigger] registry_has(self.inner@, raw)
                        <==> registry_has(orig, raw)),
                forall|k: int|
                    0 <= k < self.inner@.len() ==> #[trigger] from_registry(orig, self.inner@[k]),
            decreases self.inner@.len(),
        {
            let idx = match self.get_guest_index(guest_id) {
                Ok(i) => i,
                Err(_) => {
                    proof {
                        assert(!registry_has(self.inner@, guest_id));
                    }
                    break ;
                },
            };
            let ghost gs0 = self.inner@;
            proof {
                lemma_registry_remove(gs0, idx as int);
            }
            self.inner.remove(idx);
            proof {
                assert(self.inner@ == gs0.remove(idx as int));
                assert forall|k: int|
                    0 <= k < self.inner@.len() implies (#[trigger] self.inner@[k]).wf() by {
                    if k < idx {
                        assert(self.inner@[k] == gs0[k]);
                    } else {
                        assert(self.inner@[k] == gs0[k + 1]);
                    }
                }
                assert forall|k: int|
                    0 <= k < self.inner@.len() implies #[trigger] from_registry(
                    orig,
                    self.inner@[k],
                ) by {
                    if k < idx {
                        assert(self.inner@[k] == gs0[k]);
                        assert(from_registry(orig, gs0[k]));
                    } else {
                        assert(self.inner@[k] == gs0[k + 1]);
                        assert(from_registry(orig, gs0[k + 1]));
                    }
                    let j = choose|j: int|
                        0 <= j < orig.len() && (#[trigger] orig[j]) == self.inner@[k];
                    assert(orig[j] == self.inner@[k]);
                }
            }
        }
        Ok(())
    }
}

/// Removing one registry entry removes exactly its identifier's presence:
/// every other identifier stays exactly as present as before.
pub proof fn lemma_registry_remove(gs: Seq<GuestState>, idx: int)
    requires
        0 <= idx < gs.len(),
    ensures
        forall|raw: u64|
            raw != gs[idx].spec_owner_raw() ==> (#[trigger] registry_has(gs.remove(idx), raw)
                <==> registry_has(gs, raw)),
        forall|raw: u64| #[trigger] registry_has(gs.remove(idx), raw) ==> registry_has(gs, raw),
        forall|k: int|
            0 <= k < gs.remove(idx).len() ==> #[trigger] gs.remove(idx)[k] == gs[k] || gs.remove(
                idx,
            )[k] == gs[k + 1],
{
    let rm = gs.remove(idx);
    assert forall|raw: u64| #[trigger] registry_has(rm, raw) implies registry_has(gs, raw) by {
        let k = choose|k: int| 0 <= k < rm.len() && (#[trigger] rm[k]).spec_owner_raw() == raw;
        let k0 = if k < idx {
            k
        } else {
            k + 1
        };
        assert(gs[k0] == rm[k]);
        assert(registry_has(gs, raw));
    }
    assert forall|raw: u64|
        raw != gs[idx].spec_owner_raw() && registry_has(gs, raw) implies #[trigger] registry_has(
        rm,
        raw,
    ) by {
        let k0 = choose|k: int| 0 <= k < gs.len() && (#[trigger] gs[k]).spec_owner_raw() == raw;
        let k = if k0 < idx {
            k0
        } else {
            k0 - 1
        };
        assert(rm[k] == gs[k0]);
        assert(registry_has(rm, raw));
    }
}

/// What a freshly created VM looks like over the given page state: the
/// fixed boot values of every CSR mirror and a cleared register file.
pub open spec fn is_boot_vm(r: Vm, vm_pages: VmPages) -> bool {
    &&& r.info.sp == 0
    &&& r.info.csrs == (VmCsrs {
        sepc: 0,
        sie: SIE_BOOT,
        scause: 0,
        stvec: 0,
        hgatp: ((HGATP_MODE_SV48X4 + HGATP_VMID_1) as u64 + (vm_pages.root_addr / PAGE_SIZE_4K)
            % HGATP_PPN_MASK_PLUS_1) as u64,
        hedeleg: HEDELEG_BOOT,
        hideleg: HIDELEG_BOOT,
        hstatus: HSTATUS_BOOT,
        hcounteren: HCOUNTEREN_BOOT,
        sstatus: SSTATUS_BOOT,
        stval: 0,
        htval: 0,
    })
    &&& forall|i: int| 0 <= i < 32 ==> r.info.gprs.regs@[i] == 0
    &&& r.vm_pages == vm_pages
    &&& r.guests is None
    &&& !r.has_run
}

/// A VM: its saved CPU state, its page state, and (for the host VM) the
/// registry of its guests.
pub struct Vm {
    pub info: VmCpuState,
    pub vm_pages: VmPages,
    pub guests: Option<Guests>,
    pub has_run: bool,
}

impl Vm {
    /// Structural invariant: well-formed page state and registry.
    pub open spec fn wf(self) -> bool {
        &&& self.vm_pages.wf()
        &&& match self.guests {
            Some(g) => g.wf(),
            None => true,
        }
    }

    /// Creates a new VM using the given page state: the CSR mirrors get
    /// their fixed boot values, `hgatp` points at the stage-2 root with
    /// VMID 1 in Sv48x4 mode, and the register file is cleared (hart id 0
    /// in A0).
    pub fn new(vm_pages: VmPages) -> (r: Self)
        requires
            vm_pages.wf(),
        ensures
            is_boot_vm(r, vm_pages),
            r.wf(),
    {
        let mut csrs = VmCsrs::default();
        csrs.sie = SIE_BOOT;
        let ppn = (vm_pages.root() / PAGE_SIZE_4K) % HGATP_PPN_MASK_PLUS_1;
        csrs.hgatp = HGATP_MODE_SV48X4 + HGATP_VMID_1 + ppn;
        csrs.hedeleg = HEDELEG_BOOT;
        csrs.hideleg = HIDELEG_BOOT;
        csrs.hstatus = HSTATUS_BOOT;
        csrs.hcounteren = HCOUNTEREN_BOOT;
        csrs.sstatus = SSTATUS_BOOT;
        let mut gprs = GeneralPurposeRegisters::new();
        // Hart id 0 in A0.
        gprs.set_reg(GprIndex::A0, 0);
        Vm { info: VmCpuState { sp: 0, csrs, gprs }, vm_pages, guests: None, has_run: false }
    }

    /// Sets the address the VM starts (or resumes) executing at.
    pub fn set_entry_address(&mut self, entry_addr: u64)
        ensures
            *final(self) == (Vm {
                info: VmCpuState {
                    csrs: VmCsrs { sepc: entry_addr, ..old(self).info.csrs },
                    ..old(self).info
                },
                ..*old(self)
            }),
    {
        self.info.csrs.sepc = entry_addr;
    }

    /// Passes the device-tree address to the VM in A1.
    pub fn add_device_tree(&mut self, dt_addr: u64)
        ensures
            *final(self) == (Vm {
                info: VmCpuState {
                    gprs: GeneralPurposeRegisters {
                        regs: final(self).info.gprs.regs,
                    },
                    ..old(self).info
                },
                ..*old(self)
            }),
            final(self).info.gprs.regs@ == old(self).info.gprs.regs@.update(
                GprIndex::A1.spec_index(),
                dt_addr,
            ),
    {
        self.info.gprs.set_reg(GprIndex::A1, dt_addr);
    }

    /// Dedicates pages for tracking guests: the registry's capacity is
    /// bounded by the dedicated space.
    pub fn add_guest_tracking_pages(&mut self, pages: SequentialPages)
        ensures
            final(self).guests matches Some(g) && g.inner@.len() == 0 && g.capacity
                == tracking_capacity(pages.num_pages),
            final(self).info == old(self).info,
            final(self).vm_pages == old(self).vm_pages,
            final(self).has_run == old(self).has_run,
            old(self).wf() ==> final(self).wf(),
    {
        self.guests = Some(
            Guests {
                inner: Vec::new(),
                capacity: pages.num_pages.checked_mul(GUESTS_PER_TRACKING_PAGE).unwrap_or(
                    u64::MAX,
                ),
            },
        );
    }

    /// The CSR mirrors of this VM.
    pub fn csrs(&self) -> (r: &VmCsrs)
        ensures
            r == &self.info.csrs,
    {
        &self.info.csrs
    }

    /// Advances `sepc` past the ecall instruction that caused the exit.
    pub fn inc_sepc_ecall(&mut self)
        ensures
            *final(self) == (Vm {
                info: VmCpuState {
                    csrs: VmCsrs {
                        sepc: vstd::wrapping::u64_specs::wrapping_add(old(self).info.csrs.sepc, 4),
                        ..old(self).info.csrs
                    },
                    ..old(self).info
                },
                ..*old(self)
            }),
    {
        self.info.csrs.sepc = self.info.csrs.sepc.wrapping_add(4);
    }
}

/// An ownership chain after every trailing occurrence of `raw` has been
/// popped: pops stop at the first different owner or at the
/// inextinguishable root.
pub open spec fn strip_owner(s: Seq<u64>, raw: u64) -> Seq<u64>
    decreases s.len(),
{
    if s.len() <= 1 || s.last() != raw {
        s
    } else {
        strip_owner(s.drop_last(), raw)
    }
}

/// A page record after a guest's trailing claims have been popped: only
/// owned chains change.
pub open spec fn strip_view(v: PageInfoView, raw: u64) -> PageInfoView {
    match v {
        PageInfoView::Owned(s) => PageInfoView::Owned(strip_owner(s, raw)),
        _ => v,
    }
}

/// What [`crate::page_info::PageInfo::pop_owners_while`] leaves when its
/// predicate is exactly "the owner is `raw`": the chain with every
/// trailing `raw` popped.
pub proof fn lemma_strip_from_popped<F: Fn(&PageOwnerId) -> bool>(
    s: Seq<u64>,
    check: F,
    result: PageInfoView,
    m: int,
    raw: u64,
)
    requires
        popped_while_to(s, check, result, m),
        s.len() >= 1,
        forall|o: PageOwnerId, b: bool| #[trigger] check.ensures((&o,), b) ==> b == (o.raw == raw),
    ensures
        result == PageInfoView::Owned(strip_owner(s, raw)),
    decreases s.len(),
{
    if s.len() == 1 {
        assert(m == 1);
        assert(s.take(1) =~= s);
    } else if s.last() != raw {
        if m < s.len() {
            assert(check.ensures((&(PageOwnerId { raw: s[s.len() - 1] }),), true));
            assert(s[s.len() - 1] == raw);
            assert(false);
        }
        assert(s.take(m) =~= s);
    } else {
        if m == s.len() {
            assert(m > 1);
            assert(check.ensures((&(PageOwnerId { raw: s[m - 1] }),), false));
            assert(s[m - 1] != raw);
            assert(false);
        }
        let st = s.drop_last();
        assert(s.take(m) =~= st.take(m));
        assert(popped_while_to(st, check, result, m)) by {
            assert forall|i: int|
                m <= i < st.len() implies check.ensures((&(PageOwnerId { raw: st[i] }),), true) by {
                assert(st[i] == s[i]);
                assert(check.ensures((&(PageOwnerId { raw: s[i] }),), true));
            }
            if m > 1 {
                assert(st[m - 1] == s[m - 1]);
            }
        }
        lemma_strip_from_popped(st, check, result, m, raw);
    }
}

/// Pops every trailing claim of the guest `raw` off every page of the
/// directory: all of the guest's pages revert to their previous owners,
/// and every other page is untouched.
pub fn reclaim_guest_pages(page_map: &mut PageMap, raw: u64)
    requires
        old(page_map).wf(),
    ensures
        final(page_map).wf(),
        final(page_map).entries() == old(page_map).entries(),
        final(page_map).pages@.len() == old(page_map).pages@.len(),
        forall|k: int|
            0 <= k < old(page_map).pages@.len() ==> (#[trigger] final(page_map).pages@[k])@
                == strip_view(old(page_map).pages@[k]@, raw),
{
    let ghost pre = *page_map;
    let n = page_map.pages.len();
    let mut k: usize = 0;
    while k < n
        invariant
            pre.wf(),
            page_map.wf(),
            k <= n,
            n == pre.pages@.len(),
            page_map.entries() == pre.entries(),
            page_map.pages@.len() == pre.pages@.len(),
            forall|j: int|
                0 <= j < k ==> (#[trigger] page_map.pages@[j])@ == strip_view(pre.pages@[j]@, raw),
            forall|j: int| k <= j < n ==> (#[trigger] page_map.pages@[j]) == pre.pages@[j],
        decreases n - k,
    {
        let ghost mid = *page_map;
        let check = |o: &PageOwnerId| -> (b: bool)
            ensures
                b == (o.raw == raw),
            { o.raw == raw };
        let info = &mut page_map.pages[k];
        info.pop_owners_while(check);
        proof {
            assert(page_map.pages@.len() == mid.pages@.len());
            match mid.pages@[k as int]@ {
                PageInfoView::Owned(s) => {
                    let m = choose|m: int|
                        popped_while_to(s, check, page_map.pages@[k as int]@, m);
                    assert(1 <= s.len());
                    lemma_strip_from_popped(s, check, page_map.pages@[k as int]@, m, raw);
                },
                _ => {
                    assert(page_map.pages@[k as int]@ == mid.pages@[k as int]@);
                },
            }
            assert(page_map.pages@[k as int]@ == strip_view(pre.pages@[k as int]@, raw));
            assert(forall|j: int|
                0 <= j < n && j != k ==> (#[trigger] page_map.pages@[j]) == mid.pages@[j]);
        }
        k = k + 1;
    }
}

/// The exact contract of [`Vm::add_guest`] (the TvmCreate call): when each
/// error is returned, and how the registry, the page directory and the
/// minting counter change on success.
pub open spec fn add_guest_post(
    pre: Vm,
    prepm: PageMap,
    donor: u64,
    post: Vm,
    postpm: PageMap,
    r: Result<u64, SbiError>,
) -> bool {
    let reg_ok = pre.guests is Some && pre.guests->Some_0.inner@.len()
        < pre.guests->Some_0.capacity;
    let aligned4k = donor % PAGE_SIZE_4K == 0;
    let createable = donor % crate::vm_pages::TVM_ROOT_ALIGN == 0 && donor
        + crate::vm_pages::TVM_DONOR_PAGES * PAGE_SIZE_4K <= u64::MAX
        && pre.vm_pages.next_guest_id < u64::MAX && crate::vm_pages::range_claimable_by(
        prepm,
        donor as int / PAGE_SIZE_4K as int,
        crate::vm_pages::TVM_DONOR_PAGES as int,
        pre.vm_pages.page_owner_id,
    );
    &&& (!reg_ok ==> r == Err::<u64, SbiError>(SbiError::InvalidParam) && post == pre && postpm
        == prepm)
    &&& (reg_ok && !aligned4k ==> r == Err::<u64, SbiError>(SbiError::InvalidAddress) && post
        == pre && postpm == prepm)
    &&& (reg_ok && aligned4k && !createable ==> r == Err::<u64, SbiError>(SbiError::InvalidParam)
        && post == pre && postpm == prepm)
    &&& (reg_ok && aligned4k && createable ==> {
        let new_raw = pre.vm_pages.next_guest_id;
        &&& r == Ok::<u64, SbiError>(new_raw)
        &&& post.vm_pages == (VmPages { next_guest_id: (new_raw + 1) as u64, ..pre.vm_pages })
        &&& post.info == pre.info
        &&& post.has_run == pre.has_run
        &&& post.guests is Some
        &&& post.guests->Some_0.capacity == pre.guests->Some_0.capacity
        &&& post.guests->Some_0.inner@.len() == pre.guests->Some_0.inner@.len() + 1
        &&& forall|k: int|
            0 <= k < pre.guests->Some_0.inner@.len() ==> post.guests->Some_0.inner@[k]
                == pre.guests->Some_0.inner@[k]
        &&& post.guests->Some_0.inner@.last() matches GuestState::Init(b) && b.vm_pages
            == (VmPages {
            page_owner_id: PageOwnerId { raw: new_raw },
            root_addr: donor,
            next_guest_id: crate::ids::FIRST_GUEST_ID,
            measurement: 0,
            pte_pages: 0,
            mapped: b.vm_pages.mapped,
            reclaimable: b.vm_pages.reclaimable,
        }) && b.vm_pages.mapped@.len() == 0 && b.vm_pages.reclaimable@.len() == 0
        &&& crate::vm_pages::range_updated(
            prepm,
            postpm,
            donor as int / PAGE_SIZE_4K as int,
            crate::vm_pages::TVM_DONOR_PAGES as int,
            |v: PageInfoView| v.pushed(new_raw),
        )
    })
}

/// The exact contract of [`Vm::destroy_guest`] (the TvmDestroy call): the
/// guest must belong to the caller's registry; its entry is removed and
/// every trailing claim it holds on any page is popped, reverting its
/// pages to their previous owners.
pub open spec fn destroy_guest_post(
    pre: Vm,
    prepm: PageMap,
    guest_id: u64,
    post: Vm,
    postpm: PageMap,
    r: Result<u64, SbiError>,
) -> bool {
    let found = pre.guests is Some && guest_id >= crate::ids::FIRST_GUEST_ID && registry_has(
        pre.guests->Some_0.inner@,
        guest_id,
    );
    &&& (!found ==> r == Err::<u64, SbiError>(SbiError::InvalidParam) && post == pre && postpm
        == prepm)
    &&& (found ==> {
        &&& r == Ok::<u64, SbiError>(0)
        &&& post.info == pre.info
        &&& post.vm_pages == pre.vm_pages
        &&& post.has_run == pre.has_run
        &&& post.guests is Some
        &&& post.guests->Some_0.capacity == pre.guests->Some_0.capacity
        &&& !registry_has(post.guests->Some_0.inner@, guest_id)
        &&& forall|raw: u64|
            raw != guest_id ==> (#[trigger] registry_has(post.guests->Some_0.inner@, raw)
                <==> registry_has(pre.guests->Some_0.inner@, raw))
        &&& forall|k: int|
            0 <= k < post.guests->Some_0.inner@.len() ==> #[trigger] from_registry(
                pre.guests->Some_0.inner@,
                post.guests->Some_0.inner@[k],
            )
        &&& postpm.entries() == prepm.entries()
        &&& postpm.pages@.len() == prepm.pages@.len()
        &&& forall|k: int|
            0 <= k < prepm.pages@.len() ==> (#[trigger] postpm.pages@[k])@ == strip_view(
                prepm.pages@[k]@,
                guest_id,
            )
    })
}

/// The exact contract of [`Vm::guest_finalize`] (the Finalize call): an
/// initializing guest becomes a freshly booted running VM over the
/// builder's page state; a guest that already runs is left as it is.
pub open spec fn finalize_post(pre: Vm, guest_id: u64, post: Vm, r: Result<u64, SbiError>) -> bool {
    let found = pre.guests is Some && guest_id >= crate::ids::FIRST_GUEST_ID && exists|i: int|
        find_guest_at(pre.guests->Some_0.inner@, guest_id, i);
    &&& (!found ==> r == Err::<u64, SbiError>(SbiError::InvalidParam) && post == pre)
    &&& (found ==> {
        let i = choose|i: int| find_guest_at(pre.guests->Some_0.inner@, guest_id, i);
        &&& r == Ok::<u64, SbiError>(0)
        &&& post.info == pre.info
        &&& post.vm_pages == pre.vm_pages
        &&& post.has_run == pre.has_run
        &&& post.guests is Some
        &&& post.guests->Some_0.capacity == pre.guests->Some_0.capacity
        &&& post.guests->Some_0.inner@.len() == pre.guests->Some_0.inner@.len()
        &&& forall|k: int|
            0 <= k < pre.guests->Some_0.inner@.len() && k != i
                ==> post.guests->Some_0.inner@[k] == pre.guests->Some_0.inner@[k]
        &&& match pre.guests->Some_0.inner@[i] {
            GuestState::Init(b) => post.guests->Some_0.inner@[i] matches GuestState::Running(vm)
                && is_boot_vm(vm, b.vm_pages),
            _ => post.guests->Some_0.inner@[i] == pre.guests->Some_0.inner@[i],
        }
    })
}

/// The exact contract of [`Vm::guest_run`] (the Run call): only a
/// finalized, running guest may be entered; entering it marks it as
/// having run. Actually executing the guest hart is the embedder's step.
pub open spec fn run_post(pre: Vm, guest_id: u64, post: Vm, r: Result<u64, SbiError>) -> bool {
    let found = pre.guests is Some && guest_id >= crate::ids::FIRST_GUEST_ID && exists|i: int|
        find_guest_at(pre.guests->Some_0.inner@, guest_id, i);
    let runnable = found && {
        let i = choose|i: int| find_guest_at(pre.guests->Some_0.inner@, guest_id, i);
        pre.guests->Some_0.inner@[i] is Running
    };
    &&& (!runnable ==> r == Err::<u64, SbiError>(SbiError::InvalidParam) && post == pre)
    &&& (runnable ==> {
        let i = choose|i: int| find_guest_at(pre.guests->Some_0.inner@, guest_id, i);
        &&& r == Ok::<u64, SbiError>(0)
        &&& post.info == pre.info
        &&& post.vm_pages == pre.vm_pages
        &&& post.has_run == pre.has_run
        &&& post.guests is Some
        &&& post.guests->Some_0.capacity == pre.guests->Some_0.capacity
        &&& post.guests->Some_0.inner@ == pre.guests->Some_0.inner@.update(
            i,
            GuestState::Running(
                Vm { has_run: true, ..pre.guests->Some_0.inner@[i]->Running_0 },
            ),
        )
    })
}

/// The observable state of a VM is unchanged: same CPU state, page state,
/// and registry contents.
pub open spec fn same_vm_state(pre: Vm, post: Vm) -> bool {
    &&& post.info == pre.info
    &&& post.vm_pages == pre.vm_pages
    &&& post.has_run == pre.has_run
    &&& (post.guests is Some <==> pre.guests is Some)
    &&& (pre.guests is Some ==> post.guests->Some_0.capacity == pre.guests->Some_0.capacity
        && post.guests->Some_0.inner@ == pre.guests->Some_0.inner@)
}

/// The observable state of the page directory is unchanged.
pub open spec fn same_page_map(pre: PageMap, post: PageMap) -> bool {
    &&& post.entries() == pre.entries()
    &&& post.pages@ == pre.pages@
}

/// The exact contract of [`Vm::guest_add_page_table_pages`] (the
/// AddPageTablePages call): `num_pages` 4 KiB pages owned by the caller
/// move to an initializing guest's page-table pool.
pub open spec fn add_pte_post(
    pre: Vm,
    prepm: PageMap,
    guest_id: u64,
    from: u64,
    num_pages: u64,
    post: Vm,
    postpm: PageMap,
    r: Result<u64, SbiError>,
) -> bool {
    let aligned = from % PAGE_SIZE_4K == 0;
    let found_init = pre.guests is Some && guest_id >= crate::ids::FIRST_GUEST_ID && (exists|
        i: int,
    |
        find_guest_at(pre.guests->Some_0.inner@, guest_id, i)) && {
        let i = choose|i: int| find_guest_at(pre.guests->Some_0.inner@, guest_id, i);
        pre.guests->Some_0.inner@[i] is Init
    };
    let addable = from as int / PAGE_SIZE_4K as int + num_pages <= u64::MAX
        && crate::vm_pages::range_claimable_by(
        prepm,
        from as int / PAGE_SIZE_4K as int,
        num_pages as int,
        pre.vm_pages.page_owner_id,
    );
    &&& (!aligned ==> r == Err::<u64, SbiError>(SbiError::InvalidAddress) && same_vm_state(
        pre,
        post,
    ) && same_page_map(prepm, postpm))
    &&& (aligned && !found_init ==> r == Err::<u64, SbiError>(SbiError::InvalidParam)
        && same_vm_state(pre, post) && same_page_map(prepm, postpm))
    &&& (aligned && found_init && !addable ==> r == Err::<u64, SbiError>(
        SbiError::InvalidAddress,
    ) && same_vm_state(pre, post) && same_page_map(prepm, postpm))
    &&& (aligned && found_init && addable ==> {
        let i = choose|i: int| find_guest_at(pre.guests->Some_0.inner@, guest_id, i);
        let b = pre.guests->Some_0.inner@[i]->Init_0;
        &&& r == Ok::<u64, SbiError>(0)
        &&& post.info == pre.info
        &&& post.vm_pages == pre.vm_pages
        &&& post.has_run == pre.has_run
        &&& post.guests is Some
        &&& post.guests->Some_0.capacity == pre.guests->Some_0.capacity
        &&& post.guests->Some_0.inner@ == pre.guests->Some_0.inner@.update(
            i,
            GuestState::Init(
                GuestRootBuilder {
                    vm_pages: VmPages {
                        pte_pages: if b.vm_pages.pte_pages + num_pages > u64::MAX {
                            u64::MAX
                        } else {
                            (b.vm_pages.pte_pages + num_pages) as u64
                        },
                        ..b.vm_pages
                    },
                },
            ),
        )
        &&& crate::vm_pages::range_updated(
            prepm,
            postpm,
            from as int / PAGE_SIZE_4K as int,
            num_pages as int,
            |v: PageInfoView| v.pushed(b.vm_pages.page_owner_id.raw),
        )
    })
}

/// The exact contract of [`Vm::guest_add_pages`] (the AddPages call):
/// `num_pages` 4 KiB pages owned by the caller move to an initializing
/// guest, are mapped at consecutive guest physical addresses, and are
/// folded into the guest's measurement.
pub open spec fn add_pages_post(
    pre: Vm,
    prepm: PageMap,
    guest_id: u64,
    from: u64,
    page_type: u64,
    num_pages: u64,
    to: u64,
    post: Vm,
    postpm: PageMap,
    r: Result<u64, SbiError>,
) -> bool {
    let type_ok = page_type <= 3;
    let aligned = from % PAGE_SIZE_4K == 0 && to % PAGE_SIZE_4K == 0;
    let found_init = pre.guests is Some && guest_id >= crate::ids::FIRST_GUEST_ID && (exists|
        i: int,
    |
        find_guest_at(pre.guests->Some_0.inner@, guest_id, i)) && {
        let i = choose|i: int| find_guest_at(pre.guests->Some_0.inner@, guest_id, i);
        pre.guests->Some_0.inner@[i] is Init
    };
    let b0 = {
        let i = choose|i: int| find_guest_at(pre.guests->Some_0.inner@, guest_id, i);
        pre.guests->Some_0.inner@[i]->Init_0
    };
    let addable = found_init && from as int / PAGE_SIZE_4K as int + num_pages <= u64::MAX && to
        + PAGE_SIZE_4K * num_pages <= u64::MAX && crate::vm_pages::range_claimable_by(
        prepm,
        from as int / PAGE_SIZE_4K as int,
        num_pages as int,
        pre.vm_pages.page_owner_id,
    ) && crate::vm_pages::range_fresh(
        b0.vm_pages.mapped@,
        b0.vm_pages.reclaimable@,
        to,
        (from as int / PAGE_SIZE_4K as int) as u64,
        num_pages as int,
    );
    &&& (!type_ok ==> r == Err::<u64, SbiError>(SbiError::InvalidParam) && same_vm_state(
        pre,
        post,
    ) && same_page_map(prepm, postpm))
    &&& (type_ok && !aligned ==> r == Err::<u64, SbiError>(SbiError::InvalidAddress)
        && same_vm_state(pre, post) && same_page_map(prepm, postpm))
    &&& (type_ok && aligned && !found_init ==> r == Err::<u64, SbiError>(SbiError::InvalidParam)
        && same_vm_state(pre, post) && same_page_map(prepm, postpm))
    &&& (type_ok && aligned && found_init && !addable ==> r == Err::<u64, SbiError>(
        SbiError::InvalidParam,
    ) && same_vm_state(pre, post) && same_page_map(prepm, postpm))
    &&& (type_ok && aligned && addable ==> {
        let i = choose|i: int| find_guest_at(pre.guests->Some_0.inner@, guest_id, i);
        let b = pre.guests->Some_0.inner@[i]->Init_0;
        &&& r == Ok::<u64, SbiError>(num_pages)
        &&& post.info == pre.info
        &&& post.vm_pages == pre.vm_pages
        &&& post.has_run == pre.has_run
        &&& post.guests is Some
        &&& post.guests->Some_0.capacity == pre.guests->Some_0.capacity
        &&& post.guests->Some_0.inner@.len() == pre.guests->Some_0.inner@.len()
        &&& forall|k: int|
            0 <= k < pre.guests->Some_0.inner@.len() && k != i
                ==> post.guests->Some_0.inner@[k] == pre.guests->Some_0.inner@[k]
        &&& post.guests->Some_0.inner@[i] matches GuestState::Init(b2) && {
            &&& b2.vm_pages.mapped@ == b.vm_pages.mapped@ + Seq::new(
                num_pages as nat,
                |j: int| crate::vm_pages::Mapping {
                    gpa: (to + PAGE_SIZE_4K * j) as u64,
                    spa_pfn: (from as int / PAGE_SIZE_4K as int + j) as u64,
                },
            )
            &&& b2.vm_pages.measurement == crate::vm_pages::measure_fold(
                b.vm_pages.measurement,
                to,
                num_pages as int,
            )
            &&& b2.vm_pages.reclaimable == b.vm_pages.reclaimable
            &&& b2.vm_pages.page_owner_id == b.vm_pages.page_owner_id
            &&& b2.vm_pages.root_addr == b.vm_pages.root_addr
            &&& b2.vm_pages.next_guest_id == b.vm_pages.next_guest_id
            &&& b2.vm_pages.pte_pages == b.vm_pages.pte_pages
        }
        &&& crate::vm_pages::range_updated(
            prepm,
            postpm,
            from as int / PAGE_SIZE_4K as int,
            num_pages as int,
            |v: PageInfoView| v.pushed(b.vm_pages.page_owner_id.raw),
        )
    })
}

/// The exact contract of [`Vm::guest_rm_pages`] (the RemovePages call):
/// `num_pages` guest pages of a running guest are unmapped and their
/// frames revert to the previous owner, staying reclaimable.
pub open spec fn rm_pages_post(
    pre: Vm,
    prepm: PageMap,
    guest_id: u64,
    gpa: u64,
    num_pages: u64,
    post: Vm,
    postpm: PageMap,
    r: Result<u64, SbiError>,
) -> bool {
    let aligned = gpa % PAGE_SIZE_4K == 0;
    let found_running = pre.guests is Some && guest_id >= crate::ids::FIRST_GUEST_ID && (exists|
        i: int,
    |
        find_guest_at(pre.guests->Some_0.inner@, guest_id, i)) && {
        let i = choose|i: int| find_guest_at(pre.guests->Some_0.inner@, guest_id, i);
        pre.guests->Some_0.inner@[i] is Running
    };
    let vp0 = {
        let i = choose|i: int| find_guest_at(pre.guests->Some_0.inner@, guest_id, i);
        pre.guests->Some_0.inner@[i]->Running_0.vm_pages
    };
    let removable = found_running && gpa + PAGE_SIZE_4K * num_pages <= u64::MAX && (forall|j: int|
        0 <= j < num_pages ==> #[trigger] crate::vm_pages::rm_mapped_at(vp0.mapped@, gpa, j)) && (
    forall|j: int|
        0 <= j < num_pages ==> #[trigger] crate::vm_pages::rm_releasable_at(
            vp0.mapped@,
            prepm,
            gpa,
            j,
            vp0.page_owner_id,
        ));
    &&& (!aligned ==> r == Err::<u64, SbiError>(SbiError::InvalidAddress) && same_vm_state(
        pre,
        post,
    ) && same_page_map(prepm, postpm))
    &&& (aligned && !found_running ==> r == Err::<u64, SbiError>(SbiError::InvalidParam)
        && same_vm_state(pre, post) && same_page_map(prepm, postpm))
    &&& (aligned && found_running && !removable ==> r == Err::<u64, SbiError>(
        SbiError::InvalidAddress,
    ) && same_vm_state(pre, post) && same_page_map(prepm, postpm))
    &&& (aligned && removable ==> {
        let i = choose|i: int| find_guest_at(pre.guests->Some_0.inner@, guest_id, i);
        let vm0 = pre.guests->Some_0.inner@[i]->Running_0;
        &&& r == Ok::<u64, SbiError>(num_pages)
        &&& post.info == pre.info
        &&& post.vm_pages == pre.vm_pages
        &&& post.has_run == pre.has_run
        &&& post.guests is Some
        &&& post.guests->Some_0.capacity == pre.guests->Some_0.capacity
        &&& post.guests->Some_0.inner@.len() == pre.guests->Some_0.inner@.len()
        &&& forall|k: int|
            0 <= k < pre.guests->Some_0.inner@.len() && k != i
                ==> post.guests->Some_0.inner@[k] == pre.guests->Some_0.inner@[k]
        &&& post.guests->Some_0.inner@[i] matches GuestState::Running(vm2) && {
            &&& vm2.info == vm0.info
            &&& vm2.has_run == vm0.has_run
            &&& vm2.guests == vm0.guests
            &&& forall|g: u64|
                #[trigger] crate::vm_pages::maps_gpa(vm2.vm_pages.mapped@, g)
                    <==> crate::vm_pages::maps_gpa(vm0.vm_pages.mapped@, g) && !(gpa <= g < gpa
                    + PAGE_SIZE_4K * num_pages)
            &&& forall|g: u64|
                #[trigger] crate::vm_pages::maps_gpa(vm2.vm_pages.reclaimable@, g)
                    <==> crate::vm_pages::maps_gpa(vm0.vm_pages.reclaimable@, g) || (
                crate::vm_pages::maps_gpa(vm0.vm_pages.mapped@, g) && gpa <= g < gpa + PAGE_SIZE_4K
                    * num_pages)
            &&& vm2.vm_pages.page_owner_id == vm0.vm_pages.page_owner_id
            &&& vm2.vm_pages.measurement == vm0.vm_pages.measurement
        }
        &&& postpm.entries() == prepm.entries()
        &&& postpm.pages@.len() == prepm.pages@.len()
        &&& forall|pfn: int|
            prepm.covered(pfn) && crate::vm_pages::spa_backs_range(
                vm0.vm_pages.mapped@,
                gpa,
                num_pages as int,
                pfn,
            ) ==> postpm.page_view_of(pfn) == prepm.page_view_of(pfn).popped()
        &&& forall|pfn: int|
            prepm.covered(pfn) && !crate::vm_pages::spa_backs_range(
                vm0.vm_pages.mapped@,
                gpa,
                num_pages as int,
                pfn,
            ) ==> postpm.page_view_of(pfn) == prepm.page_view_of(pfn)
    })
}

/// The exact contract of [`Vm::guest_get_measurement`] (the
/// GetGuestMeasurement call): version and type must both be 1, the target
/// page must be 4 KiB-aligned and owned by the caller, and the guest must
/// exist; the guest's digest is then returned for delivery into the page.
/// Nothing changes either way.
pub open spec fn measurement_post(
    pre: Vm,
    prepm: PageMap,
    guest_id: u64,
    version: u64,
    mtype: u64,
    page_addr: u64,
    r: Result<(u64, u32), SbiError>,
) -> bool {
    let params_ok = version == 1 && mtype == 1 && page_addr % PAGE_SIZE_4K == 0;
    let found = pre.guests is Some && guest_id >= crate::ids::FIRST_GUEST_ID && registry_has(
        pre.guests->Some_0.inner@,
        guest_id,
    );
    let page_owned = prepm.covered(page_addr as int / PAGE_SIZE_4K as int)
        && prepm.page_view_of(page_addr as int / PAGE_SIZE_4K as int).owner() == Some(
        pre.vm_pages.page_owner_id,
    );
    &&& (!params_ok ==> r == Err::<(u64, u32), SbiError>(SbiError::InvalidParam))
    &&& (params_ok && !found ==> r == Err::<(u64, u32), SbiError>(SbiError::InvalidParam))
    &&& (params_ok && found && !page_owned ==> r == Err::<(u64, u32), SbiError>(
        SbiError::InvalidAddress,
    ))
    &&& (params_ok && found && page_owned ==> {
        let i = choose|i: int| find_guest_at(pre.guests->Some_0.inner@, guest_id, i);
        let digest = match pre.guests->Some_0.inner@[i] {
            GuestState::Init(b) => b.vm_pages.measurement as u32,
            GuestState::Running(vm) => vm.vm_pages.measurement as u32,
            GuestState::Temp => arbitrary(),
        };
        r == Ok::<(u64, u32), SbiError>((0, digest))
    })
}

/// The first matching registry position is unique.
pub proof fn lemma_find_unique(gs: Seq<GuestState>, raw: u64, i: int)
    requires
        find_guest_at(gs, raw, i),
    ensures
        exists|j: int| find_guest_at(gs, raw, j),
        (choose|j: int| find_guest_at(gs, raw, j)) == i,
{
    assert(exists|j: int| find_guest_at(gs, raw, j));
    let j = choose|j: int| find_guest_at(gs, raw, j);
    if j < i {
        assert(gs[j].spec_owner_raw() != raw);
    } else if i < j {
        assert(gs[i].spec_owner_raw() != raw);
    }
}

impl Vm {
    /// Creates a guest from five donor pages owned by this VM, registers
    /// it, and returns the fresh guest identifier.
    pub fn add_guest(&mut self, page_map: &mut PageMap, donor_pages_addr: u64) -> (r: Result<
        u64,
        SbiError,
    >)
        requires
            old(self).wf(),
            old(page_map).wf(),
        ensures
            final(self).wf(),
            final(page_map).wf(),
            add_guest_post(
                *old(self),
                *old(page_map),
                donor_pages_addr,
                *final(self),
                *final(page_map),
                r,
            ),
    {
        // Check registry space first: a failure after the transfer would
        // leave pages stranded with a guest that was never registered.
        match &self.guests {
            None => {
                return Err(SbiError::InvalidParam);
            },
            Some(g) => {
                if g.inner.len() as u64 >= g.capacity {
                    return Err(SbiError::InvalidParam);
                }
            },
        }
        let from_page_addr = match PageAddr::new_4k(donor_pages_addr) {
            Some(a) => a,
            None => {
                return Err(SbiError::InvalidAddress);
            },
        };
        let created = self.vm_pages.create_guest_root_builder(page_map, from_page_addr);
        let (guest_builder, _state_page) = match created {
            Ok(x) => x,
            Err(_) => {
                return Err(SbiError::InvalidParam);
            },
        };
        let id = guest_builder.page_owner_id();
        let guest_state = GuestState::Init(guest_builder);
        match &mut self.guests {
            Some(g) => {
                let _ = g.add(guest_state);
            },
            None => {},
        }
        Ok(id.raw())
    }

    /// Destroys a guest of this VM: every trailing claim the guest holds
    /// on any page reverts to the previous owner, and its registry entry
    /// is removed.
    pub fn destroy_guest(&mut self, page_map: &mut PageMap, guest_id: u64) -> (r: Result<
        u64,
        SbiError,
    >)
        requires
            old(self).wf(),
            old(page_map).wf(),
        ensures
            final(self).wf(),
            final(page_map).wf(),
            destroy_guest_post(
                *old(self),
                *old(page_map),
                guest_id,
                *final(self),
                *final(page_map),
                r,
            ),
    {
        match &mut self.guests {
            None => Err(SbiError::InvalidParam),
            Some(g) => {
                let _idx = g.get_guest_index(guest_id)?;
                reclaim_guest_pages(page_map, guest_id);
                let _ = g.remove(guest_id);
                Ok(0)
            },
        }
    }

    /// Converts the given guest from initializing to running.
    pub fn guest_finalize(&mut self, guest_id: u64) -> (r: Result<u64, SbiError>)
        requires
            old(self).wf(),
        ensures
            final(self).wf(),
            finalize_post(*old(self), guest_id, *final(self), r),
    {
        match &mut self.guests {
            None => Err(SbiError::InvalidParam),
            Some(g) => {
                let idx = match g.get_guest_index(guest_id) {
                    Ok(i) => i,
                    Err(e) => {
                        proof {
                            if guest_id >= crate::ids::FIRST_GUEST_ID {
                                if exists|i: int| find_guest_at(g.inner@, guest_id, i) {
                                    let i = choose|i: int| find_guest_at(g.inner@, guest_id, i);
                                    assert(g.inner@[i].spec_owner_raw() == guest_id);
                                }
                            }
                        }
                        return Err(e);
                    },
                };
                proof {
                    lemma_find_unique(g.inner@, guest_id, idx as int);
                }
                let entry = &mut g.inner[idx];
                let mut temp = GuestState::Temp;
                core::mem::swap(entry, &mut temp);
                let new_state = match temp {
                    GuestState::Init(gbr) => GuestState::Running(Vm::new(gbr.create_pages())),
                    t => t,
                };
                *entry = new_state;
                Ok(0)
            },
        }
    }

    /// Marks the given running guest as entered. The embedder performs the
    /// actual entry into the guest hart.
    pub fn guest_run(&mut self, guest_id: u64) -> (r: Result<u64, SbiError>)
        requires
            old(self).wf(),
        ensures
            final(self).wf(),
            run_post(*old(self), guest_id, *final(self), r),
    {
        match &mut self.guests {
            None => Err(SbiError::InvalidParam),
            Some(g) => {
                let idx = match g.get_guest_index(guest_id) {
                    Ok(i) => i,
                    Err(e) => {
                        proof {
                            if guest_id >= crate::ids::FIRST_GUEST_ID {
                                if exists|i: int| find_guest_at(g.inner@, guest_id, i) {
                                    let i = choose|i: int| find_guest_at(g.inner@, guest_id, i);
                                    assert(g.inner@[i].spec_owner_raw() == guest_id);
                                }
                            }
                        }
                        return Err(e);
                    },
                };
                proof {
                    lemma_find_unique(g.inner@, guest_id, idx as int);
                }
                let is_running = matches!(&g.inner[idx], GuestState::Running(_));
                if !is_running {
                    return Err(SbiError::InvalidParam);
                }
                let entry = &mut g.inner[idx];
                match entry.vm_mut() {
                    Some(vm) => {
                        vm.has_run = true;
                        Ok(0)
                    },
                    None => {
                        proof {
                            assert(false);
                        }
                        Err(SbiError::InvalidParam)
                    },
                }
            },
        }
    }
}

impl Vm {
    /// Adds 4 KiB pages owned by this VM to an initializing guest's
    /// page-table pool.
    pub fn guest_add_page_table_pages(
        &mut self,
        page_map: &mut PageMap,
        guest_id: u64,
        from_addr: u64,
        num_pages: u64,
    ) -> (r: Result<u64, SbiError>)
        requires
            old(self).wf(),
            old(page_map).wf(),
        ensures
            final(self).wf(),
            final(page_map).wf(),
            add_pte_post(
                *old(self),
                *old(page_map),
                guest_id,
                from_addr,
                num_pages,
                *final(self),
                *final(page_map),
                r,
            ),
    {
        let from_page_addr = match PageAddr::new_4k(from_addr) {
            Some(a) => a,
            None => {
                return Err(SbiError::InvalidAddress);
            },
        };
        let vm_pages = &self.vm_pages;
        match &mut self.guests {
            None => Err(SbiError::InvalidParam),
            Some(g) => {
                let idx = match g.get_guest_index(guest_id) {
                    Ok(i) => i,
                    Err(e) => {
                        proof {
                            if guest_id >= crate::ids::FIRST_GUEST_ID {
                                if exists|i: int| find_guest_at(g.inner@, guest_id, i) {
                                    let i = choose|i: int| find_guest_at(g.inner@, guest_id, i);
                                    assert(g.inner@[i].spec_owner_raw() == guest_id);
                                }
                            }
                        }
                        return Err(e);
                    },
                };
                proof {
                    lemma_find_unique(g.inner@, guest_id, idx as int);
                }
                let is_init = matches!(&g.inner[idx], GuestState::Init(_));
                if !is_init {
                    return Err(SbiError::InvalidParam);
                }
                let entry = &mut g.inner[idx];
                match entry.init_mut() {
                    Some(grb) => {
                        match vm_pages.add_pte_pages_builder(
                            page_map,
                            from_page_addr,
                            num_pages,
                            grb,
                        ) {
                            Ok(_) => Ok(0),
                            Err(_) => {
                                proof {
                                    assert(g.inner@ =~= old(self).guests->Some_0.inner@);
                                }
                                Err(SbiError::InvalidAddress)
                            },
                        }
                    },
                    None => {
                        proof {
                            assert(false);
                        }
                        Err(SbiError::InvalidParam)
                    },
                }
            },
        }
    }

    /// Adds data pages owned by this VM to an initializing guest, mapping
    /// them at the given guest physical address and measuring them.
    pub fn guest_add_pages(
        &mut self,
        page_map: &mut PageMap,
        guest_id: u64,
        from_addr: u64,
        page_type: u64,
        num_pages: u64,
        to_addr: u64,
        measure_preserve: bool,
    ) -> (r: Result<u64, SbiError>)
        requires
            old(self).wf(),
            old(page_map).wf(),
        ensures
            final(self).wf(),
            final(page_map).wf(),
            add_pages_post(
                *old(self),
                *old(page_map),
                guest_id,
                from_addr,
                page_type,
                num_pages,
                to_addr,
                *final(self),
                *final(page_map),
                r,
            ),
    {
        if page_type > 3 {
            // Huge mappings would have to be broken up; ownership is
            // tracked per 4 KiB frame either way.
            return Err(SbiError::InvalidParam);
        }
        let from_page_addr = match PageAddr::new_4k(from_addr) {
            Some(a) => a,
            None => {
                return Err(SbiError::InvalidAddress);
            },
        };
        let to_page_addr = match PageAddr::new_4k(to_addr) {
            Some(a) => a,
            None => {
                return Err(SbiError::InvalidAddress);
            },
        };
        let vm_pages = &self.vm_pages;
        match &mut self.guests {
            None => Err(SbiError::InvalidParam),
            Some(g) => {
                let idx = match g.get_guest_index(guest_id) {
                    Ok(i) => i,
                    Err(e) => {
                        proof {
                            if guest_id >= crate::ids::FIRST_GUEST_ID {
                                if exists|i: int| find_guest_at(g.inner@, guest_id, i) {
                                    let i = choose|i: int| find_guest_at(g.inner@, guest_id, i);
                                    assert(g.inner@[i].spec_owner_raw() == guest_id);
                                }
                            }
                        }
                        return Err(e);
                    },
                };
                proof {
                    lemma_find_unique(g.inner@, guest_id, idx as int);
                }
                let is_init = matches!(&g.inner[idx], GuestState::Init(_));
                if !is_init {
                    return Err(SbiError::InvalidParam);
                }
                let entry = &mut g.inner[idx];
                match entry.init_mut() {
                    Some(grb) => {
                        match vm_pages.add_4k_pages_builder(
                            page_map,
                            from_page_addr,
                            num_pages,
                            grb,
                            to_page_addr,
                            measure_preserve,
                        ) {
                            Ok(_) => Ok(num_pages),
                            Err(_) => {
                                proof {
                                    assert(g.inner@ =~= old(self).guests->Some_0.inner@);
                                }
                                Err(SbiError::InvalidParam)
                            },
                        }
                    },
                    None => {
                        proof {
                            assert(false);
                        }
                        Err(SbiError::InvalidParam)
                    },
                }
            },
        }
    }

    /// Unmaps pages of a running guest, returning their frames to this
    /// VM. The remap address of the wire call is accepted but unused.
    pub fn guest_rm_pages(
        &mut self,
        page_map: &mut PageMap,
        guest_id: u64,
        gpa: u64,
        num_pages: u64,
    ) -> (r: Result<u64, SbiError>)
        requires
            old(self).wf(),
            old(page_map).wf(),
        ensures
            final(self).wf(),
            final(page_map).wf(),
            rm_pages_post(
                *old(self),
                *old(page_map),
                guest_id,
                gpa,
                num_pages,
                *final(self),
                *final(page_map),
                r,
            ),
    {
        let from_page_addr = match PageAddr::new_4k(gpa) {
            Some(a) => a,
            None => {
                return Err(SbiError::InvalidAddress);
            },
        };
        match &mut self.guests {
            None => Err(SbiError::InvalidParam),
            Some(g) => {
                let idx = match g.get_guest_index(guest_id) {
                    Ok(i) => i,
                    Err(e) => {
                        proof {
                            if guest_id >= crate::ids::FIRST_GUEST_ID {
                                if exists|i: int| find_guest_at(g.inner@, guest_id, i) {
                                    let i = choose|i: int| find_guest_at(g.inner@, guest_id, i);
                                    assert(g.inner@[i].spec_owner_raw() == guest_id);
                                }
                            }
                        }
                        return Err(e);
                    },
                };
                proof {
                    lemma_find_unique(g.inner@, guest_id, idx as int);
                }
                let is_running = matches!(&g.inner[idx], GuestState::Running(_));
                if !is_running {
                    return Err(SbiError::InvalidParam);
                }
                let entry = &mut g.inner[idx];
                match entry.vm_mut() {
                    Some(vm) => {
                        match vm.vm_pages.remove_4k_pages(page_map, from_page_addr, num_pages) {
                            Ok(n) => Ok(n),
                            Err(_) => {
                                proof {
                                    assert(g.inner@ =~= old(self).guests->Some_0.inner@);
                                }
                                Err(SbiError::InvalidAddress)
                            },
                        }
                    },
                    None => {
                        proof {
                            assert(false);
                        }
                        Err(SbiError::InvalidParam)
                    },
                }
            },
        }
    }

    /// Returns the digest of a guest's measurement for delivery into a
    /// 4 KiB page owned by this VM. Version and type must both be 1.
    pub fn guest_get_measurement(
        &self,
        page_map: &PageMap,
        guest_id: u64,
        measurement_version: u64,
        measurement_type: u64,
        page_addr: u64,
    ) -> (r: Result<(u64, u32), SbiError>)
        requires
            self.wf(),
            page_map.wf(),
        ensures
            measurement_post(
                *self,
                *page_map,
                guest_id,
                measurement_version,
                measurement_type,
                page_addr,
                r,
            ),
    {
        if measurement_version != 1 || measurement_type != 1 {
            return Err(SbiError::InvalidParam);
        }
        let page = match PageAddr::new_4k(page_addr) {
            Some(a) => a,
            None => {
                return Err(SbiError::InvalidParam);
            },
        };
        match &self.guests {
            None => Err(SbiError::InvalidParam),
            Some(g) => {
                let idx = match g.get_guest_index(guest_id) {
                    Ok(i) => i,
                    Err(e) => {
                        return Err(e);
                    },
                };
                proof {
                    lemma_find_unique(g.inner@, guest_id, idx as int);
                }
                if !crate::vm_pages::check_page_owned_by(
                    page_map,
                    page.index(),
                    self.vm_pages.page_owner_id(),
                ) {
                    return Err(SbiError::InvalidAddress);
                }
                let digest = match &g.inner[idx] {
                    GuestState::Init(b) => b.vm_pages.measurement_digest(),
                    GuestState::Running(vm) => vm.vm_pages.measurement_digest(),
                    GuestState::Temp => {
                        proof {
                            assert(false);
                        }
                        0
                    },
                };
                Ok((0, digest))
            },
        }
    }

    /// Handles an access fault: a returned page is demand-faulted back
    /// into this VM's address space.
    pub fn handle_guest_fault(&mut self, page_map: &mut PageMap) -> (r: Result<
        (),
        crate::vm_pages::VmPagesError,
    >)
        requires
            old(self).wf(),
            old(page_map).wf(),
        ensures
            final(self).wf(),
            final(page_map).wf(),
            final(self).info == old(self).info,
            final(self).guests == old(self).guests,
            final(self).has_run == old(self).has_run,
            crate::vm_pages::page_fault_post(
                old(self).vm_pages,
                *old(page_map),
                spec_fault_addr(old(self).info.csrs),
                final(self).vm_pages,
                *final(page_map),
                r,
            ),
    {
        let csrs = self.info.csrs;
        let fault_addr = (csrs.htval << 2u64) | (csrs.stval & 3);
        self.vm_pages.handle_page_fault(page_map, fault_addr)
    }
}

/// The faulting guest physical address a trap reports, reassembled from
/// `htval` and the low bits of `stval`.
pub open spec fn spec_fault_addr(csrs: VmCsrs) -> u64 {
    (csrs.htval << 2u64) | (csrs.stval & 3)
}

/// An outside action the embedder must perform after a TEE call was
/// dispatched: the dispatcher itself never touches hardware.
#[derive(Clone, Copy, Debug, PartialEq, Eq, Structural)]
pub enum TeeAction {
    /// Nothing beyond the register results.
    NoOp,
    /// Enter the given guest hart until it traps.
    EnterGuest(u64),
    /// Write the digest into the 4 KiB page at the given address.
    DeliverMeasurement { page_addr: u64, digest: u32 },
}

/// The register results of a dispatched call: an error code in A0 and a
/// return value in A1.
pub open spec fn sbi_ret_of(r: Result<u64, SbiError>) -> SbiReturn {
    match r {
        Ok(v) => SbiReturn { error_code: crate::sbi::SBI_SUCCESS, return_value: v },
        Err(e) => SbiReturn { error_code: e.spec_code(), return_value: 0 },
    }
}

/// The exact contract of [`Vm::handle_tee_msg`]: each TEE function is
/// routed to its operation, whose result is encoded as an `SbiReturn`,
/// together with the outside action the embedder must perform.
pub open spec fn tee_dispatch_post(
    pre: Vm,
    prepm: PageMap,
    f: TeeFunction,
    post: Vm,
    postpm: PageMap,
    ret: SbiReturn,
    action: TeeAction,
) -> bool {
    match f {
        TeeFunction::TvmCreate(donor) => exists|rr: Result<u64, SbiError>|
            #[trigger] add_guest_post(pre, prepm, donor, post, postpm, rr) && ret == sbi_ret_of(rr)
                && action == TeeAction::NoOp,
        TeeFunction::TvmDestroy { guest_id } => exists|rr: Result<u64, SbiError>|
            #[trigger] destroy_guest_post(pre, prepm, guest_id, post, postpm, rr) && ret
                == sbi_ret_of(rr) && action == TeeAction::NoOp,
        TeeFunction::AddPageTablePages { guest_id, page_addr, num_pages } => exists|
            rr: Result<u64, SbiError>,
        |
            #[trigger] add_pte_post(pre, prepm, guest_id, page_addr, num_pages, post, postpm, rr)
                && ret == sbi_ret_of(rr) && action == TeeAction::NoOp,
        TeeFunction::AddPages {
            guest_id,
            page_addr,
            page_type,
            num_pages,
            gpa,
            measure_preserve,
        } => exists|rr: Result<u64, SbiError>|
            #[trigger] add_pages_post(
                pre,
                prepm,
                guest_id,
                page_addr,
                page_type,
                num_pages,
                gpa,
                post,
                postpm,
                rr,
            ) && ret == sbi_ret_of(rr) && action == TeeAction::NoOp,
        TeeFunction::Finalize { guest_id } => exists|rr: Result<u64, SbiError>|
            #[trigger] finalize_post(pre, guest_id, post, rr) && same_page_map(prepm, postpm)
                && ret == sbi_ret_of(rr) && action == TeeAction::NoOp,
        TeeFunction::Run { guest_id } => exists|rr: Result<u64, SbiError>|
            #[trigger] run_post(pre, guest_id, post, rr) && same_page_map(prepm, postpm) && ret
                == sbi_ret_of(rr) && (rr is Ok ==> action == TeeAction::EnterGuest(guest_id)) && (
            rr is Err ==> action == TeeAction::NoOp),
        TeeFunction::RemovePages { guest_id, gpa, remap_addr, num_pages } => exists|
            rr: Result<u64, SbiError>,
        |
            #[trigger] rm_pages_post(pre, prepm, guest_id, gpa, num_pages, post, postpm, rr) && ret
                == sbi_ret_of(rr) && action == TeeAction::NoOp,
        TeeFunction::GetGuestMeasurement {
            guest_id,
            measurement_version,
            measurement_type,
            page_addr,
        } => exists|rr: Result<(u64, u32), SbiError>|
            #[trigger] measurement_post(
                pre,
                prepm,
                guest_id,
                measurement_version,
                measurement_type,
                page_addr,
                rr,
            ) && same_vm_state(pre, post) && same_page_map(prepm, postpm) && match rr {
                Ok(p) => ret == (SbiReturn {
                    error_code: crate::sbi::SBI_SUCCESS,
                    return_value: p.0,
                }) && action == (TeeAction::DeliverMeasurement { page_addr, digest: p.1 }),
                Err(e) => ret == (SbiReturn { error_code: e.spec_code(), return_value: 0 })
                    && action == TeeAction::NoOp,
            },
    }
}

impl Vm {
    /// Routes one decoded TEE call to its lifecycle operation and encodes
    /// the result for the caller's A0/A1 registers, together with the
    /// outside action the embedder must perform.
    pub fn handle_tee_msg(&mut self, page_map: &mut PageMap, tee_func: TeeFunction) -> (r: (
        SbiReturn,
        TeeAction,
    ))
        requires
            old(self).wf(),
            old(page_map).wf(),
        ensures
            final(self).wf(),
            final(page_map).wf(),
            tee_dispatch_post(
                *old(self),
                *old(page_map),
                tee_func,
                *final(self),
                *final(page_map),
                r.0,
                r.1,
            ),
    {
        match tee_func {
            TeeFunction::TvmCreate(state_page) => {
                let rr = self.add_guest(page_map, state_page);
                (SbiReturn::from(rr), TeeAction::NoOp)
            },
            TeeFunction::TvmDestroy { guest_id } => {
                let rr = self.destroy_guest(page_map, guest_id);
                (SbiReturn::from(rr), TeeAction::NoOp)
            },
            TeeFunction::AddPageTablePages { guest_id, page_addr, num_pages } => {
                let rr = self.guest_add_page_table_pages(page_map, guest_id, page_addr, num_pages);
                (SbiReturn::from(rr), TeeAction::NoOp)
            },
            TeeFunction::AddPages {
                guest_id,
                page_addr,
                page_type,
                num_pages,
                gpa,
                measure_preserve,
            } => {
                let rr = self.guest_add_pages(
                    page_map,
                    guest_id,
                    page_addr,
                    page_type,
                    num_pages,
                    gpa,
                    measure_preserve,
                );
                (SbiReturn::from(rr), TeeAction::NoOp)
            },
            TeeFunction::Finalize { guest_id } => {
                let rr = self.guest_finalize(guest_id);
                (SbiReturn::from(rr), TeeAction::NoOp)
            },
            TeeFunction::Run { guest_id } => {
                let rr = self.guest_run(guest_id);
                let action = if rr.is_ok() {
                    TeeAction::EnterGuest(guest_id)
                } else {
                    TeeAction::NoOp
                };
                (SbiReturn::from(rr), action)
            },
            TeeFunction::RemovePages { guest_id, gpa, remap_addr: _, num_pages } => {
                let rr = self.guest_rm_pages(page_map, guest_id, gpa, num_pages);
                (SbiReturn::from(rr), TeeAction::NoOp)
            },
            TeeFunction::GetGuestMeasurement {
                guest_id,
                measurement_version,
                measurement_type,
                page_addr,
            } => {
                let rr = self.guest_get_measurement(
                    page_map,
                    guest_id,
                    measurement_version,
                    measurement_type,
                    page_addr,
                );
                match rr {
                    Ok(p) => (
                        SbiReturn::success(p.0),
                        TeeAction::DeliverMeasurement { page_addr, digest: p.1 },
                    ),
                    Err(e) => (SbiReturn::from(e), TeeAction::NoOp),
                }
            },
        }
    }
}

/// The outcome of handling an ecall from a guest: either the call was
/// completed in place (with a possible outside action), or the embedder
/// must print a legacy console byte, or power off.
#[derive(Clone, Copy, Debug, PartialEq, Eq, Structural)]
pub enum EcallOutcome {
    /// Legacy console write: print the byte, then resume the guest with
    /// its registers untouched.
    PutChar(u64),
    /// A reset was requested: power the system off.
    Shutdown,
    /// Handled: A0/A1 carry the results, and the embedder performs the
    /// action.
    Complete(TeeAction),
}

/// The exact contract of [`Vm::handle_ecall`]: how the message decoded
/// from the caller's registers determines the outcome, the new register
/// values, and (for TEE calls) the dispatched state change.
pub open spec fn ecall_post(
    pre: Vm,
    prepm: PageMap,
    post: Vm,
    postpm: PageMap,
    r: EcallOutcome,
) -> bool {
    let msg = SbiMessage::spec_from_regs(pre.info.gprs.regs@);
    &&& post.info.csrs == pre.info.csrs
    &&& post.info.sp == pre.info.sp
    &&& (match msg {
        Err(e) => {
            &&& r == EcallOutcome::Complete(TeeAction::NoOp)
            &&& post.info.gprs.regs@ == pre.info.gprs.regs@.update(
                GprIndex::A0.spec_index(),
                e.spec_code() as u64,
            )
            &&& post.vm_pages == pre.vm_pages
            &&& post.guests == pre.guests
            &&& post.has_run == pre.has_run
            &&& same_page_map(prepm, postpm)
        },
        Ok(m) => match m {
            SbiMessage::PutChar(c) => {
                &&& r == EcallOutcome::PutChar(c)
                &&& post.info.gprs == pre.info.gprs
                &&& post.vm_pages == pre.vm_pages
                &&& post.guests == pre.guests
                &&& post.has_run == pre.has_run
                &&& same_page_map(prepm, postpm)
            },
            SbiMessage::Reset(_) => {
                &&& r == EcallOutcome::Shutdown
                &&& post.info.gprs == pre.info.gprs
                &&& post.vm_pages == pre.vm_pages
                &&& post.guests == pre.guests
                &&& post.has_run == pre.has_run
                &&& same_page_map(prepm, postpm)
            },
            SbiMessage::Base(_) => {
                &&& r == EcallOutcome::Complete(TeeAction::NoOp)
                &&& post.info.gprs.regs@ == pre.info.gprs.regs@.update(
                    GprIndex::A0.spec_index(),
                    SbiError::NotSupported.spec_code() as u64,
                )
                &&& post.vm_pages == pre.vm_pages
                &&& post.guests == pre.guests
                &&& post.has_run == pre.has_run
                &&& same_page_map(prepm, postpm)
            },
            SbiMessage::HartState(_) => {
                &&& r == EcallOutcome::Complete(TeeAction::NoOp)
                &&& post.info.gprs.regs@ == pre.info.gprs.regs@.update(
                    GprIndex::A0.spec_index(),
                    SbiError::NotSupported.spec_code() as u64,
                )
                &&& post.vm_pages == pre.vm_pages
                &&& post.guests == pre.guests
                &&& post.has_run == pre.has_run
                &&& same_page_map(prepm, postpm)
            },
            SbiMessage::Tee(f) => exists|ret: SbiReturn, action: TeeAction|
                {
                    &&& #[trigger] tee_dispatch_post(
                        pre,
                        prepm,
                        f,
                        Vm {
                            info: pre.info,
                            vm_pages: post.vm_pages,
                            guests: post.guests,
                            has_run: post.has_run,
                        },
                        postpm,
                        ret,
                        action,
                    )
                    &&& post.info.gprs.regs@ == pre.info.gprs.regs@.update(
                        GprIndex::A0.spec_index(),
                        ret.error_code as u64,
                    ).update(GprIndex::A1.spec_index(), ret.return_value)
                    &&& r == EcallOutcome::Complete(action)
                },
        },
    })
}

impl Vm {
    /// Handles an ecall from the guest: decodes the SBI message from the
    /// saved registers, dispatches it, and writes the error code to A0 and
    /// the return value to A1 (legacy calls leave the registers as they
    /// are).
    pub fn handle_ecall(&mut self, page_map: &mut PageMap) -> (r: EcallOutcome)
        requires
            old(self).wf(),
            old(page_map).wf(),
        ensures
            final(self).wf(),
            final(page_map).wf(),
            ecall_post(*old(self), *old(page_map), *final(self), *final(page_map), r),
    {
        let msg = match SbiMessage::from_regs(&self.info.gprs) {
            Ok(m) => m,
            Err(e) => {
                let code = e.to_code();
                self.info.gprs.set_reg(GprIndex::A0, code as u64);
                return EcallOutcome::Complete(TeeAction::NoOp);
            },
        };
        match msg {
            SbiMessage::PutChar(c) => EcallOutcome::PutChar(c),
            SbiMessage::Reset(_) => EcallOutcome::Shutdown,
            SbiMessage::Base(_) => {
                let code = SbiError::NotSupported.to_code();
                self.info.gprs.set_reg(GprIndex::A0, code as u64);
                EcallOutcome::Complete(TeeAction::NoOp)
            },
            SbiMessage::HartState(_) => {
                let code = SbiError::NotSupported.to_code();
                self.info.gprs.set_reg(GprIndex::A0, code as u64);
                EcallOutcome::Complete(TeeAction::NoOp)
            },
            SbiMessage::Tee(tee_func) => {
                let (sbi_ret, action) = self.handle_tee_msg(page_map, tee_func);
                let ghost mid = *self;
                self.info.gprs.set_reg(GprIndex::A0, sbi_ret.error_code as u64);
                self.info.gprs.set_reg(GprIndex::A1, sbi_ret.return_value);
                proof {
                    assert(mid == (Vm {
                        info: old(self).info,
                        vm_pages: self.vm_pages,
                        guests: self.guests,
                        has_run: self.has_run,
                    }));
                }
                EcallOutcome::Complete(action)
            },
        }
    }
}

/// What the embedder must do after one guest trap has been handled.
#[derive(Clone, Copy, Debug, PartialEq, Eq, Structural)]
pub enum RunDecision {
    /// Re-enter the guest.
    Resume,
    /// Print the legacy console byte, then re-enter the guest.
    ResumePutChar(u64),
    /// Power the system off.
    Poweroff,
    /// Enter the given nested guest hart until it traps, then re-enter.
    EnterGuest(u64),
    /// Write the digest into the 4 KiB page at the given address, then
    /// re-enter the guest.
    DeliverMeasurement { page_addr: u64, digest: u32 },
    /// Surface the trap to the caller.
    Exit(Trap),
}

/// The decision an ecall outcome maps to.
pub open spec fn decision_of_outcome(out: EcallOutcome) -> RunDecision {
    match out {
        EcallOutcome::PutChar(c) => RunDecision::ResumePutChar(c),
        EcallOutcome::Shutdown => RunDecision::Poweroff,
        EcallOutcome::Complete(TeeAction::NoOp) => RunDecision::Resume,
        EcallOutcome::Complete(TeeAction::EnterGuest(g)) => RunDecision::EnterGuest(g),
        EcallOutcome::Complete(TeeAction::DeliverMeasurement { page_addr, digest }) => (
        RunDecision::DeliverMeasurement { page_addr, digest }),
    }
}

impl Vm {
    /// Handles one trap taken while this VM's guest was executing and
    /// decides how the embedder's run loop continues: ecalls are
    /// dispatched (and `sepc` advanced past the ecall), guest page faults
    /// are demand-faulted, and every other trap is surfaced to the caller.
    /// The embedder performs the returned decision and re-enters the guest
    /// where the decision says so.
    pub fn handle_exit(&mut self, page_map: &mut PageMap, trap: Trap) -> (r: RunDecision)
        requires
            old(self).wf(),
            old(page_map).wf(),
        ensures
            final(self).wf(),
            final(page_map).wf(),
            trap == Trap::Exception(crate::regs::Exception::VirtualSupervisorEnvCall) ==> exists|
                out: EcallOutcome,
            |
                {
                    &&& #[trigger] ecall_post(
                        *old(self),
                        *old(page_map),
                        Vm {
                            info: VmCpuState {
                                sp: final(self).info.sp,
                                csrs: old(self).info.csrs,
                                gprs: final(self).info.gprs,
                            },
                            vm_pages: final(self).vm_pages,
                            guests: final(self).guests,
                            has_run: final(self).has_run,
                        },
                        *final(page_map),
                        out,
                    )
                    &&& final(self).info.csrs == (VmCsrs {
                        sepc: vstd::wrapping::u64_specs::wrapping_add(old(self).info.csrs.sepc, 4),
                        ..old(self).info.csrs
                    })
                    &&& r == decision_of_outcome(out)
                },
            (trap == Trap::Exception(crate::regs::Exception::GuestInstructionPageFault) || trap
                == Trap::Exception(crate::regs::Exception::GuestLoadPageFault) || trap
                == Trap::Exception(crate::regs::Exception::GuestStorePageFault)) ==> {
                &&& final(self).info == old(self).info
                &&& final(self).guests == old(self).guests
                &&& final(self).has_run == old(self).has_run
                &&& crate::vm_pages::page_fault_post(
                    old(self).vm_pages,
                    *old(page_map),
                    spec_fault_addr(old(self).info.csrs),
                    final(self).vm_pages,
                    *final(page_map),
                    if r == RunDecision::Resume {
                        Ok::<(), crate::vm_pages::VmPagesError>(())
                    } else {
                        Err::<(), crate::vm_pages::VmPagesError>(
                            crate::vm_pages::VmPagesError::NotReclaimable,
                        )
                    },
                ) || (r == RunDecision::Exit(trap) && final(self).vm_pages == old(self).vm_pages
                    && same_page_map(*old(page_map), *final(page_map)))
                &&& (r == RunDecision::Resume || r == RunDecision::Exit(trap))
            },
            !(trap == Trap::Exception(crate::regs::Exception::VirtualSupervisorEnvCall) || trap
                == Trap::Exception(crate::regs::Exception::GuestInstructionPageFault) || trap
                == Trap::Exception(crate::regs::Exception::GuestLoadPageFault) || trap
                == Trap::Exception(crate::regs::Exception::GuestStorePageFault)) ==> r
                == RunDecision::Exit(trap) && *final(self) == *old(self) && *final(page_map)
                == *old(page_map),
    {
        match trap {
            Trap::Exception(crate::regs::Exception::VirtualSupervisorEnvCall) => {
                let out = self.handle_ecall(page_map);
                let ghost mid = *self;
                // Return to the instruction after the ecall.
                self.inc_sepc_ecall();
                let r = match out {
                    EcallOutcome::PutChar(c) => RunDecision::ResumePutChar(c),
                    EcallOutcome::Shutdown => RunDecision::Poweroff,
                    EcallOutcome::Complete(TeeAction::NoOp) => RunDecision::Resume,
                    EcallOutcome::Complete(TeeAction::EnterGuest(g)) => RunDecision::EnterGuest(g),
                    EcallOutcome::Complete(TeeAction::DeliverMeasurement { page_addr, digest }) => (
                    RunDecision::DeliverMeasurement { page_addr, digest }),
                };
                proof {
                    assert(mid == (Vm {
                        info: VmCpuState {
                            sp: self.info.sp,
                            csrs: old(self).info.csrs,
                            gprs: self.info.gprs,
                        },
                        vm_pages: self.vm_pages,
                        guests: self.guests,
                        has_run: self.has_run,
                    }));
                }
                r
            },
            Trap::Exception(crate::regs::Exception::GuestInstructionPageFault) => {
                if self.handle_guest_fault(page_map).is_err() {
                    RunDecision::Exit(trap)
                } else {
                    RunDecision::Resume
                }
            },
            Trap::Exception(crate::regs::Exception::GuestLoadPageFault) => {
                if self.handle_guest_fault(page_map).is_err() {
                    RunDecision::Exit(trap)
                } else {
                    RunDecision::Resume
                }
            },
            Trap::Exception(crate::regs::Exception::GuestStorePageFault) => {
                if self.handle_guest_fault(page_map).is_err() {
                    RunDecision::Exit(trap)
                } else {
                    RunDecision::Resume
                }
            },
            _ => RunDecision::Exit(trap),
        }
    }
}

/// The page state of the host VM, produced by the boot sequence.
pub struct HostRootPages {
    pub inner: VmPages,
}

impl HostRootPages {
    /// The host VM's page state.
    pub fn into_inner(self) -> (r: VmPages)
        ensures
            r == self.inner,
    {
        self.inner
    }
}

/// The special VM that serves as the host for the system.
pub struct Host {
    pub inner: Vm,
}

impl Host {
    /// Structural invariant of the underlying VM.
    pub open spec fn wf(self) -> bool {
        self.inner.wf()
    }

    /// Creates a new `Host` using the given page state. `pages` dedicates
    /// space for tracking guests: its capacity limits how many nested
    /// guests can be created.
    pub fn new(page_root: HostRootPages, pages: SequentialPages) -> (r: Self)
        requires
            page_root.inner.wf(),
        ensures
            r.wf(),
            is_boot_vm(
                Vm {
                    info: r.inner.info,
                    vm_pages: r.inner.vm_pages,
                    guests: None,
                    has_run: r.inner.has_run,
                },
                page_root.inner,
            ),
            r.inner.guests matches Some(g) && g.inner@.len() == 0 && g.capacity
                == tracking_capacity(pages.num_pages),
    {
        let mut inner = Vm::new(page_root.into_inner());
        inner.add_guest_tracking_pages(pages);
        Self { inner }
    }

    /// Passes the device-tree address to the host VM in A1.
    pub fn add_device_tree(&mut self, dt_addr: u64)
        ensures
            final(self).inner.info.gprs.regs@ == old(self).inner.info.gprs.regs@.update(
                GprIndex::A1.spec_index(),
                dt_addr,
            ),
            final(self).inner.info.csrs == old(self).inner.info.csrs,
            final(self).inner.vm_pages == old(self).inner.vm_pages,
            final(self).inner.guests == old(self).inner.guests,
    {
        self.inner.add_device_tree(dt_addr)
    }

    /// Sets the address the host starts executing at.
    pub fn set_entry_address(&mut self, entry_addr: u64)
        ensures
            final(self).inner == (Vm {
                info: VmCpuState {
                    csrs: VmCsrs { sepc: entry_addr, ..old(self).inner.info.csrs },
                    ..old(self).inner.info
                },
                ..old(self).inner
            }),
    {
        self.inner.set_entry_address(entry_addr);
    }

    /// Handles one trap taken while the host was executing and decides
    /// how the embedder's run loop continues. The embedder enters the
    /// host hart, hands every trap here, performs the returned decision,
    /// and re-enters until the decision says to stop.
    pub fn handle_exit(&mut self, page_map: &mut PageMap, trap: Trap) -> (r: RunDecision)
        requires
            old(self).wf(),
            old(page_map).wf(),
        ensures
            final(self).wf(),
            final(page_map).wf(),
            trap == Trap::Exception(crate::regs::Exception::VirtualSupervisorEnvCall) ==> exists|
                out: EcallOutcome,
            |
                {
                    &&& #[trigger] ecall_post(
                        old(self).inner,
                        *old(page_map),
                        Vm {
                            info: VmCpuState {
                                sp: final(self).inner.info.sp,
                                csrs: old(self).inner.info.csrs,
                                gprs: final(self).inner.info.gprs,
                            },
                            vm_pages: final(self).inner.vm_pages,
                            guests: final(self).inner.guests,
                            has_run: final(self).inner.has_run,
                        },
                        *final(page_map),
                        out,
                    )
                    &&& final(self).inner.info.csrs == (VmCsrs {
                        sepc: vstd::wrapping::u64_specs::wrapping_add(
                            old(self).inner.info.csrs.sepc,
                            4,
                        ),
                        ..old(self).inner.info.csrs
                    })
                    &&& r == decision_of_outcome(out)
                },
            !(trap == Trap::Exception(crate::regs::Exception::VirtualSupervisorEnvCall) || trap
                == Trap::Exception(crate::regs::Exception::GuestInstructionPageFault) || trap
                == Trap::Exception(crate::regs::Exception::GuestLoadPageFault) || trap
                == Trap::Exception(crate::regs::Exception::GuestStorePageFault)) ==> r
                == RunDecision::Exit(trap) && final(self).inner == old(self).inner
                && *final(page_map) == *old(page_map),
    {
        self.inner.handle_exit(page_map, trap)
    }
}

} // verus!
