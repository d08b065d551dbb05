use salus_core::ids::{PageOwnerId, PageTrackingError};
use salus_core::mem_map::{HwMemMapBuilder, PageAddr};
use salus_core::page_map::PageMap;
use salus_core::regs::{GprIndex, Trap};
use salus_core::sbi::{Error as SbiError, EXT_PUT_CHAR, EXT_RESET, EXT_TEE};
use salus_core::vm::{
    Host, HostRootPages, RunDecision, SequentialPages, Vm,
};
use salus_core::vm_pages::{GuestRootBuilder, VmPages, VmPagesError};

const PAGE: u64 = 4096;
const BASE: u64 = 0x1000_0000;
const REGION: u64 = 0x10_0000;
const PTE_BASE: u64 = BASE + 0x8000;
const DATA_BASE: u64 = BASE + 0x1_0000;
const MEAS_PAGE: u64 = BASE + 0x2_0000;
const GPA: u64 = 0x8000_0000;

/// A directory over one region whose every frame the host VM owns, and a
/// host VM with room to track guests.
fn setup() -> (PageMap, Vm) {
    let mem_map = HwMemMapBuilder::new(PAGE)
        .add_memory_region(BASE, REGION)
        .unwrap()
        .build();
    let mut pm = PageMap::new(Vec::new());
    pm.populate_from(&mem_map);
    for i in 0..(REGION / PAGE) {
        let addr = PageAddr::new_4k(BASE + i * PAGE).unwrap();
        pm.get_mut(addr)
            .unwrap()
            .push_owner(PageOwnerId::host())
            .unwrap();
    }
    let mut host = Vm::new(VmPages::new(PageOwnerId::host(), BASE));
    host.add_guest_tracking_pages(SequentialPages { base: BASE, num_pages: 1 });
    (pm, host)
}

fn owner_at(pm: &PageMap, addr: u64) -> PageOwnerId {
    pm.get(PageAddr::new_4k(addr).unwrap())
        .unwrap()
        .owner()
        .unwrap()
}

#[test]
fn tee_lifecycle() {
    let (mut pm, mut host) = setup();
    let id = host.add_guest(&mut pm, BASE).unwrap();
    assert_eq!(id, 2);
    // The five donor pages moved from the host to the new guest.
    for i in 0..5 {
        assert_eq!(owner_at(&pm, BASE + i * PAGE), PageOwnerId::new(id).unwrap());
    }
    assert_eq!(owner_at(&pm, BASE + 5 * PAGE), PageOwnerId::host());

    host.guest_add_page_table_pages(&mut pm, id, PTE_BASE, 4).unwrap();
    assert_eq!(owner_at(&pm, PTE_BASE), PageOwnerId::new(id).unwrap());

    assert_eq!(
        host.guest_add_pages(&mut pm, id, DATA_BASE, 0, 4, GPA, false).unwrap(),
        4
    );
    assert_eq!(owner_at(&pm, DATA_BASE + 3 * PAGE), PageOwnerId::new(id).unwrap());

    host.guest_finalize(id).unwrap();
    assert_eq!(host.guest_run(id).unwrap(), 0);

    let (rv, digest) = host
        .guest_get_measurement(&pm, id, 1, 1, MEAS_PAGE)
        .unwrap();
    assert_eq!(rv, 0);
    let expected = {
        let mut m: u64 = 0;
        for j in 0..4u64 {
            m = (m ^ (GPA + j * PAGE)).wrapping_mul(0x100_0000_01B3);
        }
        m as u32
    };
    assert_eq!(digest, expected);

    // Destroying the guest pops its claim off every page it held.
    host.destroy_guest(&mut pm, id).unwrap();
    assert_eq!(owner_at(&pm, BASE), PageOwnerId::host());
    assert_eq!(owner_at(&pm, PTE_BASE), PageOwnerId::host());
    assert_eq!(owner_at(&pm, DATA_BASE), PageOwnerId::host());
    // The registry no longer knows the guest.
    assert!(host.guest_run(id).is_err());
}

#[test]
fn remove_pages_reverts_ownership() {
    let (mut pm, mut host) = setup();
    let id = host.add_guest(&mut pm, BASE).unwrap();
    host.guest_add_pages(&mut pm, id, DATA_BASE, 0, 4, GPA, false).unwrap();
    host.guest_finalize(id).unwrap();
    assert_eq!(host.guest_rm_pages(&mut pm, id, GPA, 2).unwrap(), 2);
    // The two unmapped frames went back to the host; the others stayed.
    assert_eq!(owner_at(&pm, DATA_BASE), PageOwnerId::host());
    assert_eq!(owner_at(&pm, DATA_BASE + PAGE), PageOwnerId::host());
    assert_eq!(owner_at(&pm, DATA_BASE + 2 * PAGE), PageOwnerId::new(id).unwrap());
    // Unmapping an address that was never mapped fails.
    assert_eq!(
        host.guest_rm_pages(&mut pm, id, GPA + 0x10_0000, 1).unwrap_err(),
        SbiError::InvalidAddress
    );
}

#[test]
fn protocol_misuse_is_rejected() {
    let (mut pm, mut host) = setup();
    let id = host.add_guest(&mut pm, BASE).unwrap();
    // Run before Finalize: InvalidParam.
    assert_eq!(host.guest_run(id).unwrap_err(), SbiError::InvalidParam);
    // AddPages before Finalize: OK (huge page types are accepted up to 3).
    host.guest_add_pages(&mut pm, id, DATA_BASE, 1, 1, GPA, false).unwrap();
    // page_type = 4: InvalidParam.
    assert_eq!(
        host.guest_add_pages(&mut pm, id, DATA_BASE + PAGE, 4, 1, GPA + PAGE, false)
            .unwrap_err(),
        SbiError::InvalidParam
    );
    host.guest_finalize(id).unwrap();
    // AddPages after Finalize: InvalidParam.
    assert_eq!(
        host.guest_add_pages(&mut pm, id, DATA_BASE + PAGE, 0, 1, GPA + PAGE, false)
            .unwrap_err(),
        SbiError::InvalidParam
    );
    // GetGuestMeasurement with version = 2: InvalidParam.
    assert_eq!(
        host.guest_get_measurement(&pm, id, 2, 1, MEAS_PAGE).unwrap_err(),
        SbiError::InvalidParam
    );
    // Destroying an unknown guest: InvalidParam.
    assert_eq!(host.destroy_guest(&mut pm, 99).unwrap_err(), SbiError::InvalidParam);
}

#[test]
fn donor_pages_must_be_usable() {
    let (mut pm, mut host) = setup();
    // Unaligned donor address.
    assert_eq!(
        host.add_guest(&mut pm, BASE + PAGE).unwrap_err(),
        SbiError::InvalidParam
    );
    assert_eq!(host.add_guest(&mut pm, BASE + 1).unwrap_err(), SbiError::InvalidAddress);
    // Donor pages outside the tracked region.
    assert_eq!(
        host.add_guest(&mut pm, 0x4000_0000).unwrap_err(),
        SbiError::InvalidParam
    );
    // A VM without a registry cannot create guests.
    let mut lone = Vm::new(VmPages::new(PageOwnerId::host(), BASE));
    assert_eq!(lone.add_guest(&mut pm, BASE).unwrap_err(), SbiError::InvalidParam);
}

#[test]
fn dispatcher_writes_results_to_registers() {
    let (mut pm, mut host) = setup();
    // A TvmCreate ecall from the guest's saved registers.
    host.info.gprs.set_reg(GprIndex::A7, EXT_TEE);
    host.info.gprs.set_reg(GprIndex::A6, 0);
    host.info.gprs.set_reg(GprIndex::A0, BASE);
    let ecall = Trap::from_scause(10).unwrap();
    let d = host.handle_exit(&mut pm, ecall);
    assert_eq!(d, RunDecision::Resume);
    assert_eq!(host.info.gprs.reg(GprIndex::A0), 0);
    assert_eq!(host.info.gprs.reg(GprIndex::A1), 2);
    assert_eq!(host.info.csrs.sepc, 4);

    // An unknown extension leaves an error code in A0.
    host.info.gprs.set_reg(GprIndex::A7, 0x99);
    let d = host.handle_exit(&mut pm, ecall);
    assert_eq!(d, RunDecision::Resume);
    assert_eq!(host.info.gprs.reg(GprIndex::A0), -3i64 as u64);

    // Legacy console writes and resets become embedder actions.
    host.info.gprs.set_reg(GprIndex::A7, EXT_PUT_CHAR);
    host.info.gprs.set_reg(GprIndex::A0, 72);
    assert_eq!(host.handle_exit(&mut pm, ecall), RunDecision::ResumePutChar(72));
    host.info.gprs.set_reg(GprIndex::A7, EXT_RESET);
    host.info.gprs.set_reg(GprIndex::A6, 0);
    host.info.gprs.set_reg(GprIndex::A0, 0);
    host.info.gprs.set_reg(GprIndex::A1, 0);
    assert_eq!(host.handle_exit(&mut pm, ecall), RunDecision::Poweroff);

    // Every other trap surfaces to the caller.
    let other = Trap::from_scause(2).unwrap();
    assert_eq!(host.handle_exit(&mut pm, other), RunDecision::Exit(other));
}

#[test]
fn host_wraps_the_boot_vm() {
    let (mut pm, _) = setup();
    let mut host = Host::new(
        HostRootPages { inner: VmPages::new(PageOwnerId::host(), BASE) },
        SequentialPages { base: BASE, num_pages: 1 },
    );
    host.set_entry_address(0x8020_0000);
    host.add_device_tree(0x8220_0000);
    assert_eq!(host.inner.info.csrs.sepc, 0x8020_0000);
    assert_eq!(host.inner.info.gprs.reg(GprIndex::A1), 0x8220_0000);
    let other = Trap::from_scause(1).unwrap();
    assert_eq!(host.handle_exit(&mut pm, other), RunDecision::Exit(other));
}

#[test]
fn demand_fault_reclaims_removed_page() {
    let (mut pm, _) = setup();
    let host_vp = VmPages::new(PageOwnerId::host(), BASE);
    let mut builder = GuestRootBuilder {
        vm_pages: VmPages::new(PageOwnerId::new(2).unwrap(), BASE),
    };
    let data = PageAddr::new_4k(DATA_BASE).unwrap();
    let gpa = PageAddr::new_4k(GPA).unwrap();
    host_vp
        .add_4k_pages_builder(&mut pm, data, 2, &mut builder, gpa, false)
        .unwrap();
    // Mapping the same guest address twice is refused.
    assert_eq!(
        host_vp
            .add_4k_pages_builder(&mut pm, data, 2, &mut builder, gpa, false)
            .unwrap_err(),
        VmPagesError::PageNotUsable
    );
    let spare = PageAddr::new_4k(DATA_BASE + 0x8000).unwrap();
    assert_eq!(
        host_vp
            .add_4k_pages_builder(&mut pm, spare, 1, &mut builder, gpa, false)
            .unwrap_err(),
        VmPagesError::AlreadyMapped
    );
    let mut guest_vp = builder.create_pages();
    guest_vp.remove_4k_pages(&mut pm, gpa, 1).unwrap();
    assert_eq!(owner_at(&pm, DATA_BASE), PageOwnerId::host());
    // A fault anywhere in the removed page re-establishes the mapping.
    guest_vp.handle_page_fault(&mut pm, GPA + 0x123).unwrap();
    assert_eq!(owner_at(&pm, DATA_BASE), PageOwnerId::new(2).unwrap());
    // A fault on an address that was never removed is not reclaimable.
    assert_eq!(
        guest_vp.handle_page_fault(&mut pm, GPA + 0x10_0000).unwrap_err(),
        VmPagesError::NotReclaimable
    );
}

#[test]
fn pop_on_free_page_reports_unowned() {
    let mut page = salus_core::page_info::PageInfo::new();
    assert_eq!(page.pop_owner().unwrap_err(), PageTrackingError::UnownedPage);
    assert!(page.is_free());
}
