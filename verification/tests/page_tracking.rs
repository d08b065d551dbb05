use salus_core::ids::PageOwnerId;
use salus_core::mem_map::{HwMemMapBuilder, HwMemType, HwReservedMemType, MemMapError, PageAddr};
use salus_core::page_info::PageInfo;
use salus_core::page_map::PageMap;

const PAGE: u64 = 4096;

#[test]
fn indexing() {
    let num_pages: u64 = 10;
    let base_addr = PageAddr::new_4k(0x1000_0000).unwrap();
    let mem_map = HwMemMapBuilder::new(PAGE)
        .add_memory_region(0x1000_0000, num_pages * PAGE)
        .unwrap()
        .build();
    let mut pages = PageMap::new(Vec::new());
    pages.populate_from(&mem_map);

    let before_addr = PageAddr::new_4k(0x1000_0000 - PAGE).unwrap();
    let last_addr = PageAddr::new_4k(0x1000_0000 + (num_pages - 1) * PAGE).unwrap();
    let after_addr = PageAddr::new_4k(0x1000_0000 + num_pages * PAGE).unwrap();

    assert!(pages.get(before_addr).is_none());
    assert!(pages.get(base_addr).is_some());
    assert!(pages.get(last_addr).is_some());
    assert!(pages.get(after_addr).is_none());
}

#[test]
fn page_map_building() {
    let mut mem_map = HwMemMapBuilder::new(PAGE)
        .add_memory_region(0x1000_0000, 0x2_0000)
        .unwrap()
        .build();
    mem_map
        .reserve_region(HwReservedMemType::FirmwareReserved, 0x1000_4000, 0x1000)
        .unwrap();
    mem_map
        .reserve_region(HwReservedMemType::HostKernelImage, 0x1001_0000, 0x2000)
        .unwrap();
    let mut pages = PageMap::new(Vec::new());
    pages.populate_from(&mem_map);

    let free_addr = PageAddr::new_4k(0x1000_1000).unwrap();
    let reserved_addr = PageAddr::new_4k(0x1000_4000).unwrap();
    let used_addr = PageAddr::new_4k(0x1001_1000).unwrap();

    assert!(pages.get(free_addr).unwrap().is_free());
    assert!(pages.get(reserved_addr).unwrap().is_reserved());
    assert!(pages.get(used_addr).unwrap().owner().is_some());
}

#[test]
fn sparse_map() {
    const TOTAL_SIZE: u64 = 0x4_0000;
    let mem_map = HwMemMapBuilder::new(PAGE)
        .add_memory_region(0x1000_0000, TOTAL_SIZE / 2)
        .unwrap()
        .add_memory_region(0x2000_0000, TOTAL_SIZE / 2)
        .unwrap()
        .build();
    let mut pages = PageMap::new(Vec::new());
    pages.populate_from(&mem_map);

    let base_addr = PageAddr::new_4k(0x1000_0000).unwrap();
    let r0_addr = PageAddr::new_4k(0x1000_8000).unwrap();
    let r1_addr = PageAddr::new_4k(0x2000_3000).unwrap();

    assert!(pages.get(base_addr).unwrap().is_free());
    assert!(pages.get(r0_addr).unwrap().is_free());
    assert!(pages.get(r1_addr).unwrap().is_free());
    assert_eq!(
        pages.num_after(base_addr).unwrap(),
        (TOTAL_SIZE / PAGE) as usize
    );
}

#[test]
fn page_ownership() {
    let mut page = PageInfo::new();
    assert!(page.is_free());
    assert!(page.push_owner(PageOwnerId::hypervisor()).is_ok());
    assert!(page.push_owner(PageOwnerId::host()).is_ok());
    assert_eq!(page.owner().unwrap(), PageOwnerId::host());
    assert_eq!(page.pop_owner().unwrap(), PageOwnerId::host());
    assert!(page.pop_owner().is_err());
    assert!(!page.is_free());

    let mut page = PageInfo::new_reserved();
    assert!(!page.is_free());
    assert!(page.push_owner(PageOwnerId::hypervisor()).is_err());
}

#[test]
fn ownership_depth_bounded() {
    // Pushes beyond the depth bound fail and leave the page unchanged.
    let mut page = PageInfo::new();
    assert!(page.push_owner(PageOwnerId::hypervisor()).is_ok());
    assert!(page.push_owner(PageOwnerId::host()).is_ok());
    assert!(page.push_owner(PageOwnerId::new(2).unwrap()).is_ok());
    assert!(page.push_owner(PageOwnerId::new(3).unwrap()).is_err());
    assert_eq!(page.owner().unwrap(), PageOwnerId::new(2).unwrap());
}

#[test]
fn reserved_rejects_everything() {
    let mut page = PageInfo::new_reserved();
    assert!(page.push_owner(PageOwnerId::host()).is_err());
    assert!(page.pop_owner().is_err());
    assert!(page.is_reserved());
}

#[test]
fn pop_owners_while_strips_trailing_owner() {
    let mut page = PageInfo::new();
    let guest = PageOwnerId::new(7).unwrap();
    page.push_owner(PageOwnerId::host()).unwrap();
    page.push_owner(guest).unwrap();
    page.pop_owners_while(|o: &PageOwnerId| o.raw() == 7);
    assert_eq!(page.owner().unwrap(), PageOwnerId::host());
    // The root owner is never popped, even when it matches.
    let mut root_only = PageInfo::new();
    root_only.push_owner(PageOwnerId::host()).unwrap();
    root_only.pop_owners_while(|o: &PageOwnerId| o.raw() == PageOwnerId::host().raw());
    assert_eq!(root_only.owner().unwrap(), PageOwnerId::host());
}

#[test]
fn find_owner_scans_from_top() {
    let mut page = PageInfo::new();
    page.push_owner(PageOwnerId::hypervisor()).unwrap();
    page.push_owner(PageOwnerId::host()).unwrap();
    let found = page.find_owner(|o: &PageOwnerId| o.raw() < 2);
    assert_eq!(found.unwrap(), PageOwnerId::host());
    let none = page.find_owner(|o: &PageOwnerId| o.raw() > 10);
    assert!(none.is_none());
}

#[test]
fn unaligned_lookup_fails() {
    assert!(PageAddr::new_4k(0x1000_0001).is_none());
    assert!(PageAddr::new_4k(0x1000_1000).is_some());
}

#[test]
fn mem_map_rejects_bad_regions() {
    let b = HwMemMapBuilder::new(PAGE);
    assert_eq!(
        b.add_memory_region(0x1000_0001, PAGE).unwrap_err(),
        MemMapError::Unaligned
    );
    let b = HwMemMapBuilder::new(PAGE);
    assert_eq!(
        b.add_memory_region(0x1000_0000, 0).unwrap_err(),
        MemMapError::EmptyRegion
    );
    let b = HwMemMapBuilder::new(PAGE);
    assert_eq!(
        b.add_memory_region(u64::MAX - 0xFFF, PAGE).unwrap_err(),
        MemMapError::AddressOverflow
    );
    let b = HwMemMapBuilder::new(PAGE)
        .add_memory_region(0x2000_0000, PAGE)
        .unwrap();
    assert_eq!(
        b.add_memory_region(0x1000_0000, PAGE).unwrap_err(),
        MemMapError::OutOfOrder
    );
}

#[test]
fn reservation_must_stay_inside_available() {
    let mut mem_map = HwMemMapBuilder::new(PAGE)
        .add_memory_region(0x1000_0000, 0x1_0000)
        .unwrap()
        .build();
    // Overlapping an already-reserved range fails.
    mem_map
        .reserve_region(HwReservedMemType::FirmwareReserved, 0x1000_4000, 0x1000)
        .unwrap();
    assert_eq!(
        mem_map
            .reserve_region(HwReservedMemType::HostKernelImage, 0x1000_4000, 0x1000)
            .unwrap_err(),
        MemMapError::NoContainingRegion
    );
    // A range outside every region fails too.
    assert_eq!(
        mem_map
            .reserve_region(HwReservedMemType::HostKernelImage, 0x2000_0000, 0x1000)
            .unwrap_err(),
        MemMapError::NoContainingRegion
    );
    assert_eq!(mem_map.regions().len(), 3);
    assert_eq!(mem_map.regions()[1].mem_type(), HwMemType::Reserved(HwReservedMemType::FirmwareReserved));
}

#[test]
fn build_from_reserves_tracker_memory() {
    let mem_map = HwMemMapBuilder::new(PAGE)
        .add_memory_region(0x1000_0000, 0x2_0000)
        .unwrap()
        .build();
    let (pages, adjusted) = PageMap::build_from(mem_map).unwrap();
    // The first frames now back the tracker itself and are reserved.
    let first = PageAddr::new_4k(0x1000_0000).unwrap();
    assert!(pages.get(first).unwrap().is_reserved());
    assert_eq!(
        adjusted.regions()[0].mem_type(),
        HwMemType::Reserved(HwReservedMemType::PageMap)
    );
    // Frames beyond the tracker's backing memory are still free.
    let later = PageAddr::new_4k(0x1000_8000).unwrap();
    assert!(pages.get(later).unwrap().is_free());
    // 0x20 frames of 40-byte records round up to one 4 KiB page.
    assert_eq!(adjusted.regions()[0].size(), PAGE);
}

#[test]
fn build_from_fails_without_space() {
    // A map with only reserved memory has no room for the tracker.
    let mut mem_map = HwMemMapBuilder::new(PAGE)
        .add_memory_region(0x1000_0000, PAGE)
        .unwrap()
        .build();
    mem_map
        .reserve_region(HwReservedMemType::FirmwareReserved, 0x1000_0000, PAGE)
        .unwrap();
    assert!(PageMap::build_from(mem_map).is_err());
}
