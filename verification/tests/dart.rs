use apple_drivers::dart::{
    dart_pte_flags, dart_resource, enroll, force_link, get_dart, get_dart_by_phandle,
    register_dart, DartBypassDomain, DartDomain, DartInstance, DartParams, DartRegistry,
    DomainChoice, IommuDomainType, IommuError, IommuMapFlags, IommuSpec, IommuStreamId, BUSY,
};
use apple_drivers::dart_table::{
    paddr_to_pte, pte_to_paddr, DartPageTable, Demand, Geometry, HierarchyWalk, TableMemory,
    DART_PAGE_SHIFT, DART_PTE_NO_READ, DART_PTE_NO_WRITE, DART_PTE_SP_DIS,
    DART_PTE_SUBPAGE_ALLOW_ALL, DART_PTE_VALID,
};
use apple_drivers::device::{DeviceNode, Resource, ResourceKind};
use apple_drivers::sequence::{Action, Sequencer, Step};

fn dart() -> DartInstance {
    DartInstance::with_params(
        0,
        DartParams { page_shift: DART_PAGE_SHIFT, supports_bypass: false, num_streams: 256 },
    )
}

fn stream(id: u32) -> IommuStreamId {
    IommuStreamId { id, substream_id: None }
}

#[test]
fn test_stream_ids_from_fdt_single_cell() {
    let spec = IommuSpec { controller_phandle: 0x40, cells: vec![0x17] };

    assert_eq!(
        dart().stream_ids_from_fdt(&spec).unwrap(),
        vec![IommuStreamId { id: 0x17, substream_id: None }]
    );
}

#[test]
fn test_stream_ids_from_fdt_multi_cell_uses_first() {
    let spec = IommuSpec { controller_phandle: 0x40, cells: vec![0x22, 0x33] };

    assert_eq!(dart().stream_ids_from_fdt(&spec).unwrap()[0].id, 0x22);
}

#[test]
fn test_dart_pte_flags_encode_permissions() {
    let flags = IommuMapFlags { read: true, write: true, coherent: true };

    assert_eq!(dart_pte_flags(flags), DART_PTE_VALID | DART_PTE_SP_DIS);
    assert_eq!(
        dart_pte_flags(IommuMapFlags { read: true, write: false, coherent: false }),
        DART_PTE_VALID | DART_PTE_SP_DIS | DART_PTE_NO_WRITE
    );
    assert_eq!(
        dart_pte_flags(IommuMapFlags { read: false, write: true, coherent: false }),
        DART_PTE_VALID | DART_PTE_SP_DIS | DART_PTE_NO_READ
    );
}

#[test]
fn test_dart_pte_preserves_4k_aligned_physical_address() {
    let paddr = 0x800b_1000usize;
    let pte = paddr_to_pte(paddr) | DART_PTE_VALID;

    assert_eq!(pte_to_paddr(pte), paddr);
}

#[test]
fn parameters_are_decoded() {
    let dart = DartInstance::new(0x1000, 0x0e40_0000, 1);
    assert_eq!(dart.page_shift(), 14);
    assert_eq!(dart.name(), "apple-dart");
    assert_eq!(dart.base_addr(), 0x1000);
    assert_eq!(dart.validate_stream(stream(15)), Ok(15));
    assert_eq!(dart.validate_stream(stream(16)), Err(IommuError::AttachFailed));
    assert_eq!(
        dart.alloc_domain(IommuDomainType::Identity, 14).ok(),
        Some(DomainChoice::Bypass)
    );
    let empty = IommuSpec { controller_phandle: 1, cells: Vec::new() };
    assert_eq!(dart.stream_ids_from_fdt(&empty), Err(IommuError::InvalidSpec));
}

#[test]
fn a_root_pointer_names_its_table() {
    let dart = dart();
    assert_eq!(dart.ttbr_paddr(0x8008_00b1), Some(0x800b_1000));
    assert_eq!(dart.ttbr_paddr(0x0008_00b1), None);
    assert_eq!(DartInstance::ttbr_offset(3), 0x230);
    let steps = dart.enable_translation(1, 0x800b_1000, 3);
    assert!(steps.contains(&Step::Write { win: 0, offset: 0x210, value: 0x8008_00b1 }));
    assert!(steps.contains(&Step::Write { win: 0, offset: 0x104, value: 0x80 }));
}

#[test]
fn a_sync_waits_for_the_invalidation() {
    let steps = dart().sync_page_tables();
    let mut run = Sequencer::new(steps);
    assert_eq!(run.next(0), Action::Fence);
    assert_eq!(run.next(0), Action::Write { win: 0, offset: 0x34, value: u32::MAX });
    assert_eq!(run.next(0), Action::Write { win: 0, offset: 0x20, value: 0x10_0000 });
    assert_eq!(run.next(0), Action::Read { win: 0, offset: 0x20 });
    assert_eq!(run.next(0), Action::Finish { result: Ok(()) });
    assert_eq!(DartInstance::sync_result(Ok(())), Ok(()));
    assert_eq!(DartInstance::sync_result(Err(BUSY)), Err(IommuError::Busy));
}

#[test]
fn an_address_has_one_index_per_level() {
    let geometry = Geometry::new(14, 14).unwrap();
    assert_eq!(geometry.pte_count, 2048);
    assert_eq!(geometry.table_size, 0x4000);
    assert!(Geometry::new(9, 14).is_err());
    let levels = geometry.table_levels;
    assert_eq!(geometry.table_index(0x1_8000, 0), 6);
    assert_eq!(geometry.table_index(1 << 25, 1), 1);
    assert_eq!(levels, 2);
}

#[test]
fn a_mapped_page_is_translated_until_it_is_unmapped() {
    let mut root = vec![0u64; 2048];
    let mut leaf = vec![0u64; 2048];
    let memory = TableMemory { paddr: 0x10_0000, entries: &mut root };
    let mut table = DartPageTable::new(14, Some(memory)).unwrap();
    assert_eq!(table.root_paddr(), 0x10_0000);
    assert_eq!(table.page_size(), 0x4000);
    assert_eq!(table.translate_iova(0x8000), None);
    assert_eq!(table.map_page(0x8000, 0x8000_0000, DART_PTE_VALID), Err(Demand::Fresh));
    table.provide_fresh(TableMemory { paddr: 0x20_0000, entries: &mut leaf });
    assert_eq!(table.map_page(0x8000, 0x8000_0000, DART_PTE_VALID), Ok(()));
    assert_eq!(table.translate_iova(0x8123), Some(0x8000_0123));
    assert_eq!(table.translate_iova(0xc000), None);
    assert_eq!(
        table.map_contiguous(0xc000, 0x9000_0000, 0x8000, DART_PTE_VALID, 0),
        Ok(())
    );
    assert_eq!(table.translate_iova(0x1_0004), Some(0x9000_4004));
    assert_eq!(table.unmap_page(0x8000), Ok(()));
    assert_eq!(table.translate_iova(0x8123), None);
    assert_eq!(table.translate_iova(0xc000), Some(0x9000_0000));
}

#[test]
fn an_existing_table_is_taken_over() {
    let mut root = vec![0u64; 2048];
    root[0] = paddr_to_pte(0x20_0000) | DART_PTE_VALID;
    let mut leaf = vec![0u64; 2048];
    leaf[2] = paddr_to_pte(0x8000_0000) | DART_PTE_VALID;
    let memory = TableMemory { paddr: 0x10_0000, entries: &mut root };
    let mut table = DartPageTable::wrap_existing(14, 14, memory).unwrap();
    let mut walk = HierarchyWalk::new(&table);
    assert_eq!(walk.advance(&table), Some(0x20_0000));
    walk.adopt(&mut table, TableMemory { paddr: 0x20_0000, entries: &mut leaf });
    assert_eq!(walk.advance(&table), None);
    assert_eq!(table.translate_iova(0x8010), Some(0x8000_0010));
}

#[test]
fn a_domain_maps_only_what_its_stream_may_see() {
    let mut root = vec![0u64; 2048];
    let mut leaf = vec![0u64; 2048];
    let memory = TableMemory { paddr: 0x10_0000, entries: &mut root };
    let mut domain = DartDomain::new(dart(), 14, Some(memory)).unwrap();
    assert!(domain.attach_stream(stream(256)).is_err());
    assert!(domain.attach_stream(stream(3)).is_ok());
    let flags = IommuMapFlags { read: true, write: true, coherent: false };
    assert_eq!(domain.map(0x8000, 0x8000_0000, 0x4000, flags, 0).err(), Some((0, Demand::Fresh)));
    domain.page_table().provide_fresh(TableMemory { paddr: 0x20_0000, entries: &mut leaf });
    assert!(domain.map(0x8000, 0x8000_0000, 0x4000, flags, 0).is_ok());
    assert_eq!(domain.page_table().translate_iova(0x8000), Some(0x8000_0000));
    assert!(domain.unmap(0x8000, 0x4000, 0).is_ok());
    assert_eq!(domain.page_table().translate_iova(0x8000), None);
    assert!(domain.detach_stream(stream(3)).is_ok());
    assert_eq!(DartDomain::map_error(), IommuError::MapFailed);
    assert_eq!(DartDomain::unmap_error(), IommuError::UnmapFailed);
    assert!(DartDomain::new(dart(), 14, None).is_err());
}

#[test]
fn a_bypass_domain_leaves_addresses_alone() {
    let dart = DartInstance::new(0, 0x0e40_0000, 1);
    let mut domain = DartBypassDomain::new(dart);
    assert_eq!(domain.iova_to_phys(0x1234), Some(0x1234));
    assert_eq!(domain.flush(), Ok(()));
    assert!(domain.attach_stream(stream(2)).is_ok());
    assert!(domain.detach_stream(stream(2)).is_ok());
}

#[test]
fn darts_are_found_by_handle() {
    force_link();
    let mut registry = DartRegistry::new();
    assert_eq!(register_dart(&mut registry, DartInstance::new(0x10, 0, 0), 5), 0);
    assert_eq!(register_dart(&mut registry, DartInstance::new(0x20, 0, 0), 6), 1);
    assert_eq!(get_dart_by_phandle(&registry, 6).map(|d| d.base_addr()), Some(0x20));
    assert!(get_dart_by_phandle(&registry, 7).is_none());
    assert_eq!(get_dart(&registry, 0).map(|d| d.base_addr()), Some(0x10));
    let region = Resource { kind: ResourceKind::Mem, start: 0x1000, end: 0x1fff, irq: None };
    let device = DeviceNode {
        name: String::from("dart"),
        compatible: Vec::new(),
        resources: vec![region],
        properties: Vec::new(),
    };
    assert_eq!(dart_resource(&device), Ok((0x1000, 0x1000)));
    assert_eq!(enroll(&mut registry, &device, DartInstance::new(0x30, 0, 0)).0, 2);
}

#[test]
fn an_import_asks_for_what_it_needs_and_keeps_translations() {
    let mut root = vec![0u64; 2048];
    let mut old_root = vec![0u64; 2048];
    let mut old_leaf = vec![0u64; 2048];
    let mut fresh = vec![7u64; 2048];
    old_root[1] = paddr_to_pte(0x60_0000) | DART_PTE_VALID;
    old_leaf[3] = paddr_to_pte(0x9000_0000) | DART_PTE_VALID | DART_PTE_NO_WRITE;
    let memory = TableMemory { paddr: 0x10_0000, entries: &mut root };
    let mut table = DartPageTable::new_for_page_shift(14, 14, Some(memory)).unwrap();
    assert_eq!(table.translation_levels(), 3);
    assert_eq!(table.import_from_existing(0x50_0000), Err(Demand::Existing(0x50_0000)));
    table.provide_existing(TableMemory { paddr: 0x50_0000, entries: &mut old_root });
    assert_eq!(table.import_from_existing(0x50_0000), Err(Demand::Existing(0x60_0000)));
    table.provide_existing(TableMemory { paddr: 0x60_0000, entries: &mut old_leaf });
    assert_eq!(table.import_from_existing(0x50_0000), Err(Demand::Fresh));
    table.provide_fresh(TableMemory { paddr: 0x70_0000, entries: &mut fresh });
    assert_eq!(table.import_from_existing(0x50_0000), Ok(1));
    let iova = (1usize << 25) | (3 << 14);
    assert_eq!(table.translate_iova(iova + 0x123), Some(0x9000_0123));
    assert_eq!(table.translate_iova(iova + 0x4000), None);
    assert_eq!(table.unmap_contiguous(iova, 0x4000, 0), Ok(()));
    assert_eq!(table.translate_iova(iova), None);
    drop(table);
    assert_eq!(root[1], paddr_to_pte(0x70_0000) | DART_PTE_VALID);
    assert_eq!(fresh[3], 0);
    assert_eq!(old_root[1], paddr_to_pte(0x60_0000) | DART_PTE_VALID);
}

#[test]
fn a_page_is_mapped_at_each_of_its_addresses() {
    let mut root = vec![0u64; 2048];
    let mut leaf = vec![0u64; 2048];
    let memory = TableMemory { paddr: 0x10_0000, entries: &mut root };
    let mut table = DartPageTable::new_for_page_shift(14, 14, Some(memory)).unwrap();
    assert_eq!(table.unmap_page(0x4000), Ok(()));
    assert_eq!(table.map_page(0x4000, 0x8_0000_8000, DART_PTE_VALID), Err(Demand::Fresh));
    assert_eq!(table.translate_iova(0x4000), None);
    table.provide_fresh(TableMemory { paddr: 0x20_0000, entries: &mut leaf });
    assert_eq!(table.map_page(0x4000, 0x8_0000_8000, DART_PTE_VALID), Ok(()));
    for offset in [0, 1, 0x1fff, 0x3fff] {
        assert_eq!(table.translate_iova(0x4000 + offset), Some(0x8_0000_8000 + offset));
    }
    assert_eq!(table.translate_iova(0x3fff), None);
    assert_eq!(table.translate_iova(0x8000), None);
    assert_eq!(table.unmap_page(0x5234), Ok(()));
    assert_eq!(table.translate_iova(0x4000), None);
    assert_eq!(table.unmap_page(0x4000), Ok(()));
    assert_eq!(table.translate_iova(0x7fff), None);
}

#[test]
fn a_range_may_end_with_the_address_space() {
    let mut root = vec![0u64; 2048];
    let mut leaf = vec![0u64; 2048];
    let memory = TableMemory { paddr: 0x10_0000, entries: &mut root };
    let mut table = DartPageTable::new_for_page_shift(14, 14, Some(memory)).unwrap();
    table.provide_fresh(TableMemory { paddr: 0x20_0000, entries: &mut leaf });
    let start = 0xffff_8000;
    assert_eq!(table.map_contiguous(start, 0x4000_0000, 0x8000, DART_PTE_VALID, 0), Ok(()));
    assert_eq!(table.translate_iova(0xffff_ffff), Some(0x4000_7fff));
    assert_eq!(table.unmap_contiguous(start, 0x8000, 0), Ok(()));
    assert_eq!(table.translate_iova(0xffff_ffff), None);
}

#[test]
fn an_import_counts_the_leaves_and_keeps_their_flags() {
    let mut root = vec![0u64; 2048];
    let mut old_root = vec![0u64; 2048];
    let mut old_leaf = vec![0u64; 2048];
    let mut fresh = vec![0u64; 2048];
    old_root[0] = paddr_to_pte(0x60_0000) | DART_PTE_VALID;
    old_leaf[3] = paddr_to_pte(0x9000_0000) | DART_PTE_VALID | DART_PTE_NO_WRITE;
    old_leaf[4] = paddr_to_pte(0x9000_4000);
    old_leaf[9] = paddr_to_pte(0x9000_8000) | DART_PTE_VALID;
    let memory = TableMemory { paddr: 0x10_0000, entries: &mut root };
    let mut table = DartPageTable::new_for_page_shift(14, 14, Some(memory)).unwrap();
    table.provide_existing(TableMemory { paddr: 0x50_0000, entries: &mut old_root });
    table.provide_existing(TableMemory { paddr: 0x60_0000, entries: &mut old_leaf });
    table.provide_fresh(TableMemory { paddr: 0x70_0000, entries: &mut fresh });
    assert_eq!(table.import_from_existing(0x50_0000), Ok(2));
    drop(table);
    assert_eq!(fresh[3], old_leaf[3] | DART_PTE_SUBPAGE_ALLOW_ALL);
    assert_eq!((fresh[4], fresh[9]), (0, old_leaf[9] | DART_PTE_SUBPAGE_ALLOW_ALL));
}
