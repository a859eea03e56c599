use apple_drivers::device::{DeviceNode, Property, Resource, ResourceKind};
use apple_drivers::efuse::{
    efuse_resource, force_link, get_apple_efuse, probe, AppleEfuse, EfuseCell, EfuseRegistry,
    NvmemError,
};

fn node(resources: Vec<Resource>, phandle: Option<usize>) -> DeviceNode {
    let mut properties = Vec::new();
    if let Some(number) = phandle {
        properties.push(Property {
            name: String::from("phandle"),
            value: (number as u32).to_be_bytes().to_vec(),
            number: Some(number),
        });
    }
    DeviceNode { name: String::from("efuse"), compatible: Vec::new(), resources, properties }
}

fn mem(start: usize, end: usize) -> Resource {
    Resource { kind: ResourceKind::Mem, start, end, irq: None }
}

#[test]
fn cell_is_extracted() {
    let cell = EfuseCell { name: String::from("cal"), offset: 0, bit_offset: 4, bit_count: 8 };
    assert_eq!(cell.extract(0xabcd), 0xbc);
    let efuse = AppleEfuse::new(0x1000, 8);
    assert_eq!(efuse.read_cell(&cell, 0xabcd), 0xbc);
    let copy = cell.clone();
    assert_eq!((copy.name.as_str(), copy.extract(0xabcd)), ("cal", 0xbc));
}

#[test]
fn a_cell_may_be_the_whole_word() {
    let cell = EfuseCell { name: String::new(), offset: 0, bit_offset: 0, bit_count: 32 };
    assert_eq!(cell.extract(0xdead_beef), 0xdead_beef);
    let upper = EfuseCell { name: String::new(), offset: 0, bit_offset: 16, bit_count: 32 };
    assert_eq!(upper.extract(0xdead_beef), 0xdead);
}

#[test]
fn bytes_come_from_whole_words() {
    let efuse = AppleEfuse::new(0x1000, 16);
    assert_eq!(efuse.name(), "apple-efuse");
    assert_eq!(efuse.size(), 16);
    assert_eq!(efuse.read32(8), 0x1008);
    assert_eq!(efuse.word_reads(2, 4), Ok(vec![0, 0, 4, 4]));
    let words = [0x4433_2211, 0x4433_2211, 0x8877_6655, 0x8877_6655];
    assert_eq!(efuse.read(2, &words), Ok(vec![0x33, 0x44, 0x55, 0x66]));
    assert_eq!(efuse.check_range(14, 3), Err(NvmemError::OutOfRange));
    assert_eq!(efuse.check_range(14, 2), Ok(()));
    assert_eq!(efuse.write(0, &[1]), Err(NvmemError::NotSupported));
}

#[test]
fn fuses_are_registered_in_probe_order() {
    force_link();
    let mut registry = EfuseRegistry::new();
    let device = node(vec![mem(0x2_3d2b_c000, 0x2_3d2b_cfff)], Some(7));
    assert_eq!(efuse_resource(&device), Ok((0x2_3d2b_c000, 0x1000)));
    assert_eq!(probe(&mut registry, &device, None).err(), Some("apple-efuse: ioremap failed"));
    let (phandle, efuse) = probe(&mut registry, &device, Some(0x9000)).unwrap();
    assert_eq!(phandle, 7);
    assert_eq!(efuse.read32(0x10), 0x9010);
    assert_eq!(get_apple_efuse(&registry, 0).map(|found| found.size()), Some(0x1000));
    assert!(get_apple_efuse(&registry, 1).is_none());

    let nothing = node(Vec::new(), Some(7));
    assert_eq!(probe(&mut registry, &nothing, None).err(), Some("apple-efuse: no memory resource"));
    let empty = node(vec![mem(8, 4)], Some(7));
    assert_eq!(
        probe(&mut registry, &empty, None).err(),
        Some("apple-efuse: invalid memory resource"),
    );
    let nameless = node(vec![mem(0, 0xfff)], None);
    assert_eq!(
        probe(&mut registry, &nameless, Some(0x9000)).err(),
        Some("apple-efuse: missing phandle"),
    );
}
