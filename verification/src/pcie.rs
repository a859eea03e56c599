//! Apple Silicon PCIe host-controller driver.

use vstd::prelude::*;
use crate::bytes::{be32, get_be32};
use crate::dart::{
    bypass_steps, dart_with, get_dart_by_phandle, ttbr_offset_of, DartEntry, DartInstance,
    DartRegistry,
};
use crate::device::{
    any_phandle_number, find_any_phandle_number, find_value, resources_of, select_resources,
    value_of, DeviceNode, Resource, ResourceKind,
};
use crate::sequence::{fail, poll32, set32, spin, write32, Step};

verus! {

pub const PORT_LTSSMCTL: usize = 0x0080;
pub const PORT_INTMSK: usize = 0x0104;
pub const PORT_LINKSTS: usize = 0x0208;
pub const PORT_APPCLK: usize = 0x0800;
pub const PORT_STATUS: usize = 0x0804;
pub const PORT_REFCLK: usize = 0x0810;
pub const PORT_PERST: usize = 0x0814;
pub const PORT_RID2SID: usize = 0x0828;

pub const PHY_LANE_CFG: usize = 0x0000;
pub const PHY_LANE_CTL: usize = 0x0004;

pub const PHY_LANE_CFG_REFCLK0_REQ: u32 = 0x001;
pub const PHY_LANE_CFG_REFCLK1_REQ: u32 = 0x002;
pub const PHY_LANE_CFG_REFCLK0_ACK: u32 = 0x004;
pub const PHY_LANE_CFG_REFCLK1_ACK: u32 = 0x008;
pub const PHY_LANE_CFG_REFCLK_ENABLE: u32 = 0x200;
pub const PHY_LANE_CFG_REFCLK1_ENABLE: u32 = 0x400;

pub const PHY_LANE_CTL_CFGACC: u32 = 0x8000;

pub const PORT_LTSSMCTL_START: u32 = 0x1;
pub const PORT_LINKSTS_UP: u32 = 0x1;
pub const PORT_APPCLK_EN: u32 = 0x1;
pub const PORT_APPCLK_CLKGATE_DIS: u32 = 0x100;
pub const PORT_REFCLK_EN: u32 = 0x1;
pub const PORT_REFCLK_CLKGATE_DIS: u32 = 0x100;
pub const PORT_PERST_OFF: u32 = 0x1;
pub const PORT_STATUS_READY: u32 = 0x1;

pub const PORT_INT_LINK_UP: u32 = 0x1000;
pub const PORT_INT_LINK_DOWN: u32 = 0x4000;

pub const PORT_RID2SID_VALID: u32 = 0x8000_0000;

pub const PCI_CONFIG_VENDOR_ID: u16 = 0x0000;
pub const PCI_CONFIG_COMMAND: u16 = 0x0004;

pub const PCI_COMMAND_MEMORY_SPACE: u16 = 0x002;
pub const PCI_COMMAND_BUS_MASTER: u16 = 0x004;
pub const PCI_COMMAND_SERR: u16 = 0x100;

/// Reads of a lane before its reference clock is given up.
pub const REFCLK_ATTEMPTS: u32 = 10_000;
/// Reads of a port before it is given up.
pub const READY_ATTEMPTS: u32 = 250_000;

/// Where the lanes of the ports start behind the configuration space.
pub const PHY_OFFSET: usize = 0x84000;
pub const PHY_STRIDE: usize = 0x4000;

/// Vectors of a controller that does not say how many it has.
pub const DEFAULT_MSI_VECTORS: u32 = 32;

/// The message-signalled interrupts of a port.
#[derive(Clone, Copy, Debug, PartialEq, Eq, Structural)]
pub struct MsiPortConfig {
    pub port_base: usize,
    pub base_vector: u32,
    pub num_vectors: u32,
}

/// A port. Its steps use window 0 for the port and window 1 for its lane.
#[derive(Debug)]
pub struct ApplePciePort {
    pub index: u32,
    pub port_base: usize,
    pub phy_base: usize,
    pub ecam: usize,
    pub initialized: bool,
    pub msi_config: Option<MsiPortConfig>,
    pub msi_phandle: u32,
    pub msi_base_vector: u32,
    pub msi_num_vectors: u32,
}

/// Turns the reference clock of a lane on.
pub open spec fn refclk_steps() -> Seq<Step> {
    seq![
        write32(1, PHY_LANE_CTL, PHY_LANE_CTL_CFGACC),
        set32(1, PHY_LANE_CFG, PHY_LANE_CFG_REFCLK0_REQ),
        poll32(
            1,
            PHY_LANE_CFG,
            PHY_LANE_CFG_REFCLK0_ACK,
            PHY_LANE_CFG_REFCLK0_ACK,
            REFCLK_ATTEMPTS,
            0,
            1,
        ),
        fail("pcie: REFCLK0 ACK timeout"),
        set32(1, PHY_LANE_CFG, PHY_LANE_CFG_REFCLK1_REQ),
        poll32(
            1,
            PHY_LANE_CFG,
            PHY_LANE_CFG_REFCLK1_ACK,
            PHY_LANE_CFG_REFCLK1_ACK,
            REFCLK_ATTEMPTS,
            0,
            1,
        ),
        fail("pcie: REFCLK1 ACK timeout"),
        set32(1, PHY_LANE_CFG, PHY_LANE_CFG_REFCLK_ENABLE | PHY_LANE_CFG_REFCLK1_ENABLE),
        write32(1, PHY_LANE_CTL, 0),
    ]
}

/// What maps the requester of a port to a stream.
pub open spec fn rid2sid(index: u32) -> u32 {
    PORT_RID2SID_VALID | (index << 16)
}

/// Brings a port up.
pub open spec fn init_steps(index: u32) -> Seq<Step> {
    seq![write32(0, PORT_APPCLK, PORT_APPCLK_EN | PORT_APPCLK_CLKGATE_DIS)] + refclk_steps() + seq![
        write32(0, PORT_REFCLK, PORT_REFCLK_EN | PORT_REFCLK_CLKGATE_DIS),
        spin(1000),
        write32(0, PORT_PERST, PORT_PERST_OFF),
        poll32(0, PORT_STATUS, PORT_STATUS_READY, PORT_STATUS_READY, READY_ATTEMPTS, 0, 1),
        fail("pcie: port ready timeout"),
        write32(0, PORT_LTSSMCTL, PORT_LTSSMCTL_START),
        write32(0, PORT_INTMSK, PORT_INT_LINK_UP | PORT_INT_LINK_DOWN),
        write32(0, PORT_RID2SID, rid2sid(index)),
    ]
}

/// Where a function's configuration register lies from the start of the configuration space.
pub open spec fn ecam_offset(bus: u32, dev: u32, func: u32, offset: u16) -> int {
    bus * 0x10_0000 + dev * 0x8000 + func * 0x1000 + offset
}

impl ApplePciePort {
    /// The address of a configuration register.
    pub fn ecam_address(&self, bus: u32, dev: u32, func: u32, offset: u16) -> (r: usize)
        requires
            self.ecam + ecam_offset(bus, dev, func, offset) <= usize::MAX,
        ensures
            r == self.ecam + ecam_offset(bus, dev, func, offset),
    {
        self.ecam + (bus as usize) * 0x10_0000 + (dev as usize) * 0x8000 + (func as usize) * 0x1000
            + (offset as usize)
    }

    fn setup_refclk(&self) -> (r: Vec<Step>)
        ensures
            r@ == refclk_steps(),
    {
        let steps: Vec<Step> = vec![
            write32(1, PHY_LANE_CTL, PHY_LANE_CTL_CFGACC),
            set32(1, PHY_LANE_CFG, PHY_LANE_CFG_REFCLK0_REQ),
            poll32(
                1,
                PHY_LANE_CFG,
                PHY_LANE_CFG_REFCLK0_ACK,
                PHY_LANE_CFG_REFCLK0_ACK,
                REFCLK_ATTEMPTS,
                0,
                1,
            ),
            fail("pcie: REFCLK0 ACK timeout"),
            set32(1, PHY_LANE_CFG, PHY_LANE_CFG_REFCLK1_REQ),
            poll32(
                1,
                PHY_LANE_CFG,
                PHY_LANE_CFG_REFCLK1_ACK,
                PHY_LANE_CFG_REFCLK1_ACK,
                REFCLK_ATTEMPTS,
                0,
                1,
            ),
            fail("pcie: REFCLK1 ACK timeout"),
            set32(1, PHY_LANE_CFG, PHY_LANE_CFG_REFCLK_ENABLE | PHY_LANE_CFG_REFCLK1_ENABLE),
            write32(1, PHY_LANE_CTL, 0),
        ];
        assert(steps@ =~= refclk_steps());
        steps
    }

    /// Brings the port up. Once the steps are through, `initialized` is to be called.
    pub fn init(&self) -> (r: Vec<Step>)
        ensures
            r@ == init_steps(self.index),
    {
        let mut steps: Vec<Step> = vec![
            write32(0, PORT_APPCLK, PORT_APPCLK_EN | PORT_APPCLK_CLKGATE_DIS),
        ];
        let mut refclk = self.setup_refclk();
        steps.append(&mut refclk);
        let mut rest: Vec<Step> = vec![
            write32(0, PORT_REFCLK, PORT_REFCLK_EN | PORT_REFCLK_CLKGATE_DIS),
            spin(1000),
            write32(0, PORT_PERST, PORT_PERST_OFF),
            poll32(0, PORT_STATUS, PORT_STATUS_READY, PORT_STATUS_READY, READY_ATTEMPTS, 0, 1),
            fail("pcie: port ready timeout"),
            write32(0, PORT_LTSSMCTL, PORT_LTSSMCTL_START),
            write32(0, PORT_INTMSK, PORT_INT_LINK_UP | PORT_INT_LINK_DOWN),
            write32(0, PORT_RID2SID, PORT_RID2SID_VALID | (self.index << 16)),
        ];
        steps.append(&mut rest);
        assert(steps@ =~= init_steps(self.index));
        steps
    }

    /// Notes that the port is up. The result is the interrupt block to enable and to register
    /// under the port's phandle.
    pub fn initialized(&mut self) -> (r: MsiPortConfig)
        ensures
            r == (MsiPortConfig {
                port_base: old(self).port_base,
                base_vector: old(self).msi_base_vector,
                num_vectors: old(self).msi_num_vectors,
            }),
            *final(self) == (ApplePciePort {
                initialized: true,
                msi_config: Some(r),
                ..*old(self)
            }),
    {
        let msi = MsiPortConfig {
            port_base: self.port_base,
            base_vector: self.msi_base_vector,
            num_vectors: self.msi_num_vectors,
        };
        self.msi_config = Some(msi);
        self.initialized = true;
        msi
    }

    /// Whether the link is up, where its status reads `linksts`.
    pub fn is_link_up(linksts: u32) -> (r: bool)
        ensures
            r == (linksts & PORT_LINKSTS_UP != 0),
    {
        linksts & PORT_LINKSTS_UP != 0
    }

    pub fn port_idx(&self) -> (r: u32)
        ensures
            r == self.index,
    {
        self.index
    }

    pub fn ecam_base(&self) -> (r: usize)
        ensures
            r == self.ecam,
    {
        self.ecam
    }

    /// Where the vendor of the root port is read.
    pub fn read_root_vendor_id(&self) -> (r: usize)
        ensures
            r == self.ecam,
    {
        self.ecam_address(0, 0, 0, PCI_CONFIG_VENDOR_ID)
    }

    /// Where the command word of the root port lies.
    pub fn root_command(&self) -> (r: usize)
        requires
            self.ecam + PCI_CONFIG_COMMAND <= usize::MAX,
        ensures
            r == self.ecam + PCI_CONFIG_COMMAND,
    {
        self.ecam_address(0, 0, 0, PCI_CONFIG_COMMAND)
    }

    /// The command word that lets the root port pass memory and interrupts on.
    pub fn enable_root_port(cmd: u16) -> (r: u16)
        ensures
            r == cmd | PCI_COMMAND_MEMORY_SPACE | PCI_COMMAND_BUS_MASTER | PCI_COMMAND_SERR,
    {
        cmd | PCI_COMMAND_MEMORY_SPACE | PCI_COMMAND_BUS_MASTER | PCI_COMMAND_SERR
    }
}

/// The ports that are up, in the order in which they came up.
#[derive(Debug)]
pub struct PcieRegistry {
    ports: Vec<ApplePciePort>,
}

impl View for PcieRegistry {
    type V = Seq<ApplePciePort>;

    closed spec fn view(&self) -> Seq<ApplePciePort> {
        self.ports@
    }
}

impl PcieRegistry {
    pub fn new() -> (r: Self)
        ensures
            r@ == Seq::<ApplePciePort>::empty(),
    {
        PcieRegistry { ports: Vec::new() }
    }
}

pub fn register_port(registry: &mut PcieRegistry, port: ApplePciePort) -> (r: u32)
    ensures
        r == old(registry)@.len() as u32,
        final(registry)@ == old(registry)@.push(port),
{
    let id: u32 = registry.ports.len() as u32;
    registry.ports.push(port);
    id
}

pub fn get_port(registry: &mut PcieRegistry, id: u32) -> (r: Option<&mut ApplePciePort>)
    ensures
        match r {
            Some(port) => {
                &&& id < old(registry)@.len()
                &&& *port == old(registry)@[id as int]
                &&& final(registry)@ == old(registry)@.update(id as int, *final(port))
            },
            None => id >= old(registry)@.len() && final(registry)@ == old(registry)@,
        },
{
    let index: usize = id as usize;
    if index < registry.ports.len() {
        Some(&mut registry.ports[index])
    } else {
        None
    }
}

/// Requesters whose accesses go to consecutive streams of a DART.
#[derive(Clone, Copy, Debug, PartialEq, Eq, Structural)]
pub struct IommuMapEntry {
    pub rid_base: u32,
    pub dart_phandle: u32,
    pub sid_base: u32,
    pub rid_length: u32,
}

/// Bytes of an entry.
pub const IOMMU_MAP_ENTRY_SIZE: usize = 16;

/// The entry that starts at byte `at`.
pub open spec fn map_entry(bytes: Seq<u8>, at: int) -> IommuMapEntry {
    IommuMapEntry {
        rid_base: be32(bytes, at),
        dart_phandle: be32(bytes, at + 4),
        sid_base: be32(bytes, at + 8),
        rid_length: be32(bytes, at + 12),
    }
}

/// The entries of a map; a last piece that is too short is left out.
pub open spec fn map_entries(bytes: Seq<u8>) -> Seq<IommuMapEntry> {
    Seq::new(bytes.len() / 16, |i: int| map_entry(bytes, 16 * i))
}

/// The entries of a map; a last piece that is too short is left out.
pub fn parse_iommu_map(bytes: &[u8]) -> (r: Vec<IommuMapEntry>)
    ensures
        r@ == map_entries(bytes@),
{
    let mut entries: Vec<IommuMapEntry> = Vec::new();
    let mut offset: usize = 0;
    while bytes.len() - offset >= IOMMU_MAP_ENTRY_SIZE
        invariant
            offset <= bytes@.len(),
            offset == 16 * entries@.len(),
            entries@ == Seq::new(entries@.len(), |i: int| map_entry(bytes@, 16 * i)),
        decreases bytes@.len() - offset,
    {
        let ghost before = entries@;
        entries.push(
            IommuMapEntry {
                rid_base: get_be32(bytes, offset),
                dart_phandle: get_be32(bytes, offset + 4),
                sid_base: get_be32(bytes, offset + 8),
                rid_length: get_be32(bytes, offset + 12),
            },
        );
        offset = offset + IOMMU_MAP_ENTRY_SIZE;
        assert(entries@ =~= Seq::new(entries@.len(), |i: int| map_entry(bytes@, 16 * i)));
    }
    assert(entries@ =~= map_entries(bytes@));
    entries
}

/// The streams of an entry have numbers, and registers.
pub open spec fn entry_ok(entry: IommuMapEntry) -> bool {
    &&& entry.sid_base + entry.rid_length <= u32::MAX
    &&& entry.rid_length > 0 ==> ttbr_offset_of(entry.sid_base + entry.rid_length - 1)
        <= usize::MAX
}

/// Whether the streams of an entry have numbers, and registers.
pub fn entry_fits(entry: &IommuMapEntry) -> (r: bool)
    ensures
        r == entry_ok(*entry),
{
    let end: u64 = entry.sid_base as u64 + entry.rid_length as u64;
    if end > u32::MAX as u64 {
        return false;
    }
    entry.rid_length == 0 || 0x200 + (end - 1) * 16 <= usize::MAX as u64
}

/// Lets `count` streams from `sid` on through.
pub open spec fn bypass_range(dart: DartInstance, sid: int, count: int) -> Seq<Step>
    decreases count,
{
    if count <= 0 {
        Seq::empty()
    } else {
        bypass_range(dart, sid, count - 1) + bypass_steps(dart.spec_params(), sid + count - 1)
    }
}

/// Lets the streams of an entry through.
pub fn bypass_entry(dart: &DartInstance, entry: &IommuMapEntry) -> (r: Vec<Step>)
    requires
        entry_ok(*entry),
    ensures
        r@ == bypass_range(*dart, entry.sid_base as int, entry.rid_length as int),
{
    let mut steps: Vec<Step> = Vec::new();
    let mut count: u32 = 0;
    while count < entry.rid_length
        invariant
            count <= entry.rid_length,
            entry_ok(*entry),
            steps@ == bypass_range(*dart, entry.sid_base as int, count as int),
        decreases entry.rid_length - count,
    {
        let mut more = dart.enable_bypass((entry.sid_base + count) as usize);
        steps.append(&mut more);
        count = count + 1;
    }
    steps
}

/// How many of the entries from `i` on come before the first whose DART is not there.
pub open spec fn ready_entries(
    entries: Seq<IommuMapEntry>,
    darts: Seq<DartEntry>,
    i: int,
) -> int
    decreases entries.len() - i,
{
    if i < 0 || i >= entries.len() || dart_with(darts, entries[i].dart_phandle, 0) is None {
        i
    } else {
        ready_entries(entries, darts, i + 1)
    }
}

/// How many entries of a map can be served. Where that is not all of them, the device is to be
/// probed again later, after those entries were served.
pub fn count_ready(entries: &[IommuMapEntry], darts: &DartRegistry) -> (r: usize)
    ensures
        r == ready_entries(entries@, darts@, 0),
        r <= entries@.len(),
        forall|k: int|
            0 <= k < r ==> dart_with(darts@, #[trigger] entries@[k].dart_phandle, 0) is Some,
        r < entries@.len() ==> dart_with(darts@, entries@[r as int].dart_phandle, 0) is None,
{
    let mut i: usize = 0;
    while i < entries.len()
        invariant
            i <= entries@.len(),
            ready_entries(entries@, darts@, 0) == ready_entries(entries@, darts@, i as int),
            forall|k: int|
                0 <= k < i ==> dart_with(darts@, #[trigger] entries@[k].dart_phandle, 0) is Some,
        decreases entries@.len() - i,
    {
        if get_dart_by_phandle(darts, entries[i].dart_phandle).is_none() {
            return i;
        }
        i = i + 1;
    }
    i
}

/// The first vector of a controller and the vectors of each port.
pub open spec fn msi_ranges(device: DeviceNode) -> (u32, u32) {
    match value_of(device.properties@, "msi-ranges"@) {
        Some(v) => if v.len() >= 20 {
            (be32(v, 8), be32(v, 16))
        } else {
            (0, DEFAULT_MSI_VECTORS)
        },
        None => (0, DEFAULT_MSI_VECTORS),
    }
}

/// The first vector of a controller and the vectors of each port.
pub fn read_msi_ranges(device: &DeviceNode) -> (r: (u32, u32))
    ensures
        r == msi_ranges(*device),
{
    match find_value(device.properties.as_slice(), "msi-ranges") {
        Some(v) => if v.len() >= 20 {
            (get_be32(v, 8), get_be32(v, 16))
        } else {
            (0, DEFAULT_MSI_VECTORS)
        },
        None => (0, DEFAULT_MSI_VECTORS),
    }
}

/// The phandle under which the interrupts of a controller are registered.
pub fn msi_phandle(device: &DeviceNode) -> (r: u32)
    ensures
        r == match any_phandle_number(device.properties@) {
            Some(phandle) => phandle as u32,
            None => 0,
        },
{
    match find_any_phandle_number(device.properties.as_slice()) {
        Some(phandle) => phandle as u32,
        None => 0,
    }
}

/// The register blocks of a controller, as physical address and size.
#[derive(Debug)]
pub struct PcieRegions {
    pub config: (usize, usize),
    pub ports: Vec<(usize, usize)>,
}

/// A memory resource never ends before it starts, nor does it cover all addresses.
pub open spec fn region_ok(region: Resource) -> bool {
    region.start <= region.end && region.end - region.start < usize::MAX
}

/// The configuration space and the blocks of the ports have a size, where there are enough blocks.
pub open spec fn regions_ok(regions: Seq<Resource>) -> bool {
    regions.len() >= 4 ==> forall|i: int|
        0 <= i < regions.len() && i != 1 ==> region_ok(#[trigger] regions[i])
}

/// Whether the configuration space and the blocks of the ports have a size, where there are enough
/// blocks.
pub fn regions_fit(device: &DeviceNode) -> (r: bool)
    ensures
        r == regions_ok(resources_of(device.resources@, ResourceKind::Mem)),
{
    let mem = select_resources(device.resources.as_slice(), ResourceKind::Mem);
    if mem.len() < 4 {
        return true;
    }
    let mut i: usize = 0;
    while i < mem.len()
        invariant
            i <= mem@.len(),
            mem@.len() >= 4,
            mem@ == resources_of(device.resources@, ResourceKind::Mem),
            forall|k: int| 0 <= k < i && k != 1 ==> region_ok(#[trigger] mem@[k]),
        decreases mem@.len() - i,
    {
        let m = mem[i];
        if i != 1 && (m.start > m.end || m.end - m.start == usize::MAX) {
            assert(!region_ok(mem@[i as int]));
            return false;
        }
        i = i + 1;
    }
    true
}

/// The address and size of a block.
pub open spec fn block(m: Resource) -> (usize, usize) {
    (m.start, (m.end - m.start + 1) as usize)
}

/// The register blocks of a controller: configuration space, root complex, and one for each port.
pub fn pcie_regions(device: &DeviceNode) -> (r: Result<PcieRegions, &'static str>)
    requires
        regions_ok(resources_of(device.resources@, ResourceKind::Mem)),
    ensures
        ({
            let mem = resources_of(device.resources@, ResourceKind::Mem);
            match r {
                Ok(regions) => {
                    &&& mem.len() >= 4
                    &&& regions.config == block(mem[0])
                    &&& regions.ports@ == Seq::new(
                        (mem.len() - 2) as nat,
                        |i: int| block(mem[i + 2]),
                    )
                },
                Err(e) => {
                    &&& mem.len() < 4
                    &&& e
                        == "apple-pcie: expected at least 4 memory regions (config, rc, port0, port1)"
                },
            }
        }),
{
    let mem = select_resources(device.resources.as_slice(), ResourceKind::Mem);
    if mem.len() < 4 {
        return Err(
            "apple-pcie: expected at least 4 memory regions (config, rc, port0, port1)",
        );
    }
    assert(region_ok(mem@[0]));
    let first = mem[0];
    let config: (usize, usize) = (first.start, first.end - first.start + 1);
    let mut ports: Vec<(usize, usize)> = Vec::new();
    let mut i: usize = 2;
    while i < mem.len()
        invariant
            2 <= i <= mem@.len(),
            mem@.len() >= 4,
            regions_ok(mem@),
            ports@ == Seq::new((i - 2) as nat, |k: int| block(mem@[k + 2])),
        decreases mem@.len() - i,
    {
        assert(region_ok(mem@[i as int]));
        let m = mem[i];
        ports.push((m.start, m.end - m.start + 1));
        i = i + 1;
        assert(ports@ =~= Seq::new((i - 2) as nat, |k: int| block(mem@[k + 2])));
    }
    Ok(PcieRegions { config, ports })
}

/// The lane of a port lies within the address space, and its vectors have numbers.
pub open spec fn port_fits(config_vaddr: usize, port_idx: u32, msi: (u32, u32)) -> bool {
    &&& config_vaddr + PHY_OFFSET + port_idx * PHY_STRIDE <= usize::MAX
    &&& msi.0 + port_idx * msi.1 <= u32::MAX
}

/// A port whose registers are mapped at `port_vaddr`, of a controller whose configuration space
/// is mapped at `config_vaddr`.
pub fn new_port(
    port_idx: u32,
    port_vaddr: usize,
    config_vaddr: usize,
    msi_phandle: u32,
    msi: (u32, u32),
) -> (r: ApplePciePort)
    requires
        port_fits(config_vaddr, port_idx, msi),
    ensures
        r == (ApplePciePort {
            index: port_idx,
            port_base: port_vaddr,
            phy_base: (config_vaddr + PHY_OFFSET + port_idx * PHY_STRIDE) as usize,
            ecam: config_vaddr,
            initialized: false,
            msi_config: None,
            msi_phandle,
            msi_base_vector: (msi.0 + port_idx * msi.1) as u32,
            msi_num_vectors: msi.1,
        }),
{
    assert(0 <= port_idx * msi.1) by (nonlinear_arith)
        requires
            port_idx >= 0,
            msi.1 >= 0,
    ;
    ApplePciePort {
        index: port_idx,
        port_base: port_vaddr,
        phy_base: config_vaddr + PHY_OFFSET + (port_idx as usize) * PHY_STRIDE,
        ecam: config_vaddr,
        initialized: false,
        msi_config: None,
        msi_phandle,
        msi_base_vector: msi.0 + port_idx * msi.1,
        msi_num_vectors: msi.1,
    }
}

/// Keep the driver object linked into module builds.
pub fn force_link() {
}

/// Law: the ports of a controller have vectors of their own.
pub proof fn law_ports_have_their_own_vectors(first: u32, second: u32, msi: (u32, u32))
    requires
        first < second,
    ensures
        msi.0 + first * msi.1 + msi.1 <= msi.0 + second * msi.1,
{
    assert(first * msi.1 + msi.1 <= second * msi.1) by (nonlinear_arith)
        requires
            first + 1 <= second,
            msi.1 >= 0,
    ;
}

/// Law: what was registered is what its number gives back.
pub proof fn law_registered_port_is_found(ports: Seq<ApplePciePort>, port: ApplePciePort)
    requires
        ports.len() <= u32::MAX,
    ensures
        ports.push(port)[ports.len() as u32 as int] == port,
        forall|id: int| 0 <= id < ports.len() ==> ports.push(port)[id] == ports[id],
{
}

/// Law: the configuration space of each function lies in four kilobytes of its own: the place tells bus,
/// device, function and register.
pub proof fn law_functions_have_their_own_space(bus: u32, dev: u32, func: u32, offset: u16)
    requires
        dev < 32,
        func < 8,
        offset < 4096,
    ensures
        ecam_offset(bus, dev, func, offset) % 4096 == offset,
        ecam_offset(bus, dev, func, offset) / 4096 % 8 == func,
        ecam_offset(bus, dev, func, offset) / 32768 % 32 == dev,
        ecam_offset(bus, dev, func, offset) / 1048576 == bus,
{
}

/// Law: the map of requesters is made of four cells to an entry, in order.
pub proof fn law_map_is_read_in_order(bytes: Seq<u8>, i: int)
    requires
        0 <= i,
        16 * i + 16 <= bytes.len(),
    ensures
        map_entries(bytes).len() == bytes.len() / 16,
        map_entries(bytes)[i].rid_base == be32(bytes, 16 * i),
        map_entries(bytes)[i].dart_phandle == be32(bytes, 16 * i + 4),
        map_entries(bytes)[i].sid_base == be32(bytes, 16 * i + 8),
        map_entries(bytes)[i].rid_length == be32(bytes, 16 * i + 12),
{
}

/// Law: entries are ready up to the first whose translation unit is not there.
pub proof fn law_first_missing_unit_stops(
    entries: Seq<IommuMapEntry>,
    darts: Seq<DartEntry>,
    from: int,
    i: int,
)
    requires
        0 <= from <= i < entries.len(),
    ensures
        ({
            let n = ready_entries(entries, darts, from);
            &&& from <= n <= entries.len()
            &&& i < n ==> dart_with(darts, entries[i].dart_phandle, 0) is Some
            &&& i == n ==> dart_with(darts, entries[i].dart_phandle, 0) is None
        }),
    decreases entries.len() - from,
{
    if dart_with(darts, entries[from].dart_phandle, 0) is Some {
        if from < i {
            law_first_missing_unit_stops(entries, darts, from + 1, i);
        } else if from + 1 < entries.len() {
            law_first_missing_unit_stops(entries, darts, from + 1, from + 1);
        } else {
            reveal_with_fuel(ready_entries, 2);
        }
    }
}

/// Law: the vectors are those that the node gives, the first in its third cell and their number in its
/// fifth; a node without them has 32 from 0 on.
pub proof fn law_vectors_are_read(device: DeviceNode)
    ensures
        match value_of(device.properties@, "msi-ranges"@) {
            Some(v) => if v.len() >= 20 {
                msi_ranges(device) == (be32(v, 8), be32(v, 16))
            } else {
                msi_ranges(device) == (0u32, 32u32)
            },
            None => msi_ranges(device) == (0u32, 32u32),
        },
{
}

/// Law: a port comes up in order: its clocks, the two reference clocks, each asked for and waited for,
/// and only then is it let out of reset, waited for and trained. Its requester is mapped to the stream
/// of its number.
pub proof fn law_ports_come_up_in_order(index: u32)
    ensures
        ({
            let steps = init_steps(index);
            let write = |win: u8, offset: usize, value: u32| Step::Write { win, offset, value };
            let raise = |offset: usize, bits: u32|
                Step::Update { win: 1, offset, clear: 0, set: bits };
            let shows = |step: Step, w: u8, at: usize, bit: u32|
                step matches Step::Poll { win, offset, mask, want, skip, .. } && win == w && offset == at
                    && mask == bit && want == bit && skip == 1;
            &&& steps.len() == 18
            &&& steps[0] == write(0, 0x800, 1u32 | 0x100)
            &&& steps[1] == write(1, 4, 0x8000)
            &&& steps[2] == raise(0, 1) && shows(steps[3], 1, 0, 4) && steps[4] is Fail
            &&& steps[5] == raise(0, 2) && shows(steps[6], 1, 0, 8) && steps[7] is Fail
            &&& steps[8] == raise(0, 0x200u32 | 0x400)
            &&& steps[9] == write(1, 4, 0)
            &&& steps[10] == write(0, 0x810, 1u32 | 0x100)
            &&& steps[11] is Spin
            &&& steps[12] == write(0, 0x814, 1)
            &&& shows(steps[13], 0, 0x804, 1) && steps[14] is Fail
            &&& steps[15] == write(0, 0x80, 1)
            &&& steps[16] == write(0, 0x104, 0x1000u32 | 0x4000)
            &&& steps[17] == write(0, 0x828, 0x8000_0000u32 | (index << 16))
        }),
{
}

} // verus!
