//! What the device tree tells of a display coprocessor.

use vstd::prelude::*;
use crate::bytes::{be32, be64, get_be32, get_be64};
use crate::dcp_fault::DcpFault;
use crate::device::{
    cell_at, cell_of, child_nodes, children, find_by_handle, find_cell, find_cell_at, find_child,
    find_node_handle, find_region, find_node, find_value, has_property, has_string, lists,
    named_among, node_by_handle, node_handle, property_of, region_of, region_size, resources_of,
    select_resources, span, node_at, value_of, DeviceNode, Property, Resource, ResourceKind,
    TreeNode,
};
use crate::iomfb_wire::BandwidthRegisters;

verus! {

pub const T8103_ASC_DRAM_MASK: u64 = 0xf_0000_0000;

/// An IOMMU and a stream of it.
#[derive(Clone, Copy, Debug, PartialEq, Eq, Structural)]
pub struct IommuRef {
    pub phandle: u32,
    pub stream: u32,
}

/// The handle of a device.
pub open spec fn device_handle(props: Seq<Property>) -> Option<u32> {
    match cell_of(props, "phandle"@) {
        Some(phandle) => Some(phandle),
        None => cell_of(props, "linux,phandle"@),
    }
}

/// The handle of a device.
pub fn device_phandle(device: &DeviceNode) -> (r: Option<u32>)
    ensures
        r == device_handle(device.properties@),
{
    let props = device.properties.as_slice();
    match find_cell(props, "phandle") {
        Some(phandle) => Some(phandle),
        None => find_cell(props, "linux,phandle"),
    }
}

/// The IOMMU of a node.
pub open spec fn iommu_of(props: Seq<Property>) -> Option<IommuRef> {
    match (cell_at(props, "iommus"@, 0), cell_at(props, "iommus"@, 4)) {
        (Some(phandle), Some(stream)) => Some(IommuRef { phandle, stream }),
        _ => None,
    }
}

/// The IOMMU of a node.
pub fn iommu_spec(props: &[Property]) -> (r: Option<IommuRef>)
    ensures
        r == iommu_of(props@),
{
    match (find_cell_at(props, "iommus", 0), find_cell_at(props, "iommus", 4)) {
        (Some(phandle), Some(stream)) => Some(IommuRef { phandle, stream }),
        _ => None,
    }
}

/// The mailbox of a device.
pub open spec fn mailbox_of(props: Seq<Property>) -> Option<u32> {
    match cell_of(props, "mboxes"@) {
        Some(mailbox) => Some(mailbox),
        None => cell_of(props, "mailboxes"@),
    }
}

/// The mailbox of a device.
pub fn mailbox_phandle(device: &DeviceNode) -> (r: Option<u32>)
    ensures
        r == mailbox_of(device.properties@),
{
    let props = device.properties.as_slice();
    match find_cell(props, "mboxes") {
        Some(mailbox) => Some(mailbox),
        None => find_cell(props, "mailboxes"),
    }
}

/// A region of the first node with this handle.
pub open spec fn region_by_handle(tree: Seq<TreeNode>, phandle: u32, index: u32) -> Option<
    (usize, usize),
> {
    match node_by_handle(tree, phandle, 0) {
        None => None,
        Some(i) => match region_of(tree[i], index as usize) {
            None => None,
            Some(region) => Some(
                (
                    region.address,
                    match region.size {
                        Some(size) => size,
                        None => 0,
                    },
                ),
            ),
        },
    }
}

/// A region of the first node with this handle.
pub fn phandle_reg(tree: &[TreeNode], phandle: u32, index: u32) -> (r: Option<(usize, usize)>)
    ensures
        r == region_by_handle(tree@, phandle, index),
{
    let i: usize = match find_by_handle(tree, phandle) {
        Some(i) => i,
        None => return None,
    };
    match find_region(&tree[i], index as usize) {
        None => None,
        Some(region) => {
            let size: usize = match region.size {
                Some(size) => size,
                None => 0,
            };
            Some((region.address, size))
        },
    }
}

/// The frequency in the first node from `i` on that has this handle and a frequency.
pub open spec fn frequency_by_handle(tree: Seq<TreeNode>, phandle: u32, i: int) -> Option<u32>
    decreases tree.len() - i,
{
    if i < 0 || i >= tree.len() {
        None
    } else if node_handle(tree[i].properties@) == Some(phandle) && cell_of(
        tree[i].properties@,
        "clock-frequency"@,
    ) is Some {
        cell_of(tree[i].properties@, "clock-frequency"@)
    } else {
        frequency_by_handle(tree, phandle, i + 1)
    }
}

/// The frequency of a device's clock: that of the clock it refers to, or its own; none is 0.
pub open spec fn clock_frequency(device: DeviceNode, tree: Seq<TreeNode>) -> u64 {
    let referenced = match cell_of(device.properties@, "clocks"@) {
        Some(phandle) => frequency_by_handle(tree, phandle, 0),
        None => None,
    };
    match referenced {
        Some(frequency) => frequency as u64,
        None => match cell_of(device.properties@, "clock-frequency"@) {
            Some(frequency) => frequency as u64,
            None => 0,
        },
    }
}

/// The frequency of a device's clock.
pub fn device_clock_frequency(device: &DeviceNode, tree: &[TreeNode]) -> (r: u64)
    ensures
        r == clock_frequency(*device, tree@),
{
    let props = device.properties.as_slice();
    if let Some(phandle) = find_cell(props, "clocks") {
        let mut i: usize = 0;
        while i < tree.len()
            invariant
                i <= tree@.len(),
                cell_of(device.properties@, "clocks"@) == Some(phandle),
                frequency_by_handle(tree@, phandle, 0) == frequency_by_handle(
                    tree@,
                    phandle,
                    i as int,
                ),
            decreases tree@.len() - i,
        {
            let node_props = tree[i].properties.as_slice();
            if let Some(handle) = find_node_handle(node_props) {
                if handle == phandle {
                    if let Some(frequency) = find_cell(node_props, "clock-frequency") {
                        return frequency as u64;
                    }
                }
            }
            i = i + 1;
        }
    }
    match find_cell(props, "clock-frequency") {
        Some(frequency) => frequency as u64,
        None => 0,
    }
}

/// Blocks of registers, where each of them has a size.
pub open spec fn blocks_of(resources: Seq<Resource>) -> Result<Seq<(usize, usize)>, DcpFault> {
    if exists|i: int|
        0 <= i < resources.len() && span((#[trigger] resources[i]).start, resources[i].end)
            is None {
        Err(DcpFault::InvalidRegisters)
    } else {
        Ok(
            Seq::new(
                resources.len(),
                |i: int|
                    (resources[i].start, span(resources[i].start, resources[i].end)->Some_0),
            ),
        )
    }
}

/// The display's own registers: all memory of the device but the first block.
pub open spec fn own_blocks(device: DeviceNode) -> Result<Seq<(usize, usize)>, DcpFault> {
    let all = resources_of(device.resources@, ResourceKind::Mem);
    blocks_of(
        if all.len() == 0 {
            all
        } else {
            all.skip(1)
        },
    )
}

fn read_own_blocks(device: &DeviceNode) -> (r: Result<Vec<(usize, usize)>, DcpFault>)
    ensures
        match r {
            Ok(blocks) => own_blocks(*device) == Ok::<Seq<(usize, usize)>, DcpFault>(blocks@),
            Err(fault) => own_blocks(*device) == Err::<Seq<(usize, usize)>, DcpFault>(fault),
        },
{
    let all = select_resources(device.resources.as_slice(), ResourceKind::Mem);
    let ghost own = if all@.len() == 0 {
        all@
    } else {
        all@.skip(1)
    };
    let mut blocks: Vec<(usize, usize)> = Vec::new();
    let mut i: usize = 1;
    while i < all.len()
        invariant
            1 <= i,
            all@ == resources_of(device.resources@, ResourceKind::Mem),
            own == if all@.len() == 0 {
                all@
            } else {
                all@.skip(1)
            },
            i <= all@.len() || all@.len() == 0 && i == 1,
            blocks@.len() == i - 1,
            forall|k: int|
                0 <= k < i - 1 ==> span((#[trigger] own[k]).start, own[k].end) is Some
                    && blocks@[k] == (own[k].start, span(own[k].start, own[k].end)->Some_0),
        decreases all@.len() - i,
    {
        assert(own[i - 1] == all@[i as int]);
        match region_size(all[i].start, all[i].end) {
            Some(size) => blocks.push((all[i].start, size)),
            None => return Err(DcpFault::InvalidRegisters),
        }
        i = i + 1;
    }
    assert(blocks@ =~= Seq::new(
        own.len(),
        |i: int| (own[i].start, span(own[i].start, own[i].end)->Some_0),
    ));
    Ok(blocks)
}

/// A reference to a register block outside of the device: the region itself, after a check that it
/// comes next in the list.
pub open spec fn outside_block(
    tree: Seq<TreeNode>,
    phandle: u32,
    reg: u32,
    index: u32,
    next: int,
    unexpected: DcpFault,
    missing: DcpFault,
) -> Result<(usize, usize), DcpFault> {
    if index != next {
        Err(unexpected)
    } else {
        match region_by_handle(tree, phandle, reg) {
            None => Err(missing),
            Some(region) => Ok(region),
        }
    }
}

fn read_outside_block(
    tree: &[TreeNode],
    phandle: u32,
    reg: u32,
    index: u32,
    next: usize,
    unexpected: DcpFault,
    missing: DcpFault,
) -> (r: Result<(usize, usize), DcpFault>)
    ensures
        r == outside_block(tree@, phandle, reg, index, next as int, unexpected, missing),
{
    if index as usize != next {
        return Err(unexpected);
    }
    match phandle_reg(tree, phandle, reg) {
        None => Err(missing),
        Some(region) => Ok(region),
    }
}

/// The bandwidth scratch register: its block, and its offset in it.
pub open spec fn scratch_of(props: Seq<Property>, tree: Seq<TreeNode>, next: int) -> Result<
    ((usize, usize), u32),
    DcpFault,
> {
    let name = "apple,bw-scratch"@;
    let cells = (
        cell_at(props, name, 0),
        cell_at(props, name, 4),
        cell_at(props, name, 8),
        cell_at(props, name, 12),
    );
    match cells {
        (None, _, _, _) => Err(DcpFault::ScratchPhandle),
        (_, None, _, _) => Err(DcpFault::ScratchReg),
        (_, _, None, _) => Err(DcpFault::ScratchIndex),
        (_, _, _, None) => Err(DcpFault::ScratchOffset),
        (Some(phandle), Some(reg), Some(index), Some(offset)) => match outside_block(
            tree,
            phandle,
            reg,
            index,
            next,
            DcpFault::ScratchUnexpected,
            DcpFault::ScratchMissing,
        ) {
            Err(fault) => Err(fault),
            Ok(region) => Ok((region, offset)),
        },
    }
}

fn read_scratch(props: &[Property], tree: &[TreeNode], next: usize) -> (r: Result<
    ((usize, usize), u32),
    DcpFault,
>)
    ensures
        r == scratch_of(props@, tree@, next as int),
{
    let name = "apple,bw-scratch";
    let phandle: u32 = match find_cell_at(props, name, 0) {
        Some(phandle) => phandle,
        None => return Err(DcpFault::ScratchPhandle),
    };
    let reg: u32 = match find_cell_at(props, name, 4) {
        Some(reg) => reg,
        None => return Err(DcpFault::ScratchReg),
    };
    let index: u32 = match find_cell_at(props, name, 8) {
        Some(index) => index,
        None => return Err(DcpFault::ScratchIndex),
    };
    let offset: u32 = match find_cell_at(props, name, 12) {
        Some(offset) => offset,
        None => return Err(DcpFault::ScratchOffset),
    };
    match read_outside_block(
        tree,
        phandle,
        reg,
        index,
        next,
        DcpFault::ScratchUnexpected,
        DcpFault::ScratchMissing,
    ) {
        Err(fault) => Err(fault),
        Ok(region) => Ok((region, offset)),
    }
}

/// The block of the bandwidth doorbell.
pub open spec fn doorbell_of(props: Seq<Property>, tree: Seq<TreeNode>, next: int) -> Result<
    (usize, usize),
    DcpFault,
> {
    let name = "apple,bw-doorbell"@;
    match (cell_at(props, name, 0), cell_at(props, name, 4), cell_at(props, name, 8)) {
        (None, _, _) => Err(DcpFault::DoorbellPhandle),
        (_, None, _) => Err(DcpFault::DoorbellReg),
        (_, _, None) => Err(DcpFault::DoorbellIndex),
        (Some(phandle), Some(reg), Some(index)) => outside_block(
            tree,
            phandle,
            reg,
            index,
            next,
            DcpFault::DoorbellUnexpected,
            DcpFault::DoorbellMissing,
        ),
    }
}

fn read_doorbell(props: &[Property], tree: &[TreeNode], next: usize) -> (r: Result<
    (usize, usize),
    DcpFault,
>)
    ensures
        r == doorbell_of(props@, tree@, next as int),
{
    let name = "apple,bw-doorbell";
    let phandle: u32 = match find_cell_at(props, name, 0) {
        Some(phandle) => phandle,
        None => return Err(DcpFault::DoorbellPhandle),
    };
    let reg: u32 = match find_cell_at(props, name, 4) {
        Some(reg) => reg,
        None => return Err(DcpFault::DoorbellReg),
    };
    let index: u32 = match find_cell_at(props, name, 8) {
        Some(index) => index,
        None => return Err(DcpFault::DoorbellIndex),
    };
    read_outside_block(
        tree,
        phandle,
        reg,
        index,
        next,
        DcpFault::DoorbellUnexpected,
        DcpFault::DoorbellMissing,
    )
}

/// The number of the coprocessor.
pub open spec fn dcp_index(props: Seq<Property>) -> u32 {
    match cell_of(props, "apple,dcp-index"@) {
        Some(index) => index,
        None => 0,
    }
}

/// All display registers of a device, and the bandwidth registers where it has any.
pub open spec fn registers_of(device: DeviceNode, tree: Seq<TreeNode>) -> Result<
    (Seq<(usize, usize)>, Option<BandwidthRegisters>),
    DcpFault,
> {
    let props = device.properties@;
    match own_blocks(device) {
        Err(fault) => Err(fault),
        Ok(own) => if property_of(props, "apple,bw-scratch"@) is None {
            Ok((own, None))
        } else {
            match scratch_of(props, tree, own.len() as int) {
                Err(fault) => Err(fault),
                Ok((block, offset)) => {
                    let scratch = if block.0 + offset > usize::MAX {
                        usize::MAX as u64
                    } else {
                        (block.0 + offset) as u64
                    };
                    let all = own.push(block);
                    if property_of(props, "apple,bw-doorbell"@) is None {
                        Ok((all, Some(BandwidthRegisters { scratch, doorbell: 0, doorbell_bit: 0 })))
                    } else {
                        match doorbell_of(props, tree, all.len() as int) {
                            Err(fault) => Err(fault),
                            Ok(bell) => Ok(
                                (
                                    all.push(bell),
                                    Some(
                                        BandwidthRegisters {
                                            scratch,
                                            doorbell: bell.0 as u64,
                                            doorbell_bit: (2 + dcp_index(props)) as u32,
                                        },
                                    ),
                                ),
                            ),
                        }
                    }
                },
            }
        },
    }
}

/// Reads all display registers of a device, and the bandwidth registers where it has any.
pub fn iomfb_registers(device: &DeviceNode, tree: &[TreeNode]) -> (r: Result<
    (Vec<(usize, usize)>, Option<BandwidthRegisters>),
    DcpFault,
>)
    requires
        dcp_index(device.properties@) <= u32::MAX - 2,
    ensures
        match r {
            Ok((registers, bandwidth)) => registers_of(*device, tree@) == Ok::<
                (Seq<(usize, usize)>, Option<BandwidthRegisters>),
                DcpFault,
            >((registers@, bandwidth)),
            Err(fault) => registers_of(*device, tree@) == Err::<
                (Seq<(usize, usize)>, Option<BandwidthRegisters>),
                DcpFault,
            >(fault),
        },
{
    let props = device.properties.as_slice();
    let mut registers = match read_own_blocks(device) {
        Ok(registers) => registers,
        Err(fault) => return Err(fault),
    };
    if !has_property(props, "apple,bw-scratch") {
        return Ok((registers, None));
    }
    let (block, offset) = match read_scratch(props, tree, registers.len()) {
        Ok(found) => found,
        Err(fault) => return Err(fault),
    };
    registers.push(block);
    let scratch: u64 = block.0.saturating_add(offset as usize) as u64;
    let mut doorbell: u64 = 0;
    let mut doorbell_bit: u32 = 0;
    if has_property(props, "apple,bw-doorbell") {
        let bell = match read_doorbell(props, tree, registers.len()) {
            Ok(bell) => bell,
            Err(fault) => return Err(fault),
        };
        doorbell = bell.0 as u64;
        registers.push(bell);
        let index: u32 = match find_cell(props, "apple,dcp-index") {
            Some(index) => index,
            None => 0,
        };
        doorbell_bit = 2 + index;
    }
    Ok((registers, Some(BandwidthRegisters { scratch, doorbell, doorbell_bit })))
}

/// A display subsystem with an IOMMU and a handle.
pub open spec fn is_display(node: TreeNode) -> bool {
    lists(node.compatible@, "apple,display-subsystem"@) && property_of(
        node.properties@,
        "iommus"@,
    ) is Some && (property_of(node.properties@, "phandle"@) is Some || property_of(
        node.properties@,
        "linux,phandle"@,
    ) is Some)
}

/// The first display subsystem from `i` on.
pub open spec fn display_from(tree: Seq<TreeNode>, i: int) -> Option<int>
    decreases tree.len() - i,
{
    if i < 0 || i >= tree.len() {
        None
    } else if is_display(tree[i]) {
        Some(i)
    } else {
        display_from(tree, i + 1)
    }
}

/// The IOMMU and the handle of the display subsystem.
pub open spec fn display_iommu(tree: Seq<TreeNode>) -> Option<(IommuRef, u32)> {
    match display_from(tree, 0) {
        None => None,
        Some(i) => match (iommu_of(tree[i].properties@), node_handle(tree[i].properties@)) {
            (Some(iommu), Some(phandle)) => Some((iommu, phandle)),
            _ => None,
        },
    }
}

/// Finds the IOMMU and the handle of the display subsystem.
pub fn find_display_iommu(tree: &[TreeNode]) -> (r: Option<(IommuRef, u32)>)
    ensures
        r == display_iommu(tree@),
{
    let mut i: usize = 0;
    while i < tree.len()
        invariant
            i <= tree@.len(),
            display_from(tree@, 0) == display_from(tree@, i as int),
        decreases tree@.len() - i,
    {
        let props = tree[i].properties.as_slice();
        if has_string(tree[i].compatible.as_slice(), "apple,display-subsystem") && has_property(
            props,
            "iommus",
        ) && (has_property(props, "phandle") || has_property(props, "linux,phandle")) {
            return match (iommu_spec(props), find_node_handle(props)) {
                (Some(iommu), Some(phandle)) => Some((iommu, phandle)),
                _ => None,
            };
        }
        i = i + 1;
    }
    None
}

/// The second IOMMU of a coprocessor: that of its `piodma` child.
pub open spec fn piodma_iommu(tree: Seq<TreeNode>, phandle: u32) -> Option<IommuRef> {
    match node_by_handle(tree, phandle, 0) {
        None => None,
        Some(i) => match named_among(tree, children(tree, i), "piodma"@, 0) {
            None => None,
            Some(child) => iommu_of(tree[child].properties@),
        },
    }
}

/// Finds the second IOMMU of a coprocessor.
pub fn find_piodma_iommu(tree: &[TreeNode], phandle: u32) -> (r: Option<IommuRef>)
    ensures
        r == piodma_iommu(tree@, phandle),
{
    let i: usize = match find_by_handle(tree, phandle) {
        Some(i) => i,
        None => return None,
    };
    match find_child(tree, i, "piodma") {
        Some(child) => iommu_spec(tree[child].properties.as_slice()),
        None => None,
    }
}

/// Memory that the firmware hands over, mapped.
#[derive(Clone, Copy, Debug, PartialEq, Eq, Structural)]
pub struct Handoff {
    pub iova: usize,
    pub paddr: usize,
    pub size: usize,
}

/// The mappings for a device in a list of them from entry `k` on. An entry is the handle of a device,
/// an address and a size.
pub open spec fn handoffs_in(value: Seq<u8>, phandle: u32, paddr: u64, k: int) -> Seq<Handoff>
    decreases value.len() - 20 * k,
{
    if k < 0 || 20 * k + 20 > value.len() {
        Seq::empty()
    } else {
        (if be32(value, 20 * k) == phandle {
            seq![
                Handoff {
                    iova: be64(value, 20 * k + 4) as usize,
                    paddr: paddr as usize,
                    size: be64(value, 20 * k + 12) as usize,
                },
            ]
        } else {
            Seq::empty()
        }) + handoffs_in(value, phandle, paddr, k + 1)
    }
}

/// The mappings for a device of one piece of reserved memory.
pub open spec fn node_handoffs(node: TreeNode, phandle: u32) -> Seq<Handoff> {
    match (
        value_of(node.properties@, "reg"@),
        value_of(node.properties@, "iommu-addresses"@),
    ) {
        (Some(reg), Some(addresses)) => if reg.len() >= 8 {
            handoffs_in(addresses, phandle, be64(reg, 0), 0)
        } else {
            Seq::empty()
        },
        _ => Seq::empty(),
    }
}

/// The mappings for a device of the pieces from `k` on.
pub open spec fn handoffs_from(tree: Seq<TreeNode>, nodes: Seq<int>, phandle: u32, k: int) -> Seq<
    Handoff,
>
    decreases nodes.len() - k,
{
    if k < 0 || k >= nodes.len() {
        Seq::empty()
    } else {
        node_handoffs(tree[nodes[k]], phandle) + handoffs_from(tree, nodes, phandle, k + 1)
    }
}

/// The mappings that the firmware hands over for a device.
pub open spec fn handoffs_for(tree: Option<Seq<TreeNode>>, phandle: u32) -> Result<
    Seq<Handoff>,
    DcpFault,
> {
    match tree {
        None => Err(DcpFault::NoFdt),
        Some(tree) => match node_at(tree, "/reserved-memory"@) {
            None => Err(DcpFault::NoReservedMemory),
            Some(i) => Ok(handoffs_from(tree, children(tree, i), phandle, 0)),
        },
    }
}

fn read_handoffs(node: &TreeNode, phandle: u32) -> (r: Vec<Handoff>)
    ensures
        r@ == node_handoffs(*node, phandle),
{
    let props = node.properties.as_slice();
    let mut found: Vec<Handoff> = Vec::new();
    assert(found@ =~= Seq::<Handoff>::empty());
    let reg = match find_value(props, "reg") {
        Some(reg) => reg,
        None => return found,
    };
    let value = match find_value(props, "iommu-addresses") {
        Some(value) => value,
        None => return found,
    };
    if reg.len() < 8 {
        return found;
    }
    let paddr: u64 = get_be64(reg, 0);
    let mut k: usize = 0;
    let mut at: usize = 0;
    let ghost all = handoffs_in(value@, phandle, paddr, 0);
    assert(found@ + all =~= all);
    while value.len() - at >= 20
        invariant
            at == 20 * k,
            at <= value@.len(),
            all == handoffs_in(value@, phandle, paddr, 0),
            found@ + handoffs_in(value@, phandle, paddr, k as int) == all,
        decreases value@.len() - at,
    {
        assert(value.len() == value@.len());
        let ghost before = found@;
        if get_be32(value, at) == phandle {
            found.push(
                Handoff {
                    iova: get_be64(value, at + 4) as usize,
                    paddr: paddr as usize,
                    size: get_be64(value, at + 12) as usize,
                },
            );
        }
        assert(found@ + handoffs_in(value@, phandle, paddr, k + 1) =~= before + handoffs_in(
            value@,
            phandle,
            paddr,
            k as int,
        ));
        at = at + 20;
        k = k + 1;
    }
    assert(found@ =~= all);
    found
}

/// Finds the mappings that the firmware hands over for a device.
pub fn handoff_regions(tree: Option<&[TreeNode]>, phandle: u32) -> (r: Result<
    Vec<Handoff>,
    DcpFault,
>)
    ensures
        ({
            let handoffs = handoffs_for(
                match tree {
                    Some(tree) => Some(tree@),
                    None => None,
                },
                phandle,
            );
            match r {
                Ok(found) => handoffs == Ok::<Seq<Handoff>, DcpFault>(found@),
                Err(fault) => handoffs == Err::<Seq<Handoff>, DcpFault>(fault),
            }
        }),
{
    let fdt = match tree {
        Some(fdt) => fdt,
        None => return Err(DcpFault::NoFdt),
    };
    let reserved: usize = match find_node(fdt, "/reserved-memory") {
        Some(reserved) => reserved,
        None => return Err(DcpFault::NoReservedMemory),
    };
    let nodes = child_nodes(fdt, reserved);
    let ghost links = children(fdt@, reserved as int);
    assert(nodes@.map_values(|i: usize| i as int).len() == nodes@.len());
    let mut found: Vec<Handoff> = Vec::new();
    let ghost all = handoffs_from(fdt@, links, phandle, 0);
    assert(found@ + all =~= all);
    let mut k: usize = 0;
    while k < nodes.len()
        invariant
            k <= nodes@.len(),
            tree == Some(fdt),
            nodes@.len() == links.len(),
            nodes@.map_values(|i: usize| i as int) == links,
            forall|k: int| 0 <= k < nodes@.len() ==> #[trigger] nodes@[k] < fdt@.len(),
            all == handoffs_from(fdt@, links, phandle, 0),
            found@ + handoffs_from(fdt@, links, phandle, k as int) == all,
        decreases nodes@.len() - k,
    {
        let i: usize = nodes[k];
        assert(nodes@.map_values(|i: usize| i as int)[k as int] == i as int);
        let ghost before = found@;
        let mut more = read_handoffs(&fdt[i], phandle);
        found.append(&mut more);
        assert(found@ + handoffs_from(fdt@, links, phandle, k + 1) =~= before + handoffs_from(
            fdt@,
            links,
            phandle,
            k as int,
        ));
        k = k + 1;
    }
    assert(found@ =~= all);
    Ok(found)
}

/// The device addresses of a coprocessor begin here; `usual` where its node does not say.
pub open spec fn dva_base_of(props: Seq<Property>, usual: u64) -> u64 {
    let value = if property_of(props, "apple,asc-dram-mask"@) is Some {
        value_of(props, "apple,asc-dram-mask"@)
    } else {
        value_of(props, "asc-dram-mask"@)
    };
    match value {
        Some(value) => if value.len() >= 8 {
            be64(value, 0)
        } else {
            usual
        },
        None => usual,
    }
}

/// Where the device addresses of a coprocessor begin.
pub fn dva_base(device: &DeviceNode, usual: u64) -> (r: u64)
    ensures
        r == dva_base_of(device.properties@, usual),
{
    let props = device.properties.as_slice();
    let value = if has_property(props, "apple,asc-dram-mask") {
        find_value(props, "apple,asc-dram-mask")
    } else {
        find_value(props, "asc-dram-mask")
    };
    match value {
        Some(value) => if value.len() >= 8 {
            get_be64(value, 0)
        } else {
            usual
        },
        None => usual,
    }
}

/// The internal coprocessor of the T8103 has its addresses in a window of its own.
pub fn internal_dva_base(device: &DeviceNode) -> (r: u64)
    ensures
        r == dva_base_of(
            device.properties@,
            if lists(device.compatible@, "apple,t8103-dcp"@) {
                T8103_ASC_DRAM_MASK
            } else {
                0
            },
        ),
{
    if has_string(device.compatible.as_slice(), "apple,t8103-dcp") {
        dva_base(device, T8103_ASC_DRAM_MASK)
    } else {
        dva_base(device, 0)
    }
}

/// Whether the internal coprocessor runs the older firmware.
pub open spec fn old_firmware(props: Seq<Property>) -> Result<bool, &'static str> {
    let name = "apple,firmware-compat"@;
    if property_of(props, name) is None {
        Err("apple-dcp: missing apple,firmware-compat")
    } else {
        match (cell_at(props, name, 0), cell_at(props, name, 4), cell_at(props, name, 8)) {
            (Some(major), Some(minor), Some(patch)) => if major == 12 && minor == 3 && patch == 0 {
                Ok(true)
            } else if major == 13 && (minor == 3 || minor == 5) && patch == 0 {
                Ok(false)
            } else {
                Err("apple-dcp: unsupported firmware compatibility")
            },
            _ => Err("apple-dcp: invalid firmware compatibility"),
        }
    }
}

/// Whether the internal coprocessor runs the older firmware.
pub fn firmware_is_12_3(device: &DeviceNode) -> (r: Result<bool, &'static str>)
    ensures
        r == old_firmware(device.properties@),
{
    let props = device.properties.as_slice();
    let name = "apple,firmware-compat";
    if !has_property(props, name) {
        return Err("apple-dcp: missing apple,firmware-compat");
    }
    match (find_cell_at(props, name, 0), find_cell_at(props, name, 4), find_cell_at(props, name, 8)) {
        (Some(major), Some(minor), Some(patch)) => {
            if major == 12 && minor == 3 && patch == 0 {
                Ok(true)
            } else if major == 13 && (minor == 3 || minor == 5) && patch == 0 {
                Ok(false)
            } else {
                Err("apple-dcp: unsupported firmware compatibility")
            }
        },
        _ => Err("apple-dcp: invalid firmware compatibility"),
    }
}

/// Whether the external coprocessor runs the newer firmware.
pub open spec fn new_firmware(props: Seq<Property>) -> Result<bool, &'static str> {
    let name = "apple,firmware-compat"@;
    if property_of(props, name) is None {
        Err("apple-dcpext: missing firmware compatibility")
    } else {
        match (cell_at(props, name, 0), cell_at(props, name, 4)) {
            (Some(major), Some(minor)) => if major == 12 && minor == 3 {
                Ok(false)
            } else if major == 13 && (minor == 3 || minor == 5) {
                Ok(true)
            } else {
                Err("apple-dcpext: unsupported firmware compatibility")
            },
            _ => Err("apple-dcpext: invalid firmware compatibility"),
        }
    }
}

/// Whether the external coprocessor runs the newer firmware.
pub fn firmware_is_13_3_or_newer(device: &DeviceNode) -> (r: Result<bool, &'static str>)
    ensures
        r == new_firmware(device.properties@),
{
    let props = device.properties.as_slice();
    let name = "apple,firmware-compat";
    if !has_property(props, name) {
        return Err("apple-dcpext: missing firmware compatibility");
    }
    match (find_cell_at(props, name, 0), find_cell_at(props, name, 4)) {
        (Some(major), Some(minor)) => {
            if major == 12 && minor == 3 {
                Ok(false)
            } else if major == 13 && (minor == 3 || minor == 5) {
                Ok(true)
            } else {
                Err("apple-dcpext: unsupported firmware compatibility")
            }
        },
        _ => Err("apple-dcpext: invalid firmware compatibility"),
    }
}

} // verus!
