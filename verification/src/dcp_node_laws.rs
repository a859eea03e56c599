//! What holds of what a display coprocessor reads of its node.

use vstd::prelude::*;
use crate::bytes::{be32, be64};
use crate::dcp_node::{
    display_from, display_iommu, dva_base_of, handoffs_for, handoffs_from, handoffs_in, iommu_of,
    mailbox_of, new_firmware, node_handoffs, old_firmware, piodma_iommu, region_by_handle,
    registers_of, Handoff,
};
use crate::device::{
    cell_at, cell_of, children, lists, named_among, node_at, node_by_handle, node_handle,
    property_of, resources_of, value_of, DeviceNode, Property, ResourceKind, TreeNode,
};

verus! {

/// Law: three versions of the firmware are supported: 12.3, and as newer ones 13.3 and 13.5.
pub proof fn law_supported_firmware(props: Seq<Property>)
    ensures
        ({
            let name = "apple,firmware-compat"@;
            let (major, minor, patch) = (
                cell_at(props, name, 0),
                cell_at(props, name, 4),
                cell_at(props, name, 8),
            );
            let older = major == Some(12u32) && minor == Some(3u32);
            let newer = major == Some(13u32) && (minor == Some(3u32) || minor == Some(5u32));
            let there = property_of(props, name) is Some;
            &&& old_firmware(props) == Ok::<bool, &'static str>(true) <==> there && older && patch
                == Some(0u32)
            &&& old_firmware(props) == Ok::<bool, &'static str>(false) <==> there && newer && patch
                == Some(0u32)
            &&& new_firmware(props) == Ok::<bool, &'static str>(true) <==> there && newer
            &&& new_firmware(props) == Ok::<bool, &'static str>(false) <==> there && older
        }),
{
}

/// Law: of the addresses in a region's list, every record of this handle is a handoff, with the
/// record's address and size and the region's place in memory.
pub proof fn law_records_of_the_handle_are_handoffs(
    value: Seq<u8>,
    phandle: u32,
    paddr: u64,
    from: int,
    k: int,
)
    requires
        0 <= from <= k,
        20 * k + 20 <= value.len(),
        be32(value, 20 * k) == phandle,
    ensures
        handoffs_in(value, phandle, paddr, from).contains(
            (Handoff {
                iova: be64(value, 20 * k + 4) as usize,
                paddr: paddr as usize,
                size: be64(value, 20 * k + 12) as usize,
            }),
        ),
    decreases k - from,
{
    let all = handoffs_in(value, phandle, paddr, from);
    let rest = handoffs_in(value, phandle, paddr, from + 1);
    let wanted = Handoff {
        iova: be64(value, 20 * k + 4) as usize,
        paddr: paddr as usize,
        size: be64(value, 20 * k + 12) as usize,
    };
    if from < k {
        law_records_of_the_handle_are_handoffs(value, phandle, paddr, from + 1, k);
        let i = rest.index_of(wanted);
        assert(all[all.len() - rest.len() + i] == rest[i]);
    } else {
        assert(all[0] == wanted);
    }
}

/// Law: every handoff comes from a record of this handle, in the order of the records.
pub proof fn law_handoffs_come_from_records(
    value: Seq<u8>,
    phandle: u32,
    paddr: u64,
    from: int,
    i: int,
) -> (k: int)
    requires
        0 <= from,
        0 <= i < handoffs_in(value, phandle, paddr, from).len(),
    ensures
        from + i <= k,
        20 * k + 20 <= value.len(),
        be32(value, 20 * k) == phandle,
        handoffs_in(value, phandle, paddr, from)[i] == (Handoff {
            iova: be64(value, 20 * k + 4) as usize,
            paddr: paddr as usize,
            size: be64(value, 20 * k + 12) as usize,
        }),
    decreases value.len() - 20 * from,
{
    let all = handoffs_in(value, phandle, paddr, from);
    let rest = handoffs_in(value, phandle, paddr, from + 1);
    if be32(value, 20 * from) == phandle {
        if i == 0 {
            from
        } else {
            assert(all[i] == rest[i - 1]);
            law_handoffs_come_from_records(value, phandle, paddr, from + 1, i - 1)
        }
    } else {
        assert(all =~= rest);
        law_handoffs_come_from_records(value, phandle, paddr, from + 1, i)
    }
}

/// Law: the handoffs of every region of the reserved memory are kept, region by region.
pub proof fn law_no_region_is_passed_over(
    tree: Seq<TreeNode>,
    nodes: Seq<int>,
    phandle: u32,
    from: int,
    k: int,
    i: int,
)
    requires
        0 <= from <= k < nodes.len(),
        0 <= i < node_handoffs(tree[nodes[k]], phandle).len(),
    ensures
        handoffs_from(tree, nodes, phandle, from).contains(node_handoffs(tree[nodes[k]], phandle)[i]),
    decreases k - from,
{
    let all = handoffs_from(tree, nodes, phandle, from);
    let rest = handoffs_from(tree, nodes, phandle, from + 1);
    let first = node_handoffs(tree[nodes[from]], phandle);
    if from < k {
        law_no_region_is_passed_over(tree, nodes, phandle, from + 1, k, i);
        let wanted = node_handoffs(tree[nodes[k]], phandle)[i];
        let j = rest.index_of(wanted);
        assert(all[first.len() + j] == rest[j]);
    } else {
        assert(all[i] == first[i]);
    }
}

/// Law: handoffs are looked for in the children of `/reserved-memory`; a region counts where it has a
/// place of its own and a list of addresses.
pub proof fn law_handoffs_are_reserved_memory(tree: Seq<TreeNode>, phandle: u32, node: TreeNode)
    ensures
        match node_at(tree, "/reserved-memory"@) {
            Some(i) => handoffs_for(Some(tree), phandle) is Ok && handoffs_for(
                Some(tree),
                phandle,
            )->Ok_0 == handoffs_from(tree, children(tree, i), phandle, 0),
            None => handoffs_for(Some(tree), phandle) is Err,
        },
        handoffs_for(None, phandle) is Err,
        match (value_of(node.properties@, "reg"@), value_of(node.properties@, "iommu-addresses"@)) {
            (Some(reg), Some(list)) => node_handoffs(node, phandle) == if reg.len() >= 8 {
                handoffs_in(list, phandle, be64(reg, 0), 0)
            } else {
                Seq::empty()
            },
            _ => node_handoffs(node, phandle).len() == 0,
        },
{
}

/// Law: the display is the first node of its kind that names a translation unit and has a handle.
pub proof fn law_first_display_is_used(tree: Seq<TreeNode>, from: int, i: int)
    requires
        0 <= from <= i < tree.len(),
    ensures
        ({
            let fits = |node: TreeNode|
                lists(node.compatible@, "apple,display-subsystem"@) && property_of(
                    node.properties@,
                    "iommus"@,
                ) is Some && (property_of(node.properties@, "phandle"@) is Some || property_of(
                    node.properties@,
                    "linux,phandle"@,
                ) is Some);
            match display_from(tree, from) {
                Some(k) => from <= k < tree.len() && fits(tree[k]) && (fits(tree[i]) ==> k <= i),
                None => !fits(tree[i]),
            }
        }),
    decreases tree.len() - from,
{
    if from < i {
        law_first_display_is_used(tree, from + 1, i);
    } else if from + 1 < tree.len() {
        law_first_display_is_used(tree, from + 1, from + 1);
    } else {
        reveal_with_fuel(display_from, 2);
    }
}

/// Law: a translation unit is named by a handle and a stream, in that order.
pub proof fn law_iommu_is_a_handle_and_a_stream(
    props: Seq<Property>,
    tree: Seq<TreeNode>,
    phandle: u32,
)
    ensures
        match (cell_at(props, "iommus"@, 0), cell_at(props, "iommus"@, 4)) {
            (Some(first), Some(second)) => iommu_of(props) matches Some(iommu) && iommu.phandle
                == first && iommu.stream == second,
            _ => iommu_of(props) is None,
        },
        display_iommu(tree) matches Some((iommu, handle)) ==> (display_from(tree, 0) matches Some(i)
            && iommu_of(tree[i].properties@) == Some(iommu) && node_handle(tree[i].properties@)
            == Some(handle)),
        piodma_iommu(tree, phandle) matches Some(iommu) ==> (node_by_handle(tree, phandle, 0) matches
            Some(i) && (named_among(tree, children(tree, i), "piodma"@, 0) matches Some(child)
            && iommu_of(tree[child].properties@) == Some(iommu))),
{
}

/// Law: a mailbox goes by either of two names, the base of the coprocessor's addresses by either of two
/// others; what is not given has its usual value.
pub proof fn law_either_name_will_do(props: Seq<Property>, usual: u64)
    ensures
        cell_of(props, "mboxes"@) is Some ==> mailbox_of(props) == cell_of(props, "mboxes"@),
        cell_of(props, "mboxes"@) is None ==> mailbox_of(props) == cell_of(props, "mailboxes"@),
        property_of(props, "apple,asc-dram-mask"@) is None && property_of(props, "asc-dram-mask"@)
            is None ==> dva_base_of(props, usual) == usual,
        property_of(props, "apple,asc-dram-mask"@) is Some ==> (value_of(
            props,
            "apple,asc-dram-mask"@,
        ) matches Some(v) ==> dva_base_of(props, usual) == if v.len() >= 8 {
            be64(v, 0)
        } else {
            usual
        }),
        property_of(props, "apple,asc-dram-mask"@) is None ==> (value_of(
            props,
            "asc-dram-mask"@,
        ) matches Some(v) ==> dva_base_of(props, usual) == if v.len() >= 8 {
            be64(v, 0)
        } else {
            usual
        }),
{
}

/// Law: the registers are those of the device but the first block, in order and each with its whole
/// length, then the scratch block and then the doorbell block, each under the number that it was
/// announced by. The scratch register lies at its offset in its block, and the doorbell bit is two
/// above the coprocessor's number.
pub proof fn law_register_blocks_are_in_order(device: DeviceNode, tree: Seq<TreeNode>, i: int)
    requires
        registers_of(device, tree) is Ok,
    ensures
        ({
            let props = device.properties@;
            let (blocks, bandwidth) = registers_of(device, tree)->Ok_0;
            let all = resources_of(device.resources@, ResourceKind::Mem);
            let own = if all.len() == 0 {
                0int
            } else {
                all.len() - 1
            };
            let scratch = "apple,bw-scratch"@;
            let doorbell = "apple,bw-doorbell"@;
            let rings = property_of(props, doorbell) is Some;
            &&& 0 <= i < own ==> blocks[i].0 == all[i + 1].start && blocks[i].0 + blocks[i].1 == all[i
                + 1].end + 1
            &&& property_of(props, scratch) is None ==> blocks.len() == own && bandwidth is None
            &&& property_of(props, scratch) is Some ==> {
                &&& bandwidth is Some
                &&& blocks.len() == own + if rings {
                    2int
                } else {
                    1int
                }
                &&& cell_at(props, scratch, 8) matches Some(number) && number == own
                &&& region_by_handle(
                    tree,
                    cell_at(props, scratch, 0)->Some_0,
                    cell_at(props, scratch, 4)->Some_0,
                ) == Some(blocks[own])
                &&& blocks[own].0 + cell_at(props, scratch, 12)->Some_0 <= usize::MAX
                    ==> bandwidth->Some_0.scratch == blocks[own].0 + cell_at(
                    props,
                    scratch,
                    12,
                )->Some_0
            }
            &&& property_of(props, scratch) is Some && !rings ==> bandwidth->Some_0.doorbell == 0
                && bandwidth->Some_0.doorbell_bit == 0
            &&& property_of(props, scratch) is Some && rings ==> {
                &&& cell_at(props, doorbell, 8) matches Some(number) && number == own + 1
                &&& region_by_handle(
                    tree,
                    cell_at(props, doorbell, 0)->Some_0,
                    cell_at(props, doorbell, 4)->Some_0,
                ) == Some(blocks[own + 1])
                &&& bandwidth->Some_0.doorbell == blocks[own + 1].0
                &&& match cell_of(props, "apple,dcp-index"@) {
                    Some(index) => index <= u32::MAX - 2 ==> bandwidth->Some_0.doorbell_bit == index
                        + 2,
                    None => bandwidth->Some_0.doorbell_bit == 2,
                }
            }
        }),
{
}

/// Law: a block of another node is the region of that number, of the node that bears the handle.
pub proof fn law_outside_blocks_are_regions(tree: Seq<TreeNode>, phandle: u32, index: u32)
    ensures
        region_by_handle(tree, phandle, index) matches Some((address, size)) ==> (node_by_handle(
            tree,
            phandle,
            0,
        ) matches Some(i) && {
            let regs = tree[i].regs@;
            &&& (index as usize) < regs.len()
            &&& regs[(index as usize) as int].address == address
            &&& match regs[(index as usize) as int].size {
                Some(given) => size == given,
                None => size == 0,
            }
        }),
{
}

} // verus!
