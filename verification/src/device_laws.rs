//! What holds of lookups in a device and in the device tree.

use vstd::prelude::*;
use crate::device::{
    alias_count, any_phandle_number, base_name, cell_at, cell_of, children, children_from, entry_at,
    first_down, goes_by, has_entry, lemma_mark_from, lists, mark_from, node_at, node_at_path,
    node_by_aliases, node_by_handle, node_down, node_handle, node_with, number_of, phandle_number,
    property_index, property_of, resources_of, span, trimmed, value_of, Property, Resource,
    ResourceKind, TreeNode,
};

verus! {

/// Law: a property is looked up by its name, and the first of that name is the one that is found.
pub proof fn law_first_property_is_found(props: Seq<Property>, name: Seq<char>, i: int) -> (k: int)
    requires
        0 <= i < props.len(),
    ensures
        property_of(props, name) is None ==> props[i].name@ != name,
        property_of(props, name) matches Some(p) ==> {
            &&& 0 <= k < props.len()
            &&& p == props[k]
            &&& p.name@ == name
            &&& props[i].name@ == name ==> k <= i
            &&& value_of(props, name) == Some(p.value@)
            &&& number_of(props, name) == p.number
        },
{
    lemma_property(props, name, 0, i);
    match property_index(props, name, 0) {
        Some(k) => k,
        None => 0,
    }
}

proof fn lemma_property(props: Seq<Property>, name: Seq<char>, from: int, i: int)
    requires
        0 <= from <= i < props.len(),
    ensures
        match property_index(props, name, from) {
            Some(k) => from <= k < props.len() && props[k].name@ == name && (props[i].name@ == name
                ==> k <= i),
            None => props[i].name@ != name,
        },
    decreases props.len() - from,
{
    if props[from].name@ != name {
        if from < i {
            lemma_property(props, name, from + 1, i);
        } else if from + 1 < props.len() {
            lemma_property(props, name, from + 1, from + 1);
        } else {
            reveal_with_fuel(property_index, 2);
        }
    }
}

/// Law: a cell of a property is made of four of its bytes, the highest first, and is there exactly
/// where all of them are.
pub proof fn law_cells_are_read(props: Seq<Property>, name: Seq<char>, at: int)
    requires
        0 <= at,
    ensures
        match value_of(props, name) {
            None => cell_at(props, name, at) is None && cell_of(props, name) is None,
            Some(v) => {
                &&& cell_at(props, name, at) is Some <==> at + 4 <= v.len()
                &&& cell_at(props, name, at) matches Some(cell) ==> cell == v[at + 3] + 0x100 * (v[at
                    + 2] + 0x100 * (v[at + 1] + 0x100 * v[at]))
                &&& cell_of(props, name) == cell_at(props, name, 0)
            },
        },
{
}

/// Law: resources of a kind are those of that kind, all of them, in their order.
pub proof fn law_resources_keep_their_order(resources: Seq<Resource>, kind: ResourceKind, i: int)
    requires
        0 <= i < resources.len(),
        resources[i].kind == kind,
    ensures
        ({
            let chosen = resources_of(resources, kind);
            let place = resources_of(resources.take(i), kind).len() as int;
            &&& place < chosen.len() <= resources.len()
            &&& chosen[place] == resources[i]
            &&& forall|k: int| 0 <= k < chosen.len() ==> (#[trigger] chosen[k]).kind == kind
        }),
    decreases resources.len(),
{
    lemma_resources(resources, kind);
    let rest = resources.drop_last();
    if i < rest.len() {
        law_resources_keep_their_order(rest, kind, i);
        assert(rest.take(i) =~= resources.take(i));
    } else {
        assert(resources.take(i) =~= rest);
    }
}

proof fn lemma_resources(resources: Seq<Resource>, kind: ResourceKind)
    ensures
        resources_of(resources, kind).len() <= resources.len(),
        forall|k: int|
            0 <= k < resources_of(resources, kind).len() ==> (#[trigger] resources_of(
                resources,
                kind,
            )[k]).kind == kind,
    decreases resources.len(),
{
    if resources.len() > 0 {
        lemma_resources(resources.drop_last(), kind);
    }
}

/// Law: the size of a region counts both of its ends.
pub proof fn law_regions_hold_both_ends(start: usize, end: usize)
    ensures
        span(start, end) matches Some(size) ==> start + size == end + 1,
        span(start, end) is None <==> start > end || (start == 0 && end == usize::MAX),
{
}

/// Law: a handle leads to the first node that bears it.
pub proof fn law_first_node_bears_the_handle(
    tree: Seq<TreeNode>,
    key: Seq<char>,
    phandle: u32,
    from: int,
    i: int,
)
    requires
        0 <= from <= i < tree.len(),
    ensures
        match node_by_handle(tree, phandle, from) {
            Some(k) => {
                &&& from <= k < tree.len()
                &&& node_handle(tree[k].properties@) == Some(phandle)
                &&& node_handle(tree[i].properties@) == Some(phandle) ==> k <= i
            },
            None => node_handle(tree[i].properties@) != Some(phandle),
        },
        match node_with(tree, key, phandle, from) {
            Some(k) => {
                &&& from <= k < tree.len()
                &&& cell_of(tree[k].properties@, key) == Some(phandle)
                &&& cell_of(tree[i].properties@, key) == Some(phandle) ==> k <= i
            },
            None => cell_of(tree[i].properties@, key) != Some(phandle),
        },
    decreases tree.len() - from,
{
    if from < i {
        law_first_node_bears_the_handle(tree, key, phandle, from + 1, i);
    } else if from + 1 < tree.len() {
        law_first_node_bears_the_handle(tree, key, phandle, from + 1, from + 1);
    } else {
        reveal_with_fuel(node_by_handle, 2);
        reveal_with_fuel(node_with, 2);
    }
}

/// Law: a node's handle is what `phandle` says; only where there is no such property does
/// `linux,phandle` count.
pub proof fn law_handles_by_either_name(props: Seq<Property>)
    ensures
        property_of(props, "phandle"@) is Some ==> node_handle(props) == cell_of(props, "phandle"@)
            && phandle_number(props) == number_of(props, "phandle"@),
        property_of(props, "phandle"@) is None ==> {
            &&& node_handle(props) == cell_of(props, "linux,phandle"@)
            &&& phandle_number(props) == number_of(props, "linux,phandle"@)
            &&& any_phandle_number(props) == number_of(props, "linux,phandle"@)
        },
        number_of(props, "phandle"@) is Some ==> any_phandle_number(props) == number_of(
            props,
            "phandle"@,
        ),
{
}

/// Law: a text loses the zeroes at its end, and nothing else.
pub proof fn law_only_trailing_zeroes_are_cut(text: Seq<char>)
    ensures
        ({
            let kept = trimmed(text);
            &&& kept.len() <= text.len()
            &&& kept == text.take(kept.len() as int)
            &&& forall|k: int| kept.len() <= k < text.len() ==> text[k] == '\0'
            &&& kept.len() > 0 ==> kept.last() != '\0'
        }),
    decreases text.len(),
{
    if text.len() > 0 && text.last() == '\0' {
        law_only_trailing_zeroes_are_cut(text.drop_last());
        let kept = trimmed(text);
        assert(text.drop_last().take(kept.len() as int) =~= text.take(kept.len() as int));
        assert forall|k: int| kept.len() <= k < text.len() implies text[k] == '\0' by {
            if k < text.len() - 1 {
                assert(text.drop_last()[k] == '\0');
            }
        }
    } else {
        assert(text.take(text.len() as int) =~= text);
    }
}

/// Law: the base of a name is what stands before its first `@`, or the whole name where there is none.
pub proof fn law_base_names_end_before_the_address(name: Seq<char>, from: int)
    requires
        0 <= from <= name.len(),
    ensures
        ({
            let base = base_name(name, from);
            &&& base.len() <= name.len()
            &&& base == name.take(base.len() as int)
            &&& forall|k: int| from <= k < base.len() ==> name[k] != '@'
            &&& base.len() < name.len() ==> base.len() >= from && name[base.len() as int] == '@'
        }),
    decreases name.len() - from,
{
    if from < name.len() && name[from] != '@' {
        law_base_names_end_before_the_address(name, from + 1);
    } else if from == name.len() {
        assert(name.take(from) =~= name);
    }
}

/// Law: the children of a node are the nodes one level below it, up to the next node that is not below
/// it, in the order of the tree.
pub proof fn law_children_are_one_level_below(tree: Seq<TreeNode>, node: int, i: int)
    requires
        0 <= node < tree.len(),
        node < i < tree.len(),
    ensures
        children(tree, node).contains(i) <==> tree[i].depth == tree[node].depth + 1 && (forall|k: int|
            node < k <= i ==> (#[trigger] tree[k]).depth > tree[node].depth),
        forall|a: int, b: int|
            0 <= a < b < children(tree, node).len() ==> children(tree, node)[a] < children(
                tree,
                node,
            )[b],
        forall|a: int|
            0 <= a < children(tree, node).len() ==> node < #[trigger] children(tree, node)[a]
                < tree.len(),
{
    lemma_children(tree, tree[node].depth as int, node + 1);
    let d = tree[node].depth as int;
    let all = children(tree, node);
    if all.contains(i) {
        let a = all.index_of(i);
        assert(all[a] == i);
    }
    assert(below(tree, d, node + 1, i) <==> (forall|k: int|
        node < k <= i ==> (#[trigger] tree[k]).depth > d));
}

/// Every node from `from` to `i` lies deeper than `depth`.
pub open spec fn below(tree: Seq<TreeNode>, depth: int, from: int, i: int) -> bool {
    forall|k: int| from <= k <= i ==> (#[trigger] tree[k]).depth > depth
}

proof fn lemma_children(tree: Seq<TreeNode>, depth: int, from: int)
    requires
        0 <= from,
    ensures
        forall|i: int|
            from <= i < tree.len() ==> (#[trigger] children_from(tree, depth, from).contains(i)
                <==> tree[i].depth == depth + 1 && below(tree, depth, from, i)),
        forall|a: int, b: int|
            0 <= a < b < children_from(tree, depth, from).len() ==> children_from(
                tree,
                depth,
                from,
            )[a] < children_from(tree, depth, from)[b],
        forall|a: int|
            0 <= a < children_from(tree, depth, from).len() ==> from <= #[trigger] children_from(
                tree,
                depth,
                from,
            )[a] < tree.len(),
    decreases tree.len() - from,
{
    let all = children_from(tree, depth, from);
    if from < tree.len() && tree[from].depth > depth {
        lemma_children(tree, depth, from + 1);
        let rest = children_from(tree, depth, from + 1);
        let first = tree[from].depth == depth + 1;
        assert(all == if first {
            seq![from] + rest
        } else {
            rest
        });
        assert forall|i: int| from <= i < tree.len() implies (#[trigger] all.contains(i)
            <==> tree[i].depth == depth + 1 && below(tree, depth, from, i)) by {
            if i > from {
                assert(below(tree, depth, from, i) <==> below(tree, depth, from + 1, i));
                if all.contains(i) {
                    let a = all.index_of(i);
                    assert(all[a] == i);
                    if first {
                        assert(rest[a - 1] == i);
                    }
                }
                if rest.contains(i) {
                    let a = rest.index_of(i);
                    assert(rest[a] == i);
                    if first {
                        assert(all[a + 1] == i);
                    }
                }
                assert(all.contains(i) <==> rest.contains(i));
            } else if first {
                assert(all[0] == from);
            } else if all.contains(from) {
                let a = all.index_of(from);
                assert(rest[a] == from);
            }
        }
        assert forall|a: int, b: int| 0 <= a < b < all.len() implies all[a] < all[b] by {
            if first {
                assert(all[b] == rest[b - 1]);
                if a > 0 {
                    assert(all[a] == rest[a - 1]);
                }
            }
        }
        assert forall|a: int| 0 <= a < all.len() implies from <= #[trigger] all[a] < tree.len() by {
            if first {
                if a > 0 {
                    assert(all[a] == rest[a - 1]);
                }
            } else {
                assert(all[a] == rest[a]);
            }
        }
    } else if from < tree.len() {
        assert(all.len() == 0);
        assert forall|i: int| from <= i < tree.len() implies (#[trigger] all.contains(i)
            <==> tree[i].depth == depth + 1 && below(tree, depth, from, i)) by {
            assert(tree[from].depth <= depth);
        }
    }
}

/// Law: a path leads from node to node by its parts: a node goes by the part up to the next `/`; where
/// the path ends there, that node is found, and otherwise the rest of the path leads on from the first
/// of the children from which it leads anywhere.
pub proof fn law_paths_lead_down(tree: Seq<TreeNode>, node: int, path: Seq<char>, at: int) -> (k: int)
    requires
        0 <= at <= path.len(),
    ensures
        node_down(tree, node, path, at) matches Some(found) ==> {
            let end = mark_from(path, '/', at);
            let below = children(tree, node);
            &&& at <= end <= path.len()
            &&& forall|j: int| at <= j < end ==> path[j] != '/'
            &&& end < path.len() ==> path[end] == '/'
            &&& goes_by(tree[node].name@, path.subrange(at, end))
            &&& end + 1 >= path.len() ==> found == node
            &&& end + 1 < path.len() ==> {
                &&& 0 <= k < below.len()
                &&& node_down(tree, below[k], path, end + 1) == Some(found)
                &&& forall|j: int|
                    0 <= j < k ==> node_down(tree, #[trigger] below[j], path, end + 1) is None
            }
        },
{
    lemma_mark_from(path, '/', at);
    let end = mark_from(path, '/', at);
    let below = children(tree, node);
    if node_down(tree, node, path, at) is Some && end + 1 < path.len() {
        lemma_first_down(tree, below, 0, path, end + 1)
    } else {
        0
    }
}

proof fn lemma_first_down(
    tree: Seq<TreeNode>,
    nodes: Seq<int>,
    from: int,
    path: Seq<char>,
    at: int,
) -> (k: int)
    requires
        0 <= at <= path.len(),
        0 <= from,
        first_down(tree, nodes, from, path, at) is Some,
    ensures
        from <= k < nodes.len(),
        node_down(tree, nodes[k], path, at) == first_down(tree, nodes, from, path, at),
        forall|j: int| from <= j < k ==> node_down(tree, #[trigger] nodes[j], path, at) is None,
    decreases nodes.len() - from,
{
    if node_down(tree, nodes[from], path, at) is Some {
        from
    } else {
        lemma_first_down(tree, nodes, from + 1, path, at)
    }
}

/// Law: a part of a path with an address wants the whole name; one without, the name up to its address.
pub proof fn law_parts_name_nodes(name: Seq<char>, part: Seq<char>)
    ensures
        name == part ==> goes_by(name, part),
        part.contains('@') && goes_by(name, part) ==> name == part,
        !part.contains('@') && goes_by(name, part) ==> part == name.take(part.len() as int) && (
        part.len() == name.len() || name[part.len() as int] == '@'),
{
    law_base_names_end_before_the_address(name, 0);
    if name == part && !part.contains('@') {
        let base = base_name(name, 0);
        if base.len() < name.len() {
            assert(part[base.len() as int] == '@');
        } else {
            assert(base =~= name);
        }
    }
}

/// Law: a path that leads to a node is not looked for among the aliases; one that is an alias leads
/// where its text leads.
pub proof fn law_aliases_stand_for_paths(tree: Seq<TreeNode>, path: Seq<char>)
    ensures
        node_at_path(tree, path) is Some ==> node_at(tree, path) == node_at_path(tree, path),
        node_at_path(tree, path) is None && alias_count(tree) > 0 ==> match crate::device::alias_of(
            tree,
            path,
        ) {
            Some(other) => node_at_path(tree, other) is Some ==> node_at(tree, path) == node_at_path(
                tree,
                other,
            ),
            None => node_at(tree, path) is None,
        },
{
    reveal_with_fuel(node_by_aliases, 2);
}

/// Law: a list of entries, each ended by a zero, holds the entries that it was made of.
pub proof fn law_entries_are_found(before: Seq<u8>, entry: Seq<u8>, behind: Seq<u8>)
    requires
        before.len() == 0 || before.last() == 0,
    ensures
        has_entry(before + entry + seq![0u8] + behind, entry),
{
    let bytes = before + entry + seq![0u8] + behind;
    assert(bytes.subrange(before.len() as int, (before.len() + entry.len()) as int) =~= entry);
    assert(entry_at(bytes, entry, before.len() as int));
}

/// Law: an entry that is found stands between zeroes or ends of the list.
pub proof fn law_found_entries_are_whole(bytes: Seq<u8>, entry: Seq<u8>) -> (start: int)
    requires
        has_entry(bytes, entry),
    ensures
        0 <= start <= start + entry.len() <= bytes.len(),
        forall|k: int| 0 <= k < entry.len() ==> bytes[start + k] == entry[k],
        start > 0 ==> bytes[start - 1] == 0,
        start + entry.len() < bytes.len() ==> bytes[start + entry.len()] == 0,
{
    let start = choose|start: int| #[trigger] entry_at(bytes, entry, start);
    let part = bytes.subrange(start, (start + entry.len()) as int);
    assert forall|k: int| 0 <= k < entry.len() implies bytes[start + k] == entry[k] by {
        assert(part[k] == bytes[start + k]);
    }
    start
}

/// Law: a list of names holds a name wherever it stands in it.
pub proof fn law_names_are_listed(list: Seq<String>, name: Seq<char>, i: int)
    requires
        0 <= i < list.len(),
    ensures
        list[i]@ == name ==> lists(list, name),
        !lists(list, name) ==> list[i]@ != name,
{
}

} // verus!
