//! What a driver knows of its device: resources, properties, and the nodes of
//! the flattened device tree around it, as plain values.

use vstd::prelude::*;
use vstd::string::*;
use vstd::utf8::*;
use crate::bytes::{be32, get_be32, same_bytes};

verus! {

#[derive(Clone, Copy, Debug, PartialEq, Eq, Structural)]
pub enum ResourceKind {
    Mem,
    Irq,
    Other,
}

/// A resource of a device; `end` is the last address (or line) that belongs to it. `irq` is the
/// number of the line where the interrupt controller gave it one of its own.
#[derive(Clone, Copy, Debug, PartialEq, Eq, Structural)]
pub struct Resource {
    pub kind: ResourceKind,
    pub start: usize,
    pub end: usize,
    pub irq: Option<u32>,
}

/// A property of a node. `number` is its value where the property holds a single number.
#[derive(Debug)]
pub struct Property {
    pub name: String,
    pub value: Vec<u8>,
    pub number: Option<usize>,
}

/// A platform device as it is handed to a driver.
#[derive(Debug)]
pub struct DeviceNode {
    pub name: String,
    pub compatible: Vec<String>,
    pub resources: Vec<Resource>,
    pub properties: Vec<Property>,
}

/// A region of a node's `reg` property, decoded with the cell sizes of its parent.
#[derive(Clone, Copy, Debug, PartialEq, Eq, Structural)]
pub struct RegRegion {
    pub address: usize,
    pub size: Option<usize>,
}

/// A node of the device tree. A tree is the list of its nodes, parents before their children
/// and each subtree in one piece; `depth` is 0 at the root, which has no name.
#[derive(Debug)]
pub struct TreeNode {
    pub name: String,
    pub depth: usize,
    pub compatible: Vec<String>,
    pub properties: Vec<Property>,
    pub regs: Vec<RegRegion>,
}

/// What came of a lookup that other drivers have a part in.
#[derive(Debug)]
pub enum Resolved<T> {
    Ready(T),
    /// Something is not there yet; try again later.
    Defer,
    Fault(&'static str),
}

/// Whether two strings hold the same characters.
pub fn same_str(a: &str, b: &str) -> (r: bool)
    ensures
        r == (a@ == b@),
{
    a.to_owned() == b.to_owned()
}

/// The first position from `i` on of a property called `name`.
pub open spec fn property_index(props: Seq<Property>, name: Seq<char>, i: int) -> Option<int>
    decreases props.len() - i,
{
    if i < 0 || i >= props.len() {
        None
    } else if props[i].name@ == name {
        Some(i)
    } else {
        property_index(props, name, i + 1)
    }
}

/// The first property called `name`.
pub open spec fn property_of(props: Seq<Property>, name: Seq<char>) -> Option<Property> {
    match property_index(props, name, 0) {
        Some(i) => Some(props[i]),
        None => None,
    }
}

/// The bytes of the first property called `name`.
pub open spec fn value_of(props: Seq<Property>, name: Seq<char>) -> Option<Seq<u8>> {
    match property_of(props, name) {
        Some(p) => Some(p.value@),
        None => None,
    }
}

/// The number in the first property called `name`.
pub open spec fn number_of(props: Seq<Property>, name: Seq<char>) -> Option<usize> {
    match property_of(props, name) {
        Some(p) => p.number,
        None => None,
    }
}

/// The first property called `name`.
pub fn find_property<'a>(props: &'a [Property], name: &str) -> (r: Option<&'a Property>)
    ensures
        match r {
            Some(p) => property_of(props@, name@) == Some(*p),
            None => property_of(props@, name@) is None,
        },
{
    let mut i: usize = 0;
    while i < props.len()
        invariant
            i <= props@.len(),
            property_index(props@, name@, 0) == property_index(props@, name@, i as int),
        decreases props@.len() - i,
    {
        if same_str(props[i].name.as_str(), name) {
            return Some(&props[i]);
        }
        i = i + 1;
    }
    None
}

/// The bytes of the first property called `name`.
pub fn find_value<'a>(props: &'a [Property], name: &str) -> (r: Option<&'a [u8]>)
    ensures
        match r {
            Some(v) => value_of(props@, name@) == Some(v@),
            None => value_of(props@, name@) is None,
        },
{
    match find_property(props, name) {
        Some(p) => Some(p.value.as_slice()),
        None => None,
    }
}

/// The number in the first property called `name`.
pub fn find_number(props: &[Property], name: &str) -> (r: Option<usize>)
    ensures
        r == number_of(props@, name@),
{
    match find_property(props, name) {
        Some(p) => p.number,
        None => None,
    }
}

/// Whether there is a property called `name`.
pub fn has_property(props: &[Property], name: &str) -> (r: bool)
    ensures
        r == (property_of(props@, name@) is Some),
{
    find_property(props, name).is_some()
}

/// The phandle of a node: `phandle`, or `linux,phandle` where there is no such property.
pub open spec fn phandle_number(props: Seq<Property>) -> Option<usize> {
    if property_of(props, "phandle"@) is Some {
        number_of(props, "phandle"@)
    } else {
        number_of(props, "linux,phandle"@)
    }
}

/// The phandle of a node: `phandle`, or `linux,phandle` where there is no such property.
pub fn find_phandle_number(props: &[Property]) -> (r: Option<usize>)
    ensures
        r == phandle_number(props@),
{
    if has_property(props, "phandle") {
        find_number(props, "phandle")
    } else {
        find_number(props, "linux,phandle")
    }
}

/// The phandle of a node: the number in `phandle`, or that in `linux,phandle` where the first
/// holds none.
pub open spec fn any_phandle_number(props: Seq<Property>) -> Option<usize> {
    if number_of(props, "phandle"@) is Some {
        number_of(props, "phandle"@)
    } else {
        number_of(props, "linux,phandle"@)
    }
}

/// The phandle of a node: the number in `phandle`, or that in `linux,phandle` where the first
/// holds none.
pub fn find_any_phandle_number(props: &[Property]) -> (r: Option<usize>)
    ensures
        r == any_phandle_number(props@),
{
    match find_number(props, "phandle") {
        Some(phandle) => Some(phandle),
        None => find_number(props, "linux,phandle"),
    }
}

/// Some string of the list holds `name`.
pub open spec fn lists(list: Seq<String>, name: Seq<char>) -> bool {
    exists|i: int| 0 <= i < list.len() && (#[trigger] list[i])@ == name
}

/// Whether some string of the list holds `name`.
pub fn has_string(list: &[String], name: &str) -> (r: bool)
    ensures
        r == lists(list@, name@),
{
    let mut i: usize = 0;
    while i < list.len()
        invariant
            i <= list@.len(),
            forall|j: int| 0 <= j < i ==> (#[trigger] list@[j])@ != name@,
        decreases list@.len() - i,
    {
        if same_str(list[i].as_str(), name) {
            assert(list@[i as int]@ == name@);
            return true;
        }
        i = i + 1;
    }
    false
}

/// The resources of one kind, in order.
pub open spec fn resources_of(resources: Seq<Resource>, kind: ResourceKind) -> Seq<Resource>
    decreases resources.len(),
{
    if resources.len() == 0 {
        Seq::empty()
    } else {
        let rest = resources_of(resources.drop_last(), kind);
        if resources.last().kind == kind {
            rest.push(resources.last())
        } else {
            rest
        }
    }
}

/// The resources of one kind, in order.
pub fn select_resources(resources: &[Resource], kind: ResourceKind) -> (r: Vec<Resource>)
    ensures
        r@ == resources_of(resources@, kind),
{
    let mut r: Vec<Resource> = Vec::new();
    let mut i: usize = 0;
    while i < resources.len()
        invariant
            i <= resources@.len(),
            r@ == resources_of(resources@.take(i as int), kind),
        decreases resources@.len() - i,
    {
        proof {
            assert(resources@.take(i as int + 1).drop_last() =~= resources@.take(i as int));
        }
        if resources[i].kind == kind {
            r.push(resources[i]);
        }
        i = i + 1;
    }
    assert(resources@.take(i as int) =~= resources@);
    r
}

/// The first resource of a kind, if there is one.
pub open spec fn first_resource(resources: Seq<Resource>, kind: ResourceKind) -> Option<Resource> {
    let found = resources_of(resources, kind);
    if found.len() > 0 {
        Some(found[0])
    } else {
        None
    }
}

/// The first resource of a kind, if there is one.
pub fn find_resource(resources: &[Resource], kind: ResourceKind) -> (r: Option<Resource>)
    ensures
        r == first_resource(resources@, kind),
{
    let found = select_resources(resources, kind);
    if found.len() > 0 {
        Some(found[0])
    } else {
        None
    }
}

/// The number of addresses from `start` to `end`, where it can be told.
pub open spec fn span(start: usize, end: usize) -> Option<usize> {
    if start <= end && end - start + 1 <= usize::MAX {
        Some((end - start + 1) as usize)
    } else {
        None
    }
}

/// The number of addresses from `start` to `end`, where it can be told.
pub fn region_size(start: usize, end: usize) -> (r: Option<usize>)
    ensures
        r == span(start, end),
{
    match end.checked_sub(start) {
        Some(value) => value.checked_add(1),
        None => None,
    }
}

/// The line of an interrupt resource.
pub open spec fn line_of(resource: Resource) -> u32 {
    match resource.irq {
        Some(irq) => irq,
        None => resource.start as u32,
    }
}

/// The line of an interrupt resource.
pub fn irq_line(resource: &Resource) -> (r: u32)
    ensures
        r == line_of(*resource),
{
    match resource.irq {
        Some(irq) => irq,
        None => resource.start as u32,
    }
}

/// The first cell of the first property called `name`, where it has one.
pub open spec fn cell_of(props: Seq<Property>, name: Seq<char>) -> Option<u32> {
    match value_of(props, name) {
        Some(v) => if v.len() >= 4 {
            Some(be32(v, 0))
        } else {
            None
        },
        None => None,
    }
}

/// The first cell of the first property called `name`, where it has one.
pub fn find_cell(props: &[Property], name: &str) -> (r: Option<u32>)
    ensures
        r == cell_of(props@, name@),
{
    match find_value(props, name) {
        Some(v) => if v.len() >= 4 {
            Some(get_be32(v, 0))
        } else {
            None
        },
        None => None,
    }
}

/// A text without the zero characters at its end.
pub open spec fn trimmed(text: Seq<char>) -> Seq<char>
    decreases text.len(),
{
    if text.len() > 0 && text.last() == '\0' {
        trimmed(text.drop_last())
    } else {
        text
    }
}

/// The text that a property value holds: its bytes as UTF-8, without the zeros at the end.
pub open spec fn text_in(value: Seq<u8>) -> Option<Seq<char>> {
    if valid_utf8(value) {
        Some(trimmed(decode_utf8(value)))
    } else {
        None
    }
}

/// Calls `fdt::node::NodeProperty::as_str` on a property with this value. That function decodes
/// the value as UTF-8 and cuts zero characters off its end; a value that is not UTF-8 has no text.
#[verifier::external_body]
fn property_text(value: &[u8]) -> (r: Option<String>)
    ensures
        match r {
            Some(text) => text_in(value@) == Some(text@),
            None => text_in(value@) is None,
        },
{
    fdt::node::NodeProperty { name: "", value }.as_str().map(String::from)
}

/// The text in the first property called `name`.
pub open spec fn text_of(props: Seq<Property>, name: Seq<char>) -> Option<Seq<char>> {
    match value_of(props, name) {
        Some(value) => text_in(value),
        None => None,
    }
}

/// The text in the first property called `name`.
pub fn find_text(props: &[Property], name: &str) -> (r: Option<String>)
    ensures
        match r {
            Some(text) => text_of(props@, name@) == Some(text@),
            None => text_of(props@, name@) is None,
        },
{
    match find_value(props, name) {
        Some(value) => property_text(value),
        None => None,
    }
}

/// A region of a node.
pub open spec fn region_of(node: TreeNode, index: usize) -> Option<RegRegion> {
    if index < node.regs@.len() {
        Some(node.regs@[index as int])
    } else {
        None
    }
}

/// A region of a node.
pub fn find_region(node: &TreeNode, index: usize) -> (r: Option<RegRegion>)
    ensures
        r == region_of(*node, index),
{
    if index < node.regs.len() {
        Some(node.regs[index])
    } else {
        None
    }
}

/// The cell at a byte offset of the first property called `name`, where the property reaches so far.
pub open spec fn cell_at(props: Seq<Property>, name: Seq<char>, at: int) -> Option<u32> {
    match value_of(props, name) {
        Some(v) => if at + 4 <= v.len() {
            Some(be32(v, at))
        } else {
            None
        },
        None => None,
    }
}

/// The cell at a byte offset of the first property called `name`, where the property reaches so far.
pub fn find_cell_at(props: &[Property], name: &str, at: usize) -> (r: Option<u32>)
    requires
        at + 4 <= usize::MAX,
    ensures
        r == cell_at(props@, name@, at as int),
{
    match find_value(props, name) {
        Some(v) => if v.len() >= at + 4 {
            Some(get_be32(v, at))
        } else {
            None
        },
        None => None,
    }
}

/// The handle of a node: the cell in `phandle`, or that in `linux,phandle` where there is no such
/// property.
pub open spec fn node_handle(props: Seq<Property>) -> Option<u32> {
    if property_of(props, "phandle"@) is Some {
        cell_of(props, "phandle"@)
    } else {
        cell_of(props, "linux,phandle"@)
    }
}

/// The handle of a node.
pub fn find_node_handle(props: &[Property]) -> (r: Option<u32>)
    ensures
        r == node_handle(props@),
{
    if has_property(props, "phandle") {
        find_cell(props, "phandle")
    } else {
        find_cell(props, "linux,phandle")
    }
}

/// The first node from `i` on with this handle.
pub open spec fn node_by_handle(tree: Seq<TreeNode>, phandle: u32, i: int) -> Option<int>
    decreases tree.len() - i,
{
    if i < 0 || i >= tree.len() {
        None
    } else if node_handle(tree[i].properties@) == Some(phandle) {
        Some(i)
    } else {
        node_by_handle(tree, phandle, i + 1)
    }
}

/// The first node with this handle.
pub fn find_by_handle(tree: &[TreeNode], phandle: u32) -> (r: Option<usize>)
    ensures
        match r {
            Some(i) => node_by_handle(tree@, phandle, 0) == Some(i as int) && i < tree@.len(),
            None => node_by_handle(tree@, phandle, 0) is None,
        },
{
    let mut i: usize = 0;
    while i < tree.len()
        invariant
            i <= tree@.len(),
            node_by_handle(tree@, phandle, 0) == node_by_handle(tree@, phandle, i as int),
        decreases tree@.len() - i,
    {
        if let Some(handle) = find_node_handle(tree[i].properties.as_slice()) {
            if handle == phandle {
                return Some(i);
            }
        }
        i = i + 1;
    }
    None
}

/// `entry` stands at `start`, between two ends of entries.
pub open spec fn entry_at(bytes: Seq<u8>, entry: Seq<u8>, start: int) -> bool {
    &&& 0 <= start
    &&& start + entry.len() <= bytes.len()
    &&& start == 0 || bytes[start - 1] == 0
    &&& start + entry.len() == bytes.len() || bytes[start + entry.len()] == 0
    &&& bytes.subrange(start, (start + entry.len()) as int) == entry
}

/// A list of strings, each ended by a zero byte, has `entry` among them.
pub open spec fn has_entry(bytes: Seq<u8>, entry: Seq<u8>) -> bool {
    exists|start: int| #[trigger] entry_at(bytes, entry, start)
}

/// Whether a list of strings, each ended by a zero byte, has `entry` among them.
pub fn contains_entry(bytes: &[u8], entry: &[u8]) -> (r: bool)
    ensures
        r == has_entry(bytes@, entry@),
{
    let mut start: usize = 0;
    let len: usize = bytes.len();
    let want: usize = entry.len();
    while start < len
        invariant
            start <= len,
            len == bytes@.len(),
            want == entry@.len(),
            forall|s: int| 0 <= s < start ==> !(#[trigger] entry_at(bytes@, entry@, s)),
        decreases len - start,
    {
        if want > len - start {
            assert forall|s: int| !(#[trigger] entry_at(bytes@, entry@, s)) by {
                if s >= start {
                    assert(s + want > len);
                }
            }
            return false;
        }
        let before: bool = start == 0 || bytes[start - 1] == 0;
        let after: bool = start + want == len || bytes[start + want] == 0;
        if before && after {
            let part = vstd::slice::slice_subrange(bytes, start, start + want);
            if same_bytes(part, entry) {
                assert(entry_at(bytes@, entry@, start as int));
                return true;
            }
        }
        start = start + 1;
    }
    if want == 0 && (len == 0 || bytes[len - 1] == 0) {
        assert(bytes@.subrange(len as int, len as int) =~= entry@);
        assert(entry_at(bytes@, entry@, len as int));
        return true;
    }
    false
}

/// A node is compatible with `entry`.
pub open spec fn node_is(node: TreeNode, entry: Seq<u8>) -> bool {
    match value_of(node.properties@, "compatible"@) {
        Some(v) => has_entry(v, entry),
        None => false,
    }
}

/// Whether a node is compatible with `entry`.
pub fn node_compatible(node: &TreeNode, entry: &str) -> (r: bool)
    ensures
        r == node_is(*node, entry.spec_bytes()),
{
    match find_value(node.properties.as_slice(), "compatible") {
        Some(v) => contains_entry(v, entry.as_bytes()),
        None => false,
    }
}

/// A node has `phandle` in its property `key`.
pub open spec fn has_handle(node: TreeNode, key: Seq<char>, phandle: u32) -> bool {
    cell_of(node.properties@, key) == Some(phandle)
}

/// The first node from `i` on with `phandle` in its property `key`.
pub open spec fn node_with(tree: Seq<TreeNode>, key: Seq<char>, phandle: u32, i: int) -> Option<int>
    decreases tree.len() - i,
{
    if i < 0 || i >= tree.len() {
        None
    } else if has_handle(tree[i], key, phandle) {
        Some(i)
    } else {
        node_with(tree, key, phandle, i + 1)
    }
}

/// The first node with `phandle` in its property `key`.
pub fn find_node_with(tree: &[TreeNode], key: &str, phandle: u32) -> (r: Option<usize>)
    ensures
        match r {
            Some(i) => node_with(tree@, key@, phandle, 0) == Some(i as int) && i < tree@.len(),
            None => node_with(tree@, key@, phandle, 0) is None,
        },
{
    let mut i: usize = 0;
    while i < tree.len()
        invariant
            i <= tree@.len(),
            node_with(tree@, key@, phandle, 0) == node_with(tree@, key@, phandle, i as int),
        decreases tree@.len() - i,
    {
        let cell: Option<u32> = find_cell(tree[i].properties.as_slice(), key);
        if let Some(value) = cell {
            if value == phandle {
                return Some(i);
            }
        }
        i = i + 1;
    }
    None
}

/// A name without its unit address.
pub open spec fn base_name(name: Seq<char>, i: int) -> Seq<char>
    decreases name.len() - i,
{
    if i < 0 || i >= name.len() {
        name
    } else if name[i] == '@' {
        name.take(i)
    } else {
        base_name(name, i + 1)
    }
}

/// A node with this name goes by `part` in a path: by its full name, or without its unit address
/// where `part` has none.
pub open spec fn goes_by(name: Seq<char>, part: Seq<char>) -> bool {
    if part.contains('@') {
        name == part
    } else {
        base_name(name, 0) == part
    }
}

/// Where the first `mark` from `i` on is, or the end of the text.
pub open spec fn mark_from(text: Seq<char>, mark: char, i: int) -> int
    decreases text.len() - i,
{
    if i >= text.len() {
        text.len() as int
    } else if text[i] == mark {
        i
    } else {
        mark_from(text, mark, i + 1)
    }
}

/// The first node at the end of the path from `at` on, whose first part `node` goes by and whose
/// other parts lead down from it. A slash at the end does not count.
pub open spec fn node_down(tree: Seq<TreeNode>, node: int, path: Seq<char>, at: int) -> Option<int>
    decreases path.len() - at, 0int,
    when 0 <= at <= path.len()
{
    let end = mark_from(path, '/', at);
    proof {
        lemma_mark_from(path, '/', at);
    }
    if !goes_by(tree[node].name@, path.subrange(at, end)) {
        None
    } else if end + 1 >= path.len() {
        Some(node)
    } else {
        first_down(tree, children(tree, node), 0, path, end + 1)
    }
}

/// The same for the nodes from `k` on, one after the other.
pub open spec fn first_down(
    tree: Seq<TreeNode>,
    nodes: Seq<int>,
    k: int,
    path: Seq<char>,
    at: int,
) -> Option<int>
    decreases path.len() - at, nodes.len() - k,
    when 0 <= at <= path.len()
{
    if k < 0 || k >= nodes.len() {
        None
    } else {
        match node_down(tree, nodes[k], path, at) {
            Some(found) => Some(found),
            None => first_down(tree, nodes, k + 1, path, at),
        }
    }
}

/// The node at the end of a path.
pub open spec fn node_at_path(tree: Seq<TreeNode>, path: Seq<char>) -> Option<int> {
    if tree.len() == 0 {
        None
    } else {
        node_down(tree, 0, path, 0)
    }
}

/// What the aliases of a tree call `path`.
pub open spec fn alias_of(tree: Seq<TreeNode>, path: Seq<char>) -> Option<Seq<char>> {
    match node_at_path(tree, "/aliases"@) {
        Some(aliases) => text_of(tree[aliases].properties@, path),
        None => None,
    }
}

/// The node at the end of a path or, where there is none, of its alias, and so on for as many
/// aliases as `left` says.
pub open spec fn node_by_aliases(tree: Seq<TreeNode>, path: Seq<char>, left: nat) -> Option<int>
    decreases left,
{
    match node_at_path(tree, path) {
        Some(found) => Some(found),
        None => match alias_of(tree, path) {
            Some(other) => if left == 0 {
                None
            } else {
                node_by_aliases(tree, other, (left - 1) as nat)
            },
            None => None,
        },
    }
}

/// How many aliases a tree has.
pub open spec fn alias_count(tree: Seq<TreeNode>) -> nat {
    match node_at_path(tree, "/aliases"@) {
        Some(aliases) => tree[aliases].properties@.len(),
        None => 0,
    }
}

/// The node at a path, which may be an alias. Aliases that lead round in a circle lead nowhere.
pub open spec fn node_at(tree: Seq<TreeNode>, path: Seq<char>) -> Option<int> {
    node_by_aliases(tree, path, alias_count(tree))
}

/// Before the place of a mark there is none.
pub proof fn lemma_mark_from(text: Seq<char>, mark: char, i: int)
    requires
        0 <= i <= text.len(),
    ensures
        i <= mark_from(text, mark, i) <= text.len(),
        forall|k: int| i <= k < mark_from(text, mark, i) ==> text[k] != mark,
        mark_from(text, mark, i) < text.len() ==> text[mark_from(text, mark, i)] == mark,
    decreases text.len() - i,
{
    if i < text.len() && text[i] != mark {
        lemma_mark_from(text, mark, i + 1);
    }
}

proof fn lemma_base_name(name: Seq<char>, i: int)
    requires
        0 <= i <= name.len(),
    ensures
        base_name(name, i) == name.take(mark_from(name, '@', i)),
    decreases name.len() - i,
{
    if i < name.len() && name[i] != '@' {
        lemma_base_name(name, i + 1);
    } else if i == name.len() {
        assert(name.take(i) =~= name);
    }
}

/// Where the first `mark` from `at` on is, or the end of the text.
fn find_mark(text: &str, mark: char, at: usize) -> (r: usize)
    requires
        at <= text@.len(),
    ensures
        r == mark_from(text@, mark, at as int),
        at <= r <= text@.len(),
{
    let len: usize = text.unicode_len();
    let mut i: usize = at;
    while i < len
        invariant
            at <= i <= len,
            len == text@.len(),
            mark_from(text@, mark, at as int) == mark_from(text@, mark, i as int),
        decreases len - i,
    {
        if text.get_char(i) == mark {
            return i;
        }
        i = i + 1;
    }
    len
}

/// Whether a node with this name goes by the part of a path from `at` to `end`.
fn is_part(name: &str, path: &str, at: usize, end: usize) -> (r: bool)
    requires
        at <= end <= path@.len(),
    ensures
        r == goes_by(name@, path@.subrange(at as int, end as int)),
{
    let ghost part = path@.subrange(at as int, end as int);
    let mark: usize = find_mark(path, '@', at);
    proof {
        lemma_mark_from(path@, '@', at as int);
        lemma_mark_from(name@, '@', 0);
        lemma_base_name(name@, 0);
        if mark < end {
            assert(part[mark - at] == '@');
        } else {
            assert(!part.contains('@'));
        }
        assert(name@.take(name@.len() as int) =~= name@);
    }
    let count: usize = if mark < end {
        name.unicode_len()
    } else {
        find_mark(name, '@', 0)
    };
    assert(goes_by(name@, part) == (name@.take(count as int) == part));
    if count != end - at {
        assert(name@.take(count as int).len() == count);
        return false;
    }
    let mut i: usize = 0;
    while i < count
        invariant
            i <= count == end - at,
            at <= end <= path@.len(),
            count <= name@.len(),
            part == path@.subrange(at as int, end as int),
            goes_by(name@, part) == (name@.take(count as int) == part),
            forall|k: int| 0 <= k < i ==> name@[k] == path@[at + k],
        decreases count - i,
    {
        if name.get_char(i) != path.get_char(at + i) {
            assert(name@.take(count as int)[i as int] != part[i as int]);
            return false;
        }
        i = i + 1;
    }
    assert(name@.take(count as int) =~= part);
    true
}

fn search_down(tree: &[TreeNode], node: usize, path: &str, at: usize) -> (r: Option<usize>)
    requires
        node < tree@.len(),
        at <= path@.len(),
    ensures
        match r {
            Some(i) => node_down(tree@, node as int, path@, at as int) == Some(i as int) && i
                < tree@.len(),
            None => node_down(tree@, node as int, path@, at as int) is None,
        },
    decreases path@.len() - at,
{
    let end: usize = find_mark(path, '/', at);
    if !is_part(tree[node].name.as_str(), path, at, end) {
        return None;
    }
    let len: usize = path.unicode_len();
    if end >= len || end + 1 >= len {
        return Some(node);
    }
    let nodes: Vec<usize> = child_nodes(tree, node);
    let ghost all = children(tree@, node as int);
    assert(nodes@.len() == all.len()) by {
        assert(nodes@.map_values(|i: usize| i as int).len() == nodes@.len());
    }
    let mut k: usize = 0;
    while k < nodes.len()
        invariant
            k <= nodes@.len(),
            at <= end < len == path@.len(),
            nodes@.len() == all.len(),
            nodes@.map_values(|i: usize| i as int) == all,
            forall|k: int| 0 <= k < nodes@.len() ==> #[trigger] nodes@[k] < tree@.len(),
            node_down(tree@, node as int, path@, at as int) == first_down(
                tree@,
                all,
                k as int,
                path@,
                end + 1,
            ),
        decreases nodes@.len() - k,
    {
        assert(nodes@[k as int] == all[k as int]) by {
            assert(nodes@.map_values(|i: usize| i as int)[k as int] == nodes@[k as int] as int);
        }
        let found: Option<usize> = search_down(tree, nodes[k], path, end + 1);
        if found.is_some() {
            return found;
        }
        k = k + 1;
    }
    None
}

/// The node at the end of a path.
fn search_path(tree: &[TreeNode], path: &str) -> (r: Option<usize>)
    ensures
        match r {
            Some(i) => node_at_path(tree@, path@) == Some(i as int) && i < tree@.len(),
            None => node_at_path(tree@, path@) is None,
        },
{
    if tree.len() == 0 {
        return None;
    }
    search_down(tree, 0, path, 0)
}

/// Whether the first `count` characters of `full` are `name`.
fn starts_as(full: &str, count: usize, name: &str) -> (r: bool)
    requires
        count <= full@.len(),
    ensures
        r == (full@.take(count as int) == name@),
{
    if name.unicode_len() != count {
        assert(full@.take(count as int).len() == count);
        return false;
    }
    let mut i: usize = 0;
    while i < count
        invariant
            i <= count == name@.len(),
            count <= full@.len(),
            forall|k: int| 0 <= k < i ==> full@[k] == name@[k],
        decreases count - i,
    {
        if full.get_char(i) != name.get_char(i) {
            assert(full@.take(count as int)[i as int] != name@[i as int]);
            return false;
        }
        i = i + 1;
    }
    assert(full@.take(count as int) =~= name@);
    true
}

/// A text begins with another.
pub open spec fn begins_with(text: Seq<char>, prefix: Seq<char>) -> bool {
    prefix.len() <= text.len() && text.take(prefix.len() as int) == prefix
}

/// Whether a text begins with another.
pub fn has_prefix(text: &str, prefix: &str) -> (r: bool)
    ensures
        r == begins_with(text@, prefix@),
{
    let count: usize = prefix.unicode_len();
    count <= text.unicode_len() && starts_as(text, count, prefix)
}

/// The first of some nodes from `k` on that has exactly this name.
pub open spec fn named_among(
    tree: Seq<TreeNode>,
    nodes: Seq<int>,
    name: Seq<char>,
    k: int,
) -> Option<int>
    decreases nodes.len() - k,
{
    if k < 0 || k >= nodes.len() {
        None
    } else if tree[nodes[k]].name@ == name {
        Some(nodes[k])
    } else {
        named_among(tree, nodes, name, k + 1)
    }
}

/// The first child of a node that has exactly this name.
pub fn find_child(tree: &[TreeNode], node: usize, name: &str) -> (r: Option<usize>)
    requires
        node < tree@.len(),
    ensures
        match r {
            Some(i) => named_among(tree@, children(tree@, node as int), name@, 0) == Some(i as int)
                && i < tree@.len(),
            None => named_among(tree@, children(tree@, node as int), name@, 0) is None,
        },
{
    let nodes: Vec<usize> = child_nodes(tree, node);
    let ghost all = children(tree@, node as int);
    assert(nodes@.len() == all.len()) by {
        assert(nodes@.map_values(|i: usize| i as int).len() == nodes@.len());
    }
    let mut k: usize = 0;
    while k < nodes.len()
        invariant
            k <= nodes@.len(),
            all == children(tree@, node as int),
            nodes@.len() == all.len(),
            nodes@.map_values(|i: usize| i as int) == all,
            forall|k: int| 0 <= k < nodes@.len() ==> #[trigger] nodes@[k] < tree@.len(),
            named_among(tree@, all, name@, 0) == named_among(tree@, all, name@, k as int),
        decreases nodes@.len() - k,
    {
        let i: usize = nodes[k];
        assert(i == all[k as int]) by {
            assert(nodes@.map_values(|i: usize| i as int)[k as int] == i as int);
        }
        if same_str(tree[i].name.as_str(), name) {
            return Some(i);
        }
        k = k + 1;
    }
    None
}

/// The node at the end of a path or of its alias, with at most `left` aliases on the way.
fn search_aliases(tree: &[TreeNode], path: &str, left: usize) -> (r: Option<usize>)
    ensures
        match r {
            Some(i) => node_by_aliases(tree@, path@, left as nat) == Some(i as int) && i
                < tree@.len(),
            None => node_by_aliases(tree@, path@, left as nat) is None,
        },
    decreases left,
{
    let found: Option<usize> = search_path(tree, path);
    if found.is_some() {
        return found;
    }
    let other: Option<String> = match search_path(tree, "/aliases") {
        Some(aliases) => find_text(tree[aliases].properties.as_slice(), path),
        None => None,
    };
    match other {
        Some(other) => {
            if left == 0 {
                None
            } else {
                search_aliases(tree, other.as_str(), left - 1)
            }
        },
        None => None,
    }
}

/// The node at a path. The path may be an alias; aliases that lead round in a circle lead nowhere.
pub fn find_node(tree: &[TreeNode], path: &str) -> (r: Option<usize>)
    ensures
        match r {
            Some(i) => node_at(tree@, path@) == Some(i as int) && i < tree@.len(),
            None => node_at(tree@, path@) is None,
        },
{
    let count: usize = match search_path(tree, "/aliases") {
        Some(aliases) => tree[aliases].properties.len(),
        None => 0,
    };
    search_aliases(tree, path, count)
}

/// The children of the node before `i`, which is at `depth`, in order.
pub open spec fn children_from(tree: Seq<TreeNode>, depth: int, i: int) -> Seq<int>
    decreases tree.len() - i,
{
    if i < 0 || i >= tree.len() || tree[i].depth <= depth {
        Seq::empty()
    } else if tree[i].depth == depth + 1 {
        seq![i] + children_from(tree, depth, i + 1)
    } else {
        children_from(tree, depth, i + 1)
    }
}

/// The children of a node, in order.
pub open spec fn children(tree: Seq<TreeNode>, node: int) -> Seq<int> {
    children_from(tree, tree[node].depth as int, node + 1)
}

/// The children of a node, in order.
pub fn child_nodes(tree: &[TreeNode], node: usize) -> (r: Vec<usize>)
    requires
        node < tree@.len(),
    ensures
        r@.map_values(|i: usize| i as int) == children(tree@, node as int),
        forall|k: int| 0 <= k < r@.len() ==> #[trigger] r@[k] < tree@.len(),
{
    let depth: usize = tree[node].depth;
    let mut found: Vec<usize> = Vec::new();
    let mut i: usize = node + 1;
    let ghost all = children(tree@, node as int);
    assert(found@.map_values(|i: usize| i as int) + children_from(
        tree@,
        depth as int,
        i as int,
    ) =~= all);
    while i < tree.len() && tree[i].depth > depth
        invariant
            i <= tree@.len(),
            all == children(tree@, node as int),
            found@.map_values(|i: usize| i as int) + children_from(tree@, depth as int, i as int)
                == all,
            forall|k: int| 0 <= k < found@.len() ==> #[trigger] found@[k] < tree@.len(),
        decreases tree@.len() - i,
    {
        let ghost before = found@;
        if tree[i].depth - depth == 1 {
            found.push(i);
            assert(found@.map_values(|i: usize| i as int) =~= before.map_values(
                |i: usize| i as int,
            ).push(i as int));
            assert(before.map_values(|i: usize| i as int) + (seq![i as int] + children_from(
                tree@,
                depth as int,
                i + 1,
            )) =~= found@.map_values(|i: usize| i as int) + children_from(
                tree@,
                depth as int,
                i + 1,
            ));
        }
        i = i + 1;
    }
    assert(found@.map_values(|i: usize| i as int) =~= all);
    found
}

} // verus!
