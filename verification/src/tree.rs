//! The sensor tree and the searches over it: a named reading, a plausible
//! temperature, and a reading of the wireless network interface.

use crate::reading::{option_view, parse_value, reading_of_value, Ratio, Reading};
use crate::text::{chars_of, eq_ignore_ascii_case, trimmed, trimmed_eq, trimmed_eq_ignore_case};
use vstd::prelude::*;

verus! {

/// One node of the sensor feed: a label and a raw value, either of which may
/// be missing, and the nodes below it in their order.
#[derive(Debug)]
pub struct SensorNode {
    pub label: Option<String>,
    pub value: Option<String>,
    pub children: Vec<SensorNode>,
}

/// The tree that a `SensorNode` stands for.
pub ghost struct SensorTree {
    pub label: Option<Seq<char>>,
    pub value: Option<Seq<char>>,
    pub children: Seq<SensorTree>,
}

impl SensorNode {
    /// The tree below this node, this node included.
    pub open spec fn tree(self) -> SensorTree
        decreases self,
    {
        SensorTree {
            label: match self.label {
                Some(s) => Some(s@),
                None => None,
            },
            value: match self.value {
                Some(s) => Some(s@),
                None => None,
            },
            children: Seq::new(
                self.children.len() as nat,
                |i: int|
                    if 0 <= i < self.children.len() {
                        self.children[i].tree()
                    } else {
                        arbitrary()
                    },
            ),
        }
    }
}

impl View for SensorNode {
    type V = SensorTree;

    open spec fn view(&self) -> SensorTree {
        self.tree()
    }
}

/// The view of a node holds the views of its children, in their order.
pub proof fn lemma_view_children(node: &SensorNode)
    ensures
        node@.children.len() == node.children.len(),
        forall|j: int|
            0 <= j < node.children.len() ==> #[trigger] node@.children[j] == node.children[j]@,
{
}

/// The label of the wireless network interface.
pub open spec fn interface_label() -> Seq<char> {
    seq!['W', 'i', '-', 'F', 'i']
}

/// Whether the node's label, trimmed, equals `name` up to the case of ASCII
/// letters.
pub open spec fn label_matches(t: SensorTree, name: Seq<char>) -> bool {
    t.label is Some && eq_ignore_ascii_case(trimmed(t.label->0), name)
}

/// The reading that the node itself gives for `name`: that of its value, where
/// its label matches and it has a value that can be read.
pub open spec fn own_reading(t: SensorTree, name: Seq<char>) -> Option<Ratio> {
    if label_matches(t, name) && t.value is Some {
        reading_of_value(t.value->0)
    } else {
        None
    }
}

/// The nodes of the tree in depth-first order, each node before its children.
pub open spec fn preorder(t: SensorTree) -> Seq<SensorTree>
    decreases t,
{
    seq![t] + preorder_from(t.children, 0)
}

/// The nodes of the trees `ts[from..]`, tree by tree, each in depth-first
/// order.
pub open spec fn preorder_from(ts: Seq<SensorTree>, from: int) -> Seq<SensorTree>
    decreases ts, ts.len() - from,
{
    if 0 <= from < ts.len() {
        preorder(ts[from]) + preorder_from(ts, from + 1)
    } else {
        Seq::empty()
    }
}

/// The reading of the first of `nodes` that itself gives one for `name`.
pub open spec fn first_reading(nodes: Seq<SensorTree>, name: Seq<char>) -> Option<Ratio>
    decreases nodes.len(),
{
    if nodes.len() == 0 {
        None
    } else {
        match own_reading(nodes[0], name) {
            Some(r) => Some(r),
            None => first_reading(nodes.drop_first(), name),
        }
    }
}

/// The reading for `name` in the tree: that of the first node, in depth-first
/// order, that itself gives one.
pub open spec fn resolve(t: SensorTree, name: Seq<char>) -> Option<Ratio> {
    first_reading(preorder(t), name)
}

/// The reading for `name` in the trees `ts[from..]`.
pub open spec fn resolve_from(ts: Seq<SensorTree>, name: Seq<char>, from: int) -> Option<Ratio> {
    first_reading(preorder_from(ts, from), name)
}

/// Over two lists of nodes in a row, the first reading is that of the first
/// list, or else that of the second.
pub proof fn lemma_first_reading_concat(a: Seq<SensorTree>, b: Seq<SensorTree>, name: Seq<char>)
    ensures
        first_reading(a + b, name) == match first_reading(a, name) {
            Some(r) => Some(r),
            None => first_reading(b, name),
        },
    decreases a.len(),
{
    if a.len() == 0 {
        assert(a + b =~= b);
    } else {
        assert((a + b).drop_first() =~= a.drop_first() + b);
        lemma_first_reading_concat(a.drop_first(), b, name);
    }
}

/// A tree gives the reading of its root, or else that of its children.
pub proof fn lemma_resolve_unfold(t: SensorTree, name: Seq<char>)
    ensures
        resolve(t, name) == match own_reading(t, name) {
            Some(r) => Some(r),
            None => resolve_from(t.children, name, 0),
        },
{
    lemma_first_reading_concat(seq![t], preorder_from(t.children, 0), name);
    assert(seq![t].drop_first() =~= Seq::<SensorTree>::empty());
    assert(first_reading(seq![t].drop_first(), name) is None);
}

/// A row of trees gives the reading of its first tree, or else that of the
/// trees behind it.
pub proof fn lemma_resolve_from_unfold(ts: Seq<SensorTree>, name: Seq<char>, from: int)
    ensures
        resolve_from(ts, name, from) == if 0 <= from < ts.len() {
            match resolve(ts[from], name) {
                Some(r) => Some(r),
                None => resolve_from(ts, name, from + 1),
            }
        } else {
            None
        },
{
    if 0 <= from < ts.len() {
        lemma_first_reading_concat(preorder(ts[from]), preorder_from(ts, from + 1), name);
    }
}

fn own_value(node: &SensorNode, name: &Vec<char>) -> (r: Option<Reading>)
    ensures
        option_view(r) == own_reading(node@, name@),
        r is Some ==> r->0@.sensor_sized(),
{
    match &node.label {
        Some(label) => {
            let text: Vec<char> = chars_of(label.as_str());
            if trimmed_eq_ignore_case(&text, name) {
                match &node.value {
                    Some(value) => parse_value(value.as_str()),
                    None => None,
                }
            } else {
                None
            }
        },
        None => None,
    }
}

fn find_in(node: &SensorNode, name: &Vec<char>) -> (r: Option<Reading>)
    ensures
        option_view(r) == resolve(node@, name@),
        r is Some ==> r->0@.sensor_sized(),
    decreases node,
{
    proof {
        lemma_resolve_unfold(node@, name@);
        lemma_view_children(node);
    }
    if let Some(found) = own_value(node, name) {
        return Some(found);
    }
    let mut i: usize = 0;
    while i < node.children.len()
        invariant
            i <= node.children.len(),
            node@.children.len() == node.children.len(),
            forall|j: int|
                0 <= j < node.children.len() ==> #[trigger] node@.children[j]
                    == node.children[j]@,
            resolve(node@, name@) == resolve_from(node@.children, name@, i as int),
        decreases node.children.len() - i,
    {
        proof {
            lemma_resolve_from_unfold(node@.children, name@, i as int);
        }
        if let Some(found) = find_in(&node.children[i], name) {
            return Some(found);
        }
        i += 1;
    }
    proof {
        lemma_resolve_from_unfold(node@.children, name@, i as int);
    }
    None
}

/// Finds the reading for `name`: the first node in depth-first order whose
/// label, trimmed, equals `name` up to the case of ASCII letters and whose
/// value can be read gives the result.
pub fn find_numeric(node: &SensorNode, name: &str) -> (r: Option<Reading>)
    ensures
        option_view(r) == resolve(node@, name@),
        r is Some ==> r->0@.sensor_sized(),
{
    let name_chars: Vec<char> = chars_of(name);
    find_in(node, &name_chars)
}

/// A temperature is plausible strictly between -50 and 150.
pub open spec fn plausible_temperature(r: Ratio) -> bool {
    r.above(-50) && r.below(150)
}

/// The reading for `name` in the tree, where it is a plausible temperature.
pub open spec fn resolve_temperature(t: SensorTree, name: Seq<char>) -> Option<Ratio> {
    match resolve(t, name) {
        Some(r) => if plausible_temperature(r) {
            Some(r)
        } else {
            None
        },
        None => None,
    }
}

/// Finds the temperature for `name`: the reading that `find_numeric` gives,
/// unless it is -50 or less, or 150 or more.
pub fn find_temperature(node: &SensorNode, name: &str) -> (r: Option<Reading>)
    ensures
        option_view(r) == resolve_temperature(node@, name@),
        r is Some ==> r->0@.sensor_sized(),
{
    match find_numeric(node, name) {
        Some(found) => if found.is_between(-50, 150) {
            Some(found)
        } else {
            None
        },
        None => None,
    }
}

/// Whether the node's label, trimmed, is exactly that of the wireless
/// network interface.
pub open spec fn is_interface(t: SensorTree) -> bool {
    t.label is Some && trimmed(t.label->0) == interface_label()
}

/// The first of `nodes` that is an interface node.
pub open spec fn first_interface(nodes: Seq<SensorTree>) -> Option<SensorTree>
    decreases nodes.len(),
{
    if nodes.len() == 0 {
        None
    } else if is_interface(nodes[0]) {
        Some(nodes[0])
    } else {
        first_interface(nodes.drop_first())
    }
}

/// The reading for `direction` under the wireless network interface: the
/// first interface node of the tree, in depth-first order and the root
/// included, decides with the reading found in its subtree, found or not.
/// Without an interface node nothing is found.
pub open spec fn interface_reading(t: SensorTree, direction: Seq<char>) -> Option<Ratio> {
    match first_interface(preorder(t)) {
        Some(n) => resolve(n, direction),
        None => None,
    }
}

/// Over two lists of nodes in a row, the first interface node is that of the
/// first list, or else that of the second.
pub proof fn lemma_first_interface_concat(a: Seq<SensorTree>, b: Seq<SensorTree>)
    ensures
        first_interface(a + b) == match first_interface(a) {
            Some(n) => Some(n),
            None => first_interface(b),
        },
    decreases a.len(),
{
    if a.len() == 0 {
        assert(a + b =~= b);
    } else {
        assert((a + b).drop_first() =~= a.drop_first() + b);
        lemma_first_interface_concat(a.drop_first(), b);
    }
}

/// The first interface node of a tree is its root, or else the first among
/// its children's trees.
pub proof fn lemma_first_interface_unfold(t: SensorTree)
    ensures
        first_interface(preorder(t)) == if is_interface(t) {
            Some(t)
        } else {
            first_interface(preorder_from(t.children, 0))
        },
{
    lemma_first_interface_concat(seq![t], preorder_from(t.children, 0));
    assert(seq![t].drop_first() =~= Seq::<SensorTree>::empty());
    assert(first_interface(seq![t].drop_first()) is None);
}

/// The first interface node of a row of trees is that of the first tree, or
/// else that of the trees behind it.
pub proof fn lemma_first_interface_from_unfold(ts: Seq<SensorTree>, from: int)
    ensures
        first_interface(preorder_from(ts, from)) == if 0 <= from < ts.len() {
            match first_interface(preorder(ts[from])) {
                Some(n) => Some(n),
                None => first_interface(preorder_from(ts, from + 1)),
            }
        } else {
            None
        },
{
    if 0 <= from < ts.len() {
        lemma_first_interface_concat(preorder(ts[from]), preorder_from(ts, from + 1));
    }
}

fn node_is_interface(node: &SensorNode, interface: &Vec<char>) -> (r: bool)
    requires
        interface@ == interface_label(),
    ensures
        r == is_interface(node@),
{
    match &node.label {
        Some(label) => {
            let text: Vec<char> = chars_of(label.as_str());
            trimmed_eq(&text, interface)
        },
        None => false,
    }
}

fn find_interface<'a>(node: &'a SensorNode, interface: &Vec<char>) -> (r: Option<&'a SensorNode>)
    requires
        interface@ == interface_label(),
    ensures
        first_interface(preorder(node@)) == match r {
            Some(n) => Some(n@),
            None => None,
        },
    decreases node,
{
    proof {
        lemma_view_children(node);
        lemma_first_interface_unfold(node@);
    }
    if node_is_interface(node, interface) {
        return Some(node);
    }
    let mut i: usize = 0;
    while i < node.children.len()
        invariant
            i <= node.children.len(),
            interface@ == interface_label(),
            node@.children.len() == node.children.len(),
            forall|j: int|
                0 <= j < node.children.len() ==> #[trigger] node@.children[j]
                    == node.children[j]@,
            first_interface(preorder(node@)) == first_interface(
                preorder_from(node@.children, i as int),
            ),
        decreases node.children.len() - i,
    {
        proof {
            lemma_first_interface_from_unfold(node@.children, i as int);
        }
        if let Some(found) = find_interface(&node.children[i], interface) {
            return Some(found);
        }
        i += 1;
    }
    proof {
        lemma_first_interface_from_unfold(node@.children, i as int);
    }
    None
}

/// Finds the network speed for `direction` under the wireless network
/// interface, the node labelled `Wi-Fi`.
pub fn find_wifi_speed(json: &SensorNode, direction: &str) -> (r: Option<Reading>)
    ensures
        option_view(r) == interface_reading(json@, direction@),
        r is Some ==> r->0@.sensor_sized(),
{
    let interface: Vec<char> = vec!['W', 'i', '-', 'F', 'i'];
    assert(interface@ =~= interface_label());
    match find_interface(json, &interface) {
        Some(node) => find_numeric(node, direction),
        None => None,
    }
}

/// Where none of `nodes` itself gives a reading for `name`, there is no first
/// reading.
pub proof fn lemma_first_reading_none(nodes: Seq<SensorTree>, name: Seq<char>)
    requires
        forall|i: int| 0 <= i < nodes.len() ==> own_reading(#[trigger] nodes[i], name) is None,
    ensures
        first_reading(nodes, name) is None,
    decreases nodes.len(),
{
    if nodes.len() > 0 {
        assert(own_reading(nodes[0], name) is None);
        assert forall|i: int| 0 <= i < nodes.drop_first().len() implies own_reading(
            #[trigger] nodes.drop_first()[i],
            name,
        ) is None by {
            assert(nodes.drop_first()[i] == nodes[i + 1]);
        }
        lemma_first_reading_none(nodes.drop_first(), name);
    }
}

/// Where `nodes[k]` itself gives a reading for `name` and no node before it
/// does, that reading is the first.
pub proof fn lemma_first_reading_at(nodes: Seq<SensorTree>, name: Seq<char>, k: int)
    requires
        0 <= k < nodes.len(),
        own_reading(nodes[k], name) is Some,
        forall|j: int| 0 <= j < k ==> own_reading(#[trigger] nodes[j], name) is None,
    ensures
        first_reading(nodes, name) == own_reading(nodes[k], name),
    decreases nodes.len(),
{
    if k > 0 {
        assert(own_reading(nodes[0], name) is None);
        assert forall|j: int| 0 <= j < k - 1 implies own_reading(
            #[trigger] nodes.drop_first()[j],
            name,
        ) is None by {
            assert(nodes.drop_first()[j] == nodes[j + 1]);
        }
        assert(nodes.drop_first()[k - 1] == nodes[k]);
        lemma_first_reading_at(nodes.drop_first(), name, k - 1);
    }
}

/// A first reading is the reading of one of the nodes, and no node before
/// that one gives any.
pub proof fn lemma_first_reading_witness(nodes: Seq<SensorTree>, name: Seq<char>) -> (k: int)
    requires
        first_reading(nodes, name) is Some,
    ensures
        0 <= k < nodes.len(),
        own_reading(nodes[k], name) == first_reading(nodes, name),
        forall|j: int| 0 <= j < k ==> own_reading(#[trigger] nodes[j], name) is None,
    decreases nodes.len(),
{
    if own_reading(nodes[0], name) is Some {
        0
    } else {
        let k = lemma_first_reading_witness(nodes.drop_first(), name);
        assert(nodes.drop_first()[k] == nodes[k + 1]);
        assert forall|j: int| 0 <= j < k + 1 implies own_reading(#[trigger] nodes[j], name)
            is None by {
            if j > 0 {
                assert(nodes.drop_first()[j - 1] == nodes[j]);
            }
        }
        k + 1
    }
}

/// The search returns the reading of the first node, in depth-first order,
/// whose label matches `name` and whose value can be read: where the node at
/// place `k` is one and no node before it is, its reading, rescaled by its
/// unit, is the result.
pub proof fn lemma_first_match_wins(t: SensorTree, name: Seq<char>, k: int)
    requires
        0 <= k < preorder(t).len(),
        own_reading(preorder(t)[k], name) is Some,
        forall|j: int| 0 <= j < k ==> own_reading(#[trigger] preorder(t)[j], name) is None,
    ensures
        resolve(t, name) == own_reading(preorder(t)[k], name),
        resolve(t, name) == reading_of_value(preorder(t)[k].value->0),
{
    lemma_first_reading_at(preorder(t), name, k);
}

/// A root whose label matches `name` and whose value can be read decides
/// itself: the result is the reading of its value, rescaled by its unit,
/// whatever its children hold.
pub proof fn lemma_matching_root_decides(t: SensorTree, name: Seq<char>)
    requires
        label_matches(t, name),
        t.value is Some,
        reading_of_value(t.value->0) is Some,
    ensures
        resolve(t, name) == reading_of_value(t.value->0),
{
    lemma_resolve_unfold(t, name);
}

/// The search finds a reading exactly where some node of the tree has a
/// matching label and a value that can be read.
pub proof fn lemma_found_iff_some_node_reads(t: SensorTree, name: Seq<char>)
    ensures
        resolve(t, name) is Some <==> exists|k: int|
            0 <= k < preorder(t).len() && own_reading(#[trigger] preorder(t)[k], name) is Some,
{
    if resolve(t, name) is Some {
        let k = lemma_first_reading_witness(preorder(t), name);
        assert(own_reading(preorder(t)[k], name) is Some);
    } else {
        if exists|k: int|
            0 <= k < preorder(t).len() && own_reading(#[trigger] preorder(t)[k], name) is Some {
            let k = choose|k: int|
                0 <= k < preorder(t).len() && own_reading(#[trigger] preorder(t)[k], name)
                    is Some;
            let first = choose_first(preorder(t), name, k);
            lemma_first_reading_at(preorder(t), name, first);
        }
    }
}

/// The least place at or before `k` whose node itself gives a reading.
proof fn choose_first(nodes: Seq<SensorTree>, name: Seq<char>, k: int) -> (first: int)
    requires
        0 <= k < nodes.len(),
        own_reading(nodes[k], name) is Some,
    ensures
        0 <= first <= k,
        own_reading(nodes[first], name) is Some,
        forall|j: int| 0 <= j < first ==> own_reading(#[trigger] nodes[j], name) is None,
    decreases k,
{
    if exists|j: int| 0 <= j < k && own_reading(#[trigger] nodes[j], name) is Some {
        let j = choose|j: int| 0 <= j < k && own_reading(#[trigger] nodes[j], name) is Some;
        choose_first(nodes, name, j)
    } else {
        k
    }
}

/// A label that no node of the tree bears is not found, whatever the tree.
pub proof fn lemma_absent_label_not_found(t: SensorTree, name: Seq<char>)
    requires
        forall|i: int|
            0 <= i < preorder(t).len() ==> !label_matches(#[trigger] preorder(t)[i], name),
    ensures
        resolve(t, name) is None,
{
    lemma_first_reading_none(preorder(t), name);
}

/// Whether `nodes[k]` is the first interface node of `nodes`.
pub open spec fn first_interface_at(nodes: Seq<SensorTree>, k: int) -> bool {
    &&& 0 <= k < nodes.len()
    &&& is_interface(nodes[k])
    &&& forall|j: int| 0 <= j < k ==> !is_interface(#[trigger] nodes[j])
}

/// The first interface node of `nodes` is one of them, at the least place
/// that holds an interface node; there is none exactly where no place holds
/// one.
pub proof fn lemma_first_interface_place(nodes: Seq<SensorTree>) -> (k: int)
    ensures
        first_interface(nodes) is Some ==> first_interface_at(nodes, k) && first_interface(nodes)
            == Some(nodes[k]),
        first_interface(nodes) is None ==> forall|j: int|
            0 <= j < nodes.len() ==> !is_interface(#[trigger] nodes[j]),
    decreases nodes.len(),
{
    if nodes.len() == 0 || is_interface(nodes[0]) {
        0
    } else {
        let rest = nodes.drop_first();
        let k = lemma_first_interface_place(rest);
        if first_interface(rest) is Some {
            assert(rest[k] == nodes[k + 1]);
            assert forall|j: int| 0 <= j < k + 1 implies !is_interface(#[trigger] nodes[j]) by {
                if j > 0 {
                    assert(rest[j - 1] == nodes[j]);
                }
            }
        } else {
            assert forall|j: int| 0 <= j < nodes.len() implies !is_interface(
                #[trigger] nodes[j],
            ) by {
                if j > 0 {
                    assert(rest[j - 1] == nodes[j]);
                }
            }
        }
        k + 1
    }
}

/// A reading found under the wireless network interface is the reading of the
/// subtree of an interface node of the tree: what stands outside that subtree
/// is never returned.
pub proof fn lemma_interface_reading_is_scoped(t: SensorTree, direction: Seq<char>)
    ensures
        interface_reading(t, direction) is Some ==> exists|k: int|
            first_interface_at(preorder(t), k) && resolve(#[trigger] preorder(t)[k], direction)
                == interface_reading(t, direction),
{
    if interface_reading(t, direction) is Some {
        let k = lemma_first_interface_place(preorder(t));
        assert(first_interface_at(preorder(t), k));
        assert(resolve(preorder(t)[k], direction) == interface_reading(t, direction));
    }
}

/// In a tree without an interface node nothing is found under the interface,
/// whatever readings the tree holds.
pub proof fn lemma_no_interface_not_found(t: SensorTree, direction: Seq<char>)
    requires
        forall|j: int| 0 <= j < preorder(t).len() ==> !is_interface(#[trigger] preorder(t)[j]),
    ensures
        interface_reading(t, direction) is None,
{
    let k = lemma_first_interface_place(preorder(t));
    if first_interface(preorder(t)) is Some {
        assert(is_interface(preorder(t)[k]));
    }
}

/// The first interface node of the tree, in depth-first order, decides: the
/// result is the reading found in its subtree, found or not.
pub proof fn lemma_first_interface_decides(t: SensorTree, direction: Seq<char>, k: int)
    requires
        first_interface_at(preorder(t), k),
    ensures
        interface_reading(t, direction) == resolve(preorder(t)[k], direction),
{
    let first = lemma_first_interface_place(preorder(t));
    if first_interface(preorder(t)) is Some {
        assert(first == k) by {
            if first < k {
                assert(!is_interface(preorder(t)[first]));
            }
            if k < first {
                assert(!is_interface(preorder(t)[k]));
            }
        }
    } else {
        assert(!is_interface(preorder(t)[k]));
    }
}

/// A root that is an interface node decides itself.
pub proof fn lemma_interface_root_decides(t: SensorTree, direction: Seq<char>)
    requires
        is_interface(t),
    ensures
        interface_reading(t, direction) == resolve(t, direction),
{
    lemma_first_interface_unfold(t);
}

/// The temperature filter passes a reading on only where it lies strictly
/// between -50 and 150: a reading of -50 or less, or of 150 or more, is not
/// found, though its label matches and its value can be read.
pub proof fn lemma_temperature_filter(t: SensorTree, name: Seq<char>)
    ensures
        resolve_temperature(t, name) is Some ==> {
            let r = resolve_temperature(t, name)->0;
            &&& resolve(t, name) == Some(r)
            &&& r.above(-50)
            &&& r.below(150)
        },
        resolve(t, name) is Some && (!resolve(t, name)->0.above(-50) || !resolve(
            t,
            name,
        )->0.below(150)) ==> resolve_temperature(t, name) is None,
        resolve(t, name) is None ==> resolve_temperature(t, name) is None,
{
}

} // verus!
