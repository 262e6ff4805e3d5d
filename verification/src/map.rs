//! The map: a grid of nodes, layer by layer, with paths from each layer to the next, and the
//! rules by which completing a node unlocks the nodes it leads to.

use crate::rng::{choose_one, random_below, random_ratio, shuffle_in_place};
use vstd::prelude::*;

verus! {

/// What waits at a node.
#[derive(Debug, Clone, Copy, PartialEq, Eq, Structural)]
pub enum NodeType {
    /// An ordinary battle.
    Normal,
    /// An elite battle.
    Elite,
    /// The boss.
    Boss,
    /// A place to rest.
    Rest,
    /// A shop.
    Shop,
    /// A chance encounter.
    Event,
    /// A treasure chest.
    Treasure,
    /// Unknown.
    Unknown,
}

/// A node of the map.
#[derive(Debug)]
pub struct MapNode {
    pub id: u32,
    pub node_type: NodeType,
    /// `(layer, index within the layer)`.
    pub position: (i32, i32),
    pub unlocked: bool,
    pub completed: bool,
    /// The identifiers of the nodes this one leads to.
    pub next_nodes: Vec<u32>,
}

/// A node as a value.
pub struct MapNodeView {
    pub id: u32,
    pub node_type: NodeType,
    pub position: (i32, i32),
    pub unlocked: bool,
    pub completed: bool,
    pub next_nodes: Seq<u32>,
}

impl View for MapNode {
    type V = MapNodeView;

    open spec fn view(&self) -> MapNodeView {
        MapNodeView {
            id: self.id,
            node_type: self.node_type,
            position: self.position,
            unlocked: self.unlocked,
            completed: self.completed,
            next_nodes: self.next_nodes@,
        }
    }
}

impl Clone for MapNode {
    fn clone(&self) -> (r: Self)
        ensures
            r@ == self@,
    {
        MapNode {
            id: self.id,
            node_type: self.node_type,
            position: self.position,
            unlocked: self.unlocked,
            completed: self.completed,
            next_nodes: self.next_nodes.clone(),
        }
    }
}

impl MapNode {
    /// The layer of the node.
    pub fn layer(&self) -> (r: u32)
        ensures
            r == self.position.0 as u32,
    {
        self.position.0 as u32
    }
}

/// The shape of a map.
#[derive(Debug, Clone, Copy, PartialEq, Eq, Structural)]
pub struct MapConfig {
    /// The number of layers; the last holds the boss.
    pub layers: u32,
    /// The number of nodes in each layer.
    pub nodes_per_layer: u32,
}

impl Default for MapConfig {
    fn default() -> (r: Self)
        ensures
            r == (MapConfig { layers: 10, nodes_per_layer: 4 }),
    {
        MapConfig { layers: 10, nodes_per_layer: 4 }
    }
}

// ============================================================================
// The grid
// ============================================================================

/// The identifier of the node at index `i` of layer `l`.
pub open spec fn node_id(l: int, i: int, npl: int) -> int {
    l * npl + i
}

/// `(l, i)` is a position of the grid.
pub open spec fn in_grid(l: int, i: int, layers: int, npl: int) -> bool {
    0 <= l < layers && 0 <= i < npl
}

/// The kind a node gets for a percentile roll: the boss on the last layer, elites on the one
/// before, otherwise an event for a roll below 15, else a shop at every seventh index, a rest
/// at every third, and an ordinary battle elsewhere.
pub open spec fn node_type_for(l: int, i: int, layers: int, roll: int) -> NodeType {
    if l == layers - 1 {
        NodeType::Boss
    } else if l == layers - 2 {
        NodeType::Elite
    } else if roll < 15 {
        NodeType::Event
    } else if i % 7 == 0 {
        NodeType::Shop
    } else if i % 3 == 0 {
        NodeType::Rest
    } else {
        NodeType::Normal
    }
}

/// The kind is one that some roll gives at that position.
pub open spec fn type_allowed(t: NodeType, l: int, i: int, layers: int) -> bool {
    t == node_type_for(l, i, layers, 0) || t == node_type_for(l, i, layers, 99)
}

/// `s` is a node one layer further down, at the same index or a neighbouring one.
pub open spec fn step_ok(l: int, i: int, s: int, layers: int, npl: int) -> bool {
    &&& l + 1 < layers
    &&& {
        ||| (i >= 1 && s == node_id(l + 1, i - 1, npl))
        ||| s == node_id(l + 1, i, npl)
        ||| (i + 1 < npl && s == node_id(l + 1, i + 1, npl))
    }
}

/// The fixed fields of the node at `(l, i)` of a fresh map.
pub open spec fn fresh_at(n: MapNode, l: int, i: int, layers: int, npl: int) -> bool {
    &&& n.id == node_id(l, i, npl)
    &&& n.position == (l as i32, i as i32)
    &&& n.unlocked == (l == 0)
    &&& !n.completed
    &&& type_allowed(n.node_type, l, i, layers)
}

/// Some node leads to `x`.
pub open spec fn has_pred(nodes: Seq<MapNode>, x: int) -> bool {
    exists|p: int, j: int|
        0 <= p < nodes.len() && 0 <= j < nodes[p].next_nodes@.len() && #[trigger] nodes[p].next_nodes@[j]
            == x
}

/// A fresh map of `layers` layers of `npl` nodes: every node is in place with its fixed
/// fields; every path goes one layer down to the same or a neighbouring index, without
/// repeats; every node above the last layer has a path down; every node below the first layer
/// has a path into it.
pub open spec fn map_wf(nodes: Seq<MapNode>, layers: int, npl: int) -> bool {
    &&& nodes.len() == layers * npl
    &&& forall|l: int, i: int|
        in_grid(l, i, layers, npl) ==> #[trigger] fresh_at(nodes[node_id(l, i, npl)], l, i, layers, npl)
    &&& forall|l: int, i: int, j: int|
        in_grid(l, i, layers, npl) && 0 <= j < nodes[node_id(l, i, npl)].next_nodes@.len() ==> step_ok(
            l,
            i,
            #[trigger] nodes[node_id(l, i, npl)].next_nodes@[j] as int,
            layers,
            npl,
        )
    &&& forall|l: int, i: int|
        in_grid(l, i, layers, npl) ==> #[trigger] nodes[node_id(l, i, npl)].next_nodes@.no_duplicates()
    &&& forall|l: int, i: int|
        in_grid(l, i, layers, npl) && l + 1 < layers ==> #[trigger] nodes[node_id(
            l,
            i,
            npl,
        )].next_nodes@.len() >= 1
    &&& forall|l: int, i: int|
        in_grid(l, i, layers, npl) && l >= 1 ==> #[trigger] has_pred(nodes, node_id(l, i, npl))
}

proof fn lemma_node_id_bounds(l: int, i: int, layers: int, npl: int)
    requires
        in_grid(l, i, layers, npl),
    ensures
        0 <= node_id(l, i, npl) < layers * npl,
        node_id(l, i, npl) + 1 <= (l + 1) * npl,
        l * npl <= node_id(l, i, npl),
{
    assert(0 <= l * npl + i < layers * npl) by (nonlinear_arith)
        requires
            0 <= l < layers,
            0 <= i < npl,
    ;
    assert((l + 1) * npl == l * npl + npl) by (nonlinear_arith);
}

proof fn lemma_node_id_injective(l1: int, i1: int, l2: int, i2: int, npl: int)
    requires
        0 <= i1 < npl,
        0 <= i2 < npl,
        0 <= l1,
        0 <= l2,
        node_id(l1, i1, npl) == node_id(l2, i2, npl),
    ensures
        l1 == l2,
        i1 == i2,
{
    if l1 < l2 {
        assert(l1 * npl + i1 < l2 * npl + i2) by (nonlinear_arith)
            requires
                l1 < l2,
                0 <= i1 < npl,
                0 <= i2,
        ;
    } else if l2 < l1 {
        assert(l2 * npl + i2 < l1 * npl + i1) by (nonlinear_arith)
            requires
                l2 < l1,
                0 <= i2 < npl,
                0 <= i1,
        ;
    }
}

proof fn lemma_node_id_order(l1: int, i1: int, l2: int, i2: int, npl: int)
    requires
        0 <= i1 < npl,
        0 <= i2 < npl,
        0 <= l1,
        (l1 < l2) || (l1 == l2 && i1 < i2),
    ensures
        node_id(l1, i1, npl) < node_id(l2, i2, npl),
{
    if l1 < l2 {
        assert(l1 * npl + i1 < l2 * npl + i2) by (nonlinear_arith)
            requires
                l1 < l2,
                0 <= i1 < npl,
                0 <= i2,
        ;
    }
}

/// A node's kind goes by its layer first and its roll second. The last layer holds the boss
/// and the one before it elites. On any other layer a roll below 15 makes an event, whatever
/// the node's index; a roll of 15 or more makes a shop at an index divisible by 7, else a
/// rest at an index divisible by 3, else an ordinary battle. So on those layers the kind for
/// a low roll never depends on the index, and the kind for a high roll never on the roll.
pub proof fn law_node_kinds(l: int, i: int, layers: int, roll: int, i2: int, roll2: int)
    requires
        0 <= l < layers,
        0 <= i,
        0 <= i2,
    ensures
        l == layers - 1 ==> node_type_for(l, i, layers, roll) == NodeType::Boss,
        l == layers - 2 ==> node_type_for(l, i, layers, roll) == NodeType::Elite,
        l < layers - 2 && roll < 15 ==> node_type_for(l, i, layers, roll) == NodeType::Event,
        l < layers - 2 && roll >= 15 && i % 7 == 0 ==> node_type_for(l, i, layers, roll) == NodeType::Shop,
        l < layers - 2 && roll >= 15 && i % 7 != 0 && i % 3 == 0 ==> node_type_for(l, i, layers, roll)
            == NodeType::Rest,
        l < layers - 2 && roll >= 15 && i % 7 != 0 && i % 3 != 0 ==> node_type_for(l, i, layers, roll)
            == NodeType::Normal,
        l < layers - 2 && roll < 15 && roll2 < 15 ==> node_type_for(l, i, layers, roll)
            == node_type_for(l, i2, layers, roll2),
        l < layers - 2 && roll >= 15 && roll2 >= 15 ==> node_type_for(l, i, layers, roll)
            == node_type_for(l, i, layers, roll2),
        node_type_for(l, i, layers, roll) == NodeType::Event ==> l < layers - 2 && roll < 15,
        node_type_for(l, i, layers, roll) == NodeType::Shop ==> l < layers - 2 && roll >= 15 && i % 7 == 0,
{
}

/// Computes the kind a node gets for a percentile roll (see `node_type_for`).
pub fn node_type_for_roll(layer: u32, node_idx: u32, layers: u32, roll: u64) -> (r: NodeType)
    requires
        layers >= 1,
    ensures
        r == node_type_for(layer as int, node_idx as int, layers as int, roll as int),
{
    if layer == layers - 1 {
        NodeType::Boss
    } else if layers >= 2 && layer == layers - 2 {
        NodeType::Elite
    } else if roll < 15 {
        NodeType::Event
    } else if node_idx % 7 == 0 {
        NodeType::Shop
    } else if node_idx % 3 == 0 {
        NodeType::Rest
    } else {
        NodeType::Normal
    }
}

/// The nodes of the grid in order, each with its kind drawn and no paths yet.
fn build_layers(layers: u32, npl: u32) -> (nodes: Vec<MapNode>)
    requires
        layers >= 1,
        layers * npl <= i32::MAX,
    ensures
        nodes@.len() == layers * npl,
        forall|l: int, i: int|
            in_grid(l, i, layers as int, npl as int) ==> #[trigger] fresh_at(
                nodes@[node_id(l, i, npl as int)],
                l,
                i,
                layers as int,
                npl as int,
            ),
        forall|k: int| 0 <= k < nodes@.len() ==> #[trigger] nodes@[k].next_nodes@.len() == 0,
{
    let mut nodes: Vec<MapNode> = Vec::new();
    let mut id: u32 = 0;
    let mut layer: u32 = 0;
    while layer < layers
        invariant
            layer <= layers,
            layers * npl <= i32::MAX,
            layers >= 1,
            id == node_id(layer as int, 0, npl as int),
            nodes@.len() == id,
            forall|l: int, i: int|
                in_grid(l, i, layer as int, npl as int) ==> #[trigger] fresh_at(
                    nodes@[node_id(l, i, npl as int)],
                    l,
                    i,
                    layers as int,
                    npl as int,
                ),
            forall|k: int| 0 <= k < nodes@.len() ==> #[trigger] nodes@[k].next_nodes@.len() == 0,
        decreases layers - layer,
    {
        proof {
            assert(layer * npl <= layers * npl) by (nonlinear_arith)
                requires
                    layer < layers,
            ;
            assert((layer + 1) * npl <= layers * npl) by (nonlinear_arith)
                requires
                    layer < layers,
            ;
            assert((layer + 1) * npl == layer * npl + npl) by (nonlinear_arith);
        }
        let mut node_idx: u32 = 0;
        while node_idx < npl
            invariant
                layer < layers,
                node_idx <= npl,
                layers * npl <= i32::MAX,
                layers >= 1,
                (layer + 1) * npl <= layers * npl,
                id == node_id(layer as int, node_idx as int, npl as int),
                nodes@.len() == id,
                forall|l: int, i: int|
                    (in_grid(l, i, layer as int, npl as int) || (l == layer && 0 <= i < node_idx)) ==> #[trigger] fresh_at(
                        nodes@[node_id(l, i, npl as int)],
                        l,
                        i,
                        layers as int,
                        npl as int,
                    ),
                forall|k: int| 0 <= k < nodes@.len() ==> #[trigger] nodes@[k].next_nodes@.len() == 0,
            decreases npl - node_idx,
        {
            let roll = random_below(100);
            let node_type = node_type_for_roll(layer, node_idx, layers, roll);
            proof {
                assert(type_allowed(node_type, layer as int, node_idx as int, layers as int));
                assert((layer + 1) * npl == layer * npl + npl) by (nonlinear_arith);
            }
            let ghost before = nodes@;
            nodes.push(MapNode {
                id,
                node_type,
                position: (layer as i32, node_idx as i32),
                unlocked: layer == 0,
                completed: false,
                next_nodes: Vec::new(),
            });
            proof {
                assert forall|l: int, i: int|
                    (in_grid(l, i, layer as int, npl as int) || (l == layer && 0 <= i < node_idx + 1)) implies #[trigger] fresh_at(
                        nodes@[node_id(l, i, npl as int)],
                        l,
                        i,
                        layers as int,
                        npl as int,
                    ) by {
                    if l == layer && i == node_idx {
                    } else {
                        lemma_node_id_order(l, i, layer as int, node_idx as int, npl as int);
                        assert(nodes@[node_id(l, i, npl as int)] == before[node_id(l, i, npl as int)]);
                    }
                }
            }
            id = id + 1;
            node_idx = node_idx + 1;
        }
        proof {
            assert(node_id(layer as int, npl as int, npl as int) == node_id(layer + 1, 0, npl as int)) by (nonlinear_arith);
        }
        layer = layer + 1;
    }
    proof {
        assert(node_id(layers as int, 0, npl as int) == layers * npl);
    }
    nodes
}

/// `x` is an index within one of `idx` in a layer of `npl` nodes.
pub open spec fn near(idx: int, x: int, npl: int) -> bool {
    0 <= x < npl && idx - 1 <= x <= idx + 1
}

/// The indices next to `idx` (itself included) within a layer of `npl` nodes, left to right.
fn neighbour_indices(idx: i32, npl: i32) -> (r: Vec<i32>)
    requires
        0 <= idx < npl,
    ensures
        forall|x: i32| r@.contains(x) <==> near(idx as int, x as int, npl as int),
        r@.no_duplicates(),
        r@.len() >= 1,
        forall|k: int| 0 <= k < r@.len() ==> near(idx as int, #[trigger] r@[k] as int, npl as int),
{
    let mut r: Vec<i32> = Vec::new();
    if idx - 1 >= 0 {
        r.push(idx - 1);
    }
    r.push(idx);
    if idx + 1 < npl {
        r.push(idx + 1);
    }
    proof {
        assert forall|x: i32| r@.contains(x) <==> near(idx as int, x as int, npl as int) by {
            if near(idx as int, x as int, npl as int) {
                if x == idx - 1 {
                    assert(r@[0] == x);
                } else if x == idx {
                    if idx >= 1 {
                        assert(r@[1] == x);
                    } else {
                        assert(r@[0] == x);
                    }
                } else {
                    assert(r@[r@.len() - 1] == x);
                }
            }
        }
    }
    r
}

/// The paths down from node `idx` of layer `layer`: one, or two one time in five, to
/// neighbouring indices of the next layer, picked in random order.
fn pick_successors(layer: i32, idx: i32, layers: i32, npl: i32) -> (r: Vec<u32>)
    requires
        0 <= layer,
        layer + 1 < layers,
        0 <= idx < npl,
        layers * npl <= i32::MAX,
    ensures
        r@.len() >= 1,
        r@.no_duplicates(),
        forall|k: int|
            0 <= k < r@.len() ==> step_ok(layer as int, idx as int, #[trigger] r@[k] as int, layers as int, npl as int),
{
    let mut candidates = neighbour_indices(idx, npl);
    let ghost initial = candidates@;
    shuffle_in_place(&mut candidates);
    proof {
        initial.lemma_multiset_has_no_duplicates();
        candidates@.lemma_multiset_has_no_duplicates_conv();
        broadcast use vstd::seq_lib::group_to_multiset_ensures;
        assert(candidates@.to_multiset().len() == initial.to_multiset().len());
        assert forall|k: int| 0 <= k < candidates@.len() implies near(idx as int, #[trigger] candidates@[k] as int, npl as int) by {
            assert(candidates@.to_multiset().count(candidates@[k]) > 0);
            assert(initial.contains(candidates@[k]));
        }
    }
    let count: usize = if random_ratio(4, 5) { 1 } else { 2 };
    let take: usize = if count < candidates.len() { count } else { candidates.len() };
    let next_layer: i32 = layer + 1;
    proof {
        assert(next_layer * npl + npl <= layers * npl) by (nonlinear_arith)
            requires
                next_layer < layers,
                0 <= npl,
        ;
        assert(0 <= next_layer * npl) by (nonlinear_arith)
            requires
                0 <= next_layer,
                0 <= npl,
        ;
    }
    let mut r: Vec<u32> = Vec::new();
    let mut k: usize = 0;
    while k < take
        invariant
            take <= candidates@.len(),
            take >= 1,
            k <= take,
            r@.len() == k,
            candidates@.no_duplicates(),
            forall|t: int| 0 <= t < candidates@.len() ==> near(idx as int, #[trigger] candidates@[t] as int, npl as int),
            forall|t: int| 0 <= t < k ==> #[trigger] r@[t] == node_id(next_layer as int, candidates@[t] as int, npl as int),
            next_layer == layer + 1,
            layer + 1 < layers,
            0 <= next_layer * npl,
            next_layer * npl + npl <= layers * npl,
            layers * npl <= i32::MAX,
            0 <= idx < npl,
        decreases take - k,
    {
        let c = candidates[k];
        assert(near(idx as int, c as int, npl as int));
        let id = (next_layer * npl + c) as u32;
        r.push(id);
        k = k + 1;
    }
    proof {
        assert forall|a: int, b: int| 0 <= a < b < r@.len() implies r@[a] != r@[b] by {
            if r@[a] == r@[b] {
                lemma_node_id_injective(next_layer as int, candidates@[a] as int, next_layer as int, candidates@[b] as int, npl as int);
            }
        }
        assert forall|t: int| 0 <= t < r@.len() implies step_ok(layer as int, idx as int, #[trigger] r@[t] as int, layers as int, npl as int) by {
            assert(near(idx as int, candidates@[t] as int, npl as int));
        }
    }
    r
}

/// The two nodes agree on everything but their paths.
pub open spec fn same_but_paths(a: MapNode, b: MapNode) -> bool {
    &&& a.id == b.id
    &&& a.node_type == b.node_type
    &&& a.position == b.position
    &&& a.unlocked == b.unlocked
    &&& a.completed == b.completed
}

/// Replaces the paths of node `k`.
fn set_paths(nodes: &mut Vec<MapNode>, k: usize, next: Vec<u32>)
    requires
        k < old(nodes)@.len(),
    ensures
        final(nodes)@.len() == old(nodes)@.len(),
        same_but_paths(final(nodes)@[k as int], old(nodes)@[k as int]),
        final(nodes)@[k as int].next_nodes@ == next@,
        forall|j: int| 0 <= j < old(nodes)@.len() && j != k ==> final(nodes)@[j] == old(nodes)@[j],
{
    nodes[k].next_nodes = next;
}

/// Adds a path from node `k` to `x`.
fn add_path(nodes: &mut Vec<MapNode>, k: usize, x: u32)
    requires
        k < old(nodes)@.len(),
    ensures
        final(nodes)@.len() == old(nodes)@.len(),
        same_but_paths(final(nodes)@[k as int], old(nodes)@[k as int]),
        final(nodes)@[k as int].next_nodes@ == old(nodes)@[k as int].next_nodes@.push(x),
        forall|j: int| 0 <= j < old(nodes)@.len() && j != k ==> final(nodes)@[j] == old(nodes)@[j],
{
    nodes[k].next_nodes.push(x);
}

/// Every grid node has its fixed fields, and its paths go one layer down to neighbours without
/// repeats.
pub open spec fn paths_ok(nodes: Seq<MapNode>, layers: int, npl: int) -> bool {
    &&& nodes.len() == layers * npl
    &&& forall|l: int, i: int|
        in_grid(l, i, layers, npl) ==> #[trigger] fresh_at(nodes[node_id(l, i, npl)], l, i, layers, npl)
    &&& forall|l: int, i: int, j: int|
        in_grid(l, i, layers, npl) && 0 <= j < nodes[node_id(l, i, npl)].next_nodes@.len() ==> step_ok(
            l,
            i,
            #[trigger] nodes[node_id(l, i, npl)].next_nodes@[j] as int,
            layers,
            npl,
        )
    &&& forall|l: int, i: int|
        in_grid(l, i, layers, npl) ==> #[trigger] nodes[node_id(l, i, npl)].next_nodes@.no_duplicates()
}

/// Every grid node before `(layer, idx)` in reading order, above the last layer, has a path down.
pub open spec fn linked_before(nodes: Seq<MapNode>, layers: int, npl: int, layer: int, idx: int) -> bool {
    forall|l: int, i: int|
        in_grid(l, i, layers, npl) && l + 1 < layers && (l < layer || (l == layer && i < idx))
            ==> #[trigger] nodes[node_id(l, i, npl)].next_nodes@.len() >= 1
}

/// Gives each node above the last layer its paths down (step one of building a map).
fn link_forward(nodes: &mut Vec<MapNode>, layers: u32, npl: u32)
    requires
        layers >= 1,
        layers * npl <= i32::MAX,
        old(nodes)@.len() == layers * npl,
        forall|l: int, i: int|
            in_grid(l, i, layers as int, npl as int) ==> #[trigger] fresh_at(
                old(nodes)@[node_id(l, i, npl as int)],
                l,
                i,
                layers as int,
                npl as int,
            ),
        forall|k: int| 0 <= k < old(nodes)@.len() ==> #[trigger] old(nodes)@[k].next_nodes@.len() == 0,
    ensures
        paths_ok(final(nodes)@, layers as int, npl as int),
        linked_before(final(nodes)@, layers as int, npl as int, layers as int, 0),
{
    proof {
        assert forall|l: int, i: int| in_grid(l, i, layers as int, npl as int) implies
            #[trigger] nodes@[node_id(l, i, npl as int)].next_nodes@.len() == 0 by {
            lemma_node_id_bounds(l, i, layers as int, npl as int);
        }
        assert forall|l: int, i: int| in_grid(l, i, layers as int, npl as int) implies
            #[trigger] nodes@[node_id(l, i, npl as int)].next_nodes@.no_duplicates() by {
            lemma_node_id_bounds(l, i, layers as int, npl as int);
        }
    }
    if npl == 0 {
        return;
    }
    proof {
        assert(layers <= layers * npl) by (nonlinear_arith)
            requires
                npl >= 1,
                layers >= 1,
        ;
        assert(npl <= layers * npl) by (nonlinear_arith)
            requires
                npl >= 1,
                layers >= 1,
        ;
    }
    let last: i32 = (layers - 1) as i32;
    let li: i32 = layers as i32;
    let ni: i32 = npl as i32;
    let mut layer: i32 = 0;
    while layer < last
        invariant
            0 <= layer <= last,
            last == layers - 1,
            li == layers,
            ni == npl,
            layers * npl <= i32::MAX,
            paths_ok(nodes@, layers as int, npl as int),
            linked_before(nodes@, layers as int, npl as int, layer as int, 0),
        decreases last - layer,
    {
        let mut idx: i32 = 0;
        while idx < ni
            invariant
                0 <= layer < last,
                0 <= idx <= ni,
                last == layers - 1,
                li == layers,
                ni == npl,
                layers * npl <= i32::MAX,
                paths_ok(nodes@, layers as int, npl as int),
                linked_before(nodes@, layers as int, npl as int, layer as int, idx as int),
            decreases ni - idx,
        {
            proof {
                lemma_node_id_bounds(layer as int, idx as int, layers as int, npl as int);
                assert(layer * ni + idx <= layers * npl) by (nonlinear_arith)
                    requires
                        layer * ni + idx == node_id(layer as int, idx as int, npl as int),
                        node_id(layer as int, idx as int, npl as int) < layers * npl,
                ;
            }
            let current_id: usize = (layer * ni + idx) as usize;
            let next = pick_successors(layer, idx, li, ni);
            let ghost before = nodes@;
            set_paths(nodes, current_id, next);
            proof {
                let cur = node_id(layer as int, idx as int, npl as int);
                assert forall|l: int, i: int| in_grid(l, i, layers as int, npl as int) implies
                    (node_id(l, i, npl as int) == cur) == (l == layer && i == idx) by {
                    if node_id(l, i, npl as int) == cur {
                        lemma_node_id_injective(l, i, layer as int, idx as int, npl as int);
                    }
                }
                assert forall|l: int, i: int| in_grid(l, i, layers as int, npl as int) implies
                    #[trigger] fresh_at(nodes@[node_id(l, i, npl as int)], l, i, layers as int, npl as int) by {
                    lemma_node_id_bounds(l, i, layers as int, npl as int);
                    assert(fresh_at(before[node_id(l, i, npl as int)], l, i, layers as int, npl as int));
                }
                assert forall|l: int, i: int, j: int|
                    in_grid(l, i, layers as int, npl as int) && 0 <= j < nodes@[node_id(l, i, npl as int)].next_nodes@.len()
                    implies step_ok(l, i, #[trigger] nodes@[node_id(l, i, npl as int)].next_nodes@[j] as int, layers as int, npl as int) by {
                    lemma_node_id_bounds(l, i, layers as int, npl as int);
                    if l == layer && i == idx {
                        assert(nodes@[node_id(l, i, npl as int)].next_nodes@ == next@);
                    } else {
                        assert(nodes@[node_id(l, i, npl as int)] == before[node_id(l, i, npl as int)]);
                        assert(step_ok(l, i, before[node_id(l, i, npl as int)].next_nodes@[j] as int, layers as int, npl as int));
                    }
                }
                assert forall|l: int, i: int| in_grid(l, i, layers as int, npl as int) implies
                    #[trigger] nodes@[node_id(l, i, npl as int)].next_nodes@.no_duplicates() by {
                    lemma_node_id_bounds(l, i, layers as int, npl as int);
                    if !(l == layer && i == idx) {
                        assert(nodes@[node_id(l, i, npl as int)] == before[node_id(l, i, npl as int)]);
                        assert(before[node_id(l, i, npl as int)].next_nodes@.no_duplicates());
                    }
                }
                assert forall|l: int, i: int|
                    in_grid(l, i, layers as int, npl as int) && l + 1 < layers && (l < layer || (l == layer && i < idx + 1))
                    implies #[trigger] nodes@[node_id(l, i, npl as int)].next_nodes@.len() >= 1 by {
                    lemma_node_id_bounds(l, i, layers as int, npl as int);
                    if !(l == layer && i == idx) {
                        assert(nodes@[node_id(l, i, npl as int)] == before[node_id(l, i, npl as int)]);
                    }
                }
            }
            idx = idx + 1;
        }
        proof {
            assert forall|l: int, i: int|
                in_grid(l, i, layers as int, npl as int) && l + 1 < layers && (l < layer + 1 || (l == layer + 1 && i < 0))
                implies #[trigger] nodes@[node_id(l, i, npl as int)].next_nodes@.len() >= 1 by {
            }
        }
        layer = layer + 1;
    }
}

/// Whether some node leads to `x`.
fn has_predecessor(nodes: &Vec<MapNode>, x: u32) -> (r: bool)
    ensures
        r == has_pred(nodes@, x as int),
{
    let mut p: usize = 0;
    while p < nodes.len()
        invariant
            p <= nodes@.len(),
            forall|q: int, j: int|
                0 <= q < p && 0 <= j < nodes@[q].next_nodes@.len() ==> #[trigger] nodes@[q].next_nodes@[j] != x,
        decreases nodes@.len() - p,
    {
        let mut j: usize = 0;
        while j < nodes[p].next_nodes.len()
            invariant
                p < nodes@.len(),
                j <= nodes@[p as int].next_nodes@.len(),
                forall|q: int, t: int|
                    0 <= q < p && 0 <= t < nodes@[q].next_nodes@.len() ==> #[trigger] nodes@[q].next_nodes@[t] != x,
                forall|t: int| 0 <= t < j ==> #[trigger] nodes@[p as int].next_nodes@[t] != x,
            decreases nodes@[p as int].next_nodes@.len() - j,
        {
            if nodes[p].next_nodes[j] == x {
                assert(nodes@[p as int].next_nodes@[j as int] == x);
                return true;
            }
            j = j + 1;
        }
        p = p + 1;
    }
    false
}

/// Adding a path keeps every node that had a way in, and gives the target one.
proof fn lemma_add_path_preds(before: Seq<MapNode>, after: Seq<MapNode>, k: int, x: u32)
    requires
        0 <= k < before.len(),
        after.len() == before.len(),
        after[k].next_nodes@ == before[k].next_nodes@.push(x),
        forall|j: int| 0 <= j < before.len() && j != k ==> after[j] == before[j],
    ensures
        forall|y: int| has_pred(before, y) ==> #[trigger] has_pred(after, y),
        has_pred(after, x as int),
{
    assert forall|y: int| has_pred(before, y) implies #[trigger] has_pred(after, y) by {
        let (p, j) = choose|p: int, j: int|
            0 <= p < before.len() && 0 <= j < before[p].next_nodes@.len() && #[trigger] before[p].next_nodes@[j] == y;
        if p == k {
            assert(after[p].next_nodes@[j] == y);
        } else {
            assert(after[p] == before[p]);
            assert(after[p].next_nodes@[j] == y);
        }
    }
    let n = before[k].next_nodes@.len() as int;
    assert(after[k].next_nodes@[n] == x);
}

/// Every grid node from the second layer on, before `(layer, idx)` in reading order, has a way in.
pub open spec fn reached_before(nodes: Seq<MapNode>, layers: int, npl: int, layer: int, idx: int) -> bool {
    forall|l: int, i: int|
        in_grid(l, i, layers, npl) && l >= 1 && (l < layer || (l == layer && i < idx))
            ==> #[trigger] has_pred(nodes, node_id(l, i, npl))
}

/// Gives each node below the first layer that no path reaches a path from a random neighbour
/// above (step two of building a map).
fn link_backward(nodes: &mut Vec<MapNode>, layers: u32, npl: u32)
    requires
        layers >= 1,
        layers * npl <= i32::MAX,
        paths_ok(old(nodes)@, layers as int, npl as int),
        linked_before(old(nodes)@, layers as int, npl as int, layers as int, 0),
    ensures
        map_wf(final(nodes)@, layers as int, npl as int),
{
    if npl == 0 {
        return;
    }
    proof {
        assert(layers <= layers * npl) by (nonlinear_arith)
            requires
                npl >= 1,
                layers >= 1,
        ;
        assert(npl <= layers * npl) by (nonlinear_arith)
            requires
                npl >= 1,
                layers >= 1,
        ;
    }
    let li: i32 = layers as i32;
    let ni: i32 = npl as i32;
    let mut layer: i32 = 1;
    while layer < li
        invariant
            1 <= layer <= li,
            li == layers,
            ni == npl,
            npl >= 1,
            layers * npl <= i32::MAX,
            paths_ok(nodes@, layers as int, npl as int),
            linked_before(nodes@, layers as int, npl as int, layers as int, 0),
            reached_before(nodes@, layers as int, npl as int, layer as int, 0),
        decreases li - layer,
    {
        let mut idx: i32 = 0;
        while idx < ni
            invariant
                1 <= layer < li,
                0 <= idx <= ni,
                li == layers,
                ni == npl,
                layers * npl <= i32::MAX,
                paths_ok(nodes@, layers as int, npl as int),
                linked_before(nodes@, layers as int, npl as int, layers as int, 0),
                reached_before(nodes@, layers as int, npl as int, layer as int, idx as int),
            decreases ni - idx,
        {
            proof {
                lemma_node_id_bounds(layer as int, idx as int, layers as int, npl as int);
                assert(layer * ni + idx <= layers * npl) by (nonlinear_arith)
                    requires
                        layer * ni + idx == node_id(layer as int, idx as int, npl as int),
                        node_id(layer as int, idx as int, npl as int) < layers * npl,
                ;
            }
            let current_id: u32 = (layer * ni + idx) as u32;
            if !has_predecessor(nodes, current_id) {
                let candidates = neighbour_indices(idx, ni);
                let pick = choose_one(&candidates);
                match pick {
                    Some(i0) => {
                        assert(near(idx as int, i0 as int, npl as int));
                        proof {
                            lemma_node_id_bounds(layer - 1, i0 as int, layers as int, npl as int);
                            assert((layer - 1) * ni + i0 <= layers * npl) by (nonlinear_arith)
                                requires
                                    (layer - 1) * ni + i0 == node_id(layer - 1, i0 as int, npl as int),
                                    node_id(layer - 1, i0 as int, npl as int) < layers * npl,
                            ;
                        }
                        let prev_id: usize = ((layer - 1) * ni + i0) as usize;
                        let ghost before = nodes@;
                        add_path(nodes, prev_id, current_id);
                        proof {
                            lemma_backward_step(before, nodes@, layers as int, npl as int, layer as int, idx as int, i0 as int);
                        }
                    },
                    None => {},
                }
            }
            idx = idx + 1;
        }
        layer = layer + 1;
    }
    proof {
        assert forall|l: int, i: int|
            in_grid(l, i, layers as int, npl as int) && l + 1 < layers
            implies #[trigger] nodes@[node_id(l, i, npl as int)].next_nodes@.len() >= 1 by {
        }
        assert forall|l: int, i: int|
            in_grid(l, i, layers as int, npl as int) && l >= 1
            implies #[trigger] has_pred(nodes@, node_id(l, i, npl as int)) by {
        }
    }
}

/// One step of `link_backward`: a path from `(layer - 1, i0)` to `(layer, idx)`, which had no
/// way in, keeps the map's paths in order and gives `(layer, idx)` a way in.
proof fn lemma_backward_step(
    before: Seq<MapNode>,
    after: Seq<MapNode>,
    layers: int,
    npl: int,
    layer: int,
    idx: int,
    i0: int,
)
    requires
        1 <= layer < layers,
        0 <= idx < npl,
        near(idx, i0, npl),
        paths_ok(before, layers, npl),
        linked_before(before, layers, npl, layers, 0),
        reached_before(before, layers, npl, layer, idx),
        !has_pred(before, node_id(layer, idx, npl)),
        0 <= node_id(layer - 1, i0, npl) < before.len(),
        0 <= node_id(layer, idx, npl) <= u32::MAX,
        after.len() == before.len(),
        same_but_paths(after[node_id(layer - 1, i0, npl)], before[node_id(layer - 1, i0, npl)]),
        after[node_id(layer - 1, i0, npl)].next_nodes@ == before[node_id(layer - 1, i0, npl)].next_nodes@.push(
            node_id(layer, idx, npl) as u32,
        ),
        forall|j: int| 0 <= j < before.len() && j != node_id(layer - 1, i0, npl) ==> after[j] == before[j],
    ensures
        paths_ok(after, layers, npl),
        linked_before(after, layers, npl, layers, 0),
        reached_before(after, layers, npl, layer, idx + 1),
{
    let k = node_id(layer - 1, i0, npl);
    let x = node_id(layer, idx, npl);
    lemma_add_path_preds(before, after, k, x as u32);
    assert forall|l: int, i: int| in_grid(l, i, layers, npl) implies
        #[trigger] fresh_at(after[node_id(l, i, npl)], l, i, layers, npl) by {
        lemma_node_id_bounds(l, i, layers, npl);
        assert(fresh_at(before[node_id(l, i, npl)], l, i, layers, npl));
    }
    assert forall|l: int, i: int, j: int|
        in_grid(l, i, layers, npl) && 0 <= j < after[node_id(l, i, npl)].next_nodes@.len()
        implies step_ok(l, i, #[trigger] after[node_id(l, i, npl)].next_nodes@[j] as int, layers, npl) by {
        lemma_node_id_bounds(l, i, layers, npl);
        if node_id(l, i, npl) == k {
            lemma_node_id_injective(l, i, layer - 1, i0, npl);
            let n = before[k].next_nodes@.len();
            if j < n {
                assert(after[k].next_nodes@[j] == before[k].next_nodes@[j]);
                assert(step_ok(l, i, before[node_id(l, i, npl)].next_nodes@[j] as int, layers, npl));
            } else {
                assert(after[k].next_nodes@[j] == x as u32);
            }
        } else {
            assert(after[node_id(l, i, npl)] == before[node_id(l, i, npl)]);
            assert(step_ok(l, i, before[node_id(l, i, npl)].next_nodes@[j] as int, layers, npl));
        }
    }
    assert forall|l: int, i: int| in_grid(l, i, layers, npl) implies
        #[trigger] after[node_id(l, i, npl)].next_nodes@.no_duplicates() by {
        lemma_node_id_bounds(l, i, layers, npl);
        if node_id(l, i, npl) == k {
            let old_paths = before[k].next_nodes@;
            assert(old_paths.no_duplicates());
            assert forall|a: int, b: int| 0 <= a < b < old_paths.len() + 1 implies
                after[k].next_nodes@[a] != after[k].next_nodes@[b] by {
                if b == old_paths.len() {
                    assert(before[k].next_nodes@[a] == after[k].next_nodes@[a]);
                    if after[k].next_nodes@[a] == x as u32 {
                        assert(has_pred(before, x));
                    }
                }
            }
        } else {
            assert(after[node_id(l, i, npl)] == before[node_id(l, i, npl)]);
            assert(before[node_id(l, i, npl)].next_nodes@.no_duplicates());
        }
    }
    assert forall|l: int, i: int|
        in_grid(l, i, layers, npl) && l + 1 < layers && (l < layers || (l == layers && i < 0))
        implies #[trigger] after[node_id(l, i, npl)].next_nodes@.len() >= 1 by {
        lemma_node_id_bounds(l, i, layers, npl);
        assert(before[node_id(l, i, npl)].next_nodes@.len() >= 1);
        if node_id(l, i, npl) != k {
            assert(after[node_id(l, i, npl)] == before[node_id(l, i, npl)]);
        }
    }
    assert forall|l: int, i: int|
        in_grid(l, i, layers, npl) && l >= 1 && (l < layer || (l == layer && i < idx + 1))
        implies #[trigger] has_pred(after, node_id(l, i, npl)) by {
        if !(l == layer && i == idx) {
            assert(has_pred(before, node_id(l, i, npl)));
        }
    }
}

/// Builds a fresh map of `config.layers` layers of `config.nodes_per_layer` nodes: kinds are
/// drawn per node (see `node_type_for`), each node above the last layer gets one or two
/// paths down to neighbouring indices, and every node below the first layer that no path
/// reaches gets one from a random neighbour above.
pub fn generate_map_nodes(config: &MapConfig, _current_layer: u32) -> (nodes: Vec<MapNode>)
    requires
        config.layers >= 1,
        config.layers * config.nodes_per_layer <= i32::MAX,
    ensures
        map_wf(nodes@, config.layers as int, config.nodes_per_layer as int),
{
    let mut nodes = build_layers(config.layers, config.nodes_per_layer);
    link_forward(&mut nodes, config.layers, config.nodes_per_layer);
    link_backward(&mut nodes, config.layers, config.nodes_per_layer);
    nodes
}

/// In a generated map the node at position `k` is the node `(k / npl, k % npl)` of the grid:
/// the identifiers are the positions, and every node is covered by the grid's rules.
pub proof fn law_map_grid_covers(nodes: Seq<MapNode>, layers: int, npl: int, k: int)
    requires
        map_wf(nodes, layers, npl),
        layers >= 1,
        0 <= k < nodes.len(),
    ensures
        npl > 0,
        in_grid(k / npl, k % npl, layers, npl),
        node_id(k / npl, k % npl, npl) == k,
        fresh_at(nodes[k], k / npl, k % npl, layers, npl),
        nodes[k].id == k,
{
    if npl <= 0 {
        assert(layers * npl <= 0) by (nonlinear_arith)
            requires
                npl <= 0,
                layers >= 0,
        ;
    }
    vstd::arithmetic::div_mod::lemma_fundamental_div_mod(k, npl);
    vstd::arithmetic::div_mod::lemma_mod_bound(k, npl);
    let l = k / npl;
    let i = k % npl;
    assert(l * npl == npl * l) by (nonlinear_arith);
    assert(0 <= l < layers) by (nonlinear_arith)
        requires
            k == l * npl + i,
            0 <= i < npl,
            0 <= k < layers * npl,
    ;
    assert(fresh_at(nodes[node_id(l, i, npl)], l, i, layers, npl));
}

/// In a generated map every path into a node comes from the layer just above it, from the
/// same or a neighbouring index.
pub proof fn law_paths_come_from_above(nodes: Seq<MapNode>, layers: int, npl: int, p: int, j: int)
    requires
        map_wf(nodes, layers, npl),
        1 <= layers,
        layers * npl <= i32::MAX,
        0 <= p < nodes.len(),
        0 <= j < nodes[p].next_nodes@.len(),
    ensures
        ({
            let s = nodes[p].next_nodes@[j] as int;
            &&& 0 <= s < nodes.len()
            &&& nodes[s].position.0 == nodes[p].position.0 + 1
            &&& nodes[p].position.1 - 1 <= nodes[s].position.1 <= nodes[p].position.1 + 1
        }),
{
    law_map_grid_covers(nodes, layers, npl, p);
    let l = p / npl;
    let i = p % npl;
    assert(layers <= layers * npl && npl <= layers * npl) by (nonlinear_arith)
        requires
            npl >= 1,
            layers >= 1,
    ;
    let s = nodes[p].next_nodes@[j] as int;
    assert(step_ok(l, i, nodes[node_id(l, i, npl)].next_nodes@[j] as int, layers, npl));
    if i >= 1 && s == node_id(l + 1, i - 1, npl) {
        lemma_node_id_bounds(l + 1, i - 1, layers, npl);
        assert(fresh_at(nodes[node_id(l + 1, i - 1, npl)], l + 1, i - 1, layers, npl));
    } else if s == node_id(l + 1, i, npl) {
        lemma_node_id_bounds(l + 1, i, layers, npl);
        assert(fresh_at(nodes[node_id(l + 1, i, npl)], l + 1, i, layers, npl));
    } else {
        lemma_node_id_bounds(l + 1, i + 1, layers, npl);
        assert(fresh_at(nodes[node_id(l + 1, i + 1, npl)], l + 1, i + 1, layers, npl));
    }
}

// ============================================================================
// Progress through a map
// ============================================================================

/// `k` is the first position holding a node with identifier `id`.
pub open spec fn first_with_id(nodes: Seq<MapNode>, id: u32, k: int) -> bool {
    &&& 0 <= k < nodes.len()
    &&& nodes[k].id == id
    &&& forall|j: int| 0 <= j < k ==> #[trigger] nodes[j].id != id
}

/// Some node has identifier `id`.
pub open spec fn has_id(nodes: Seq<MapNode>, id: u32) -> bool {
    exists|k: int| 0 <= k < nodes.len() && #[trigger] nodes[k].id == id
}

/// Some completed node leads to `id`.
pub open spec fn targeted(nodes: Seq<MapNode>, id: u32) -> bool {
    exists|c: int, j: int|
        0 <= c < nodes.len() && nodes[c].completed && 0 <= j < nodes[c].next_nodes@.len()
            && #[trigger] nodes[c].next_nodes@[j] == id
}

/// Whether the node at `k` is unlocked after a refresh: it is on the first layer, or a
/// completed node leads to its identifier and it is the first node with that identifier.
pub open spec fn unlocked_after(nodes: Seq<MapNode>, k: int) -> bool {
    nodes[k].position.0 == 0 || (targeted(nodes, nodes[k].id) && first_with_id(nodes, nodes[k].id, k))
}

/// The highest layer of a completed node, or -1 when no completed node lies on layer 0 or below.
pub open spec fn max_completed_layer(nodes: Seq<MapNode>) -> int
    decreases nodes.len(),
{
    if nodes.len() == 0 {
        -1
    } else {
        let m = max_completed_layer(nodes.drop_last());
        if nodes.last().completed && nodes.last().position.0 > m {
            nodes.last().position.0 as int
        } else {
            m
        }
    }
}

/// The current layer after a refresh: that of the highest completed node, if there is one on a
/// layer of at least zero; otherwise unchanged.
pub open spec fn layer_after(nodes: Seq<MapNode>, current_layer: u32) -> u32 {
    if max_completed_layer(nodes) >= 0 {
        max_completed_layer(nodes) as u32
    } else {
        current_layer
    }
}

/// The nodes after a refresh: only the unlocked flags change.
pub open spec fn refreshed(before: Seq<MapNode>, after: Seq<MapNode>) -> bool {
    &&& after.len() == before.len()
    &&& forall|k: int|
        0 <= k < before.len() ==> #[trigger] after[k] == (MapNode {
            unlocked: unlocked_after(before, k),
            ..before[k]
        })
}

/// The position of the first node with identifier `id`, if any.
pub fn find_node(nodes: &Vec<MapNode>, id: u32) -> (r: Option<usize>)
    ensures
        r matches Some(k) ==> first_with_id(nodes@, id, k as int),
        r is None <==> !has_id(nodes@, id),
{
    let mut i: usize = 0;
    while i < nodes.len()
        invariant
            i <= nodes@.len(),
            forall|j: int| 0 <= j < i ==> #[trigger] nodes@[j].id != id,
        decreases nodes@.len() - i,
    {
        if nodes[i].id == id {
            return Some(i);
        }
        i = i + 1;
    }
    None
}

fn set_unlocked(nodes: &mut Vec<MapNode>, k: usize, v: bool)
    requires
        k < old(nodes)@.len(),
    ensures
        final(nodes)@ == old(nodes)@.update(k as int, MapNode { unlocked: v, ..old(nodes)@[k as int] }),
{
    nodes[k].unlocked = v;
}

fn set_completed(nodes: &mut Vec<MapNode>, k: usize)
    requires
        k < old(nodes)@.len(),
    ensures
        final(nodes)@ == old(nodes)@.update(k as int, MapNode { completed: true, ..old(nodes)@[k as int] }),
{
    nodes[k].completed = true;
}

/// The player's progress through the map.
#[derive(Debug)]
pub struct MapProgress {
    /// All the nodes.
    pub nodes: Vec<MapNode>,
    /// The node the player is at.
    pub current_node_id: Option<u32>,
    /// The layer the player has reached.
    pub current_layer: u32,
    /// Whether the game is won.
    pub game_completed: bool,
}

/// `after` is `before` with its current node (if it names one) marked completed, the current
/// layer moved to that node's, and the unlocks then refreshed.
pub open spec fn completed_current(before: MapProgress, after: MapProgress) -> bool {
    let marked = match before.current_node_id {
        Some(id) => if has_id(before.nodes@, id) {
            before.nodes@.update(
                first_index(before.nodes@, id),
                MapNode { completed: true, ..before.nodes@[first_index(before.nodes@, id)] },
            )
        } else {
            before.nodes@
        },
        None => before.nodes@,
    };
    let layer = match before.current_node_id {
        Some(id) => if has_id(before.nodes@, id) {
            before.nodes@[first_index(before.nodes@, id)].position.0 as u32
        } else {
            before.current_layer
        },
        None => before.current_layer,
    };
    &&& refreshed(marked, after.nodes@)
    &&& after.current_layer == layer_after(marked, layer)
    &&& after.current_node_id == before.current_node_id
    &&& after.game_completed == before.game_completed
}

impl MapProgress {
    /// A new map for the configuration, with only its first layer unlocked.
    pub fn new(config: &MapConfig) -> (r: Self)
        requires
            config.layers >= 1,
            config.layers * config.nodes_per_layer <= i32::MAX,
        ensures
            map_wf(r.nodes@, config.layers as int, config.nodes_per_layer as int),
            r.current_node_id is None,
            r.current_layer == 0,
            !r.game_completed,
    {
        let nodes = generate_map_nodes(config, 0);
        let mut progress = MapProgress {
            nodes,
            current_node_id: None,
            current_layer: 0,
            game_completed: false,
        };
        let ghost before = progress.nodes@;
        progress.refresh_unlocks();
        proof {
            lemma_fresh_map_refresh(before, progress.nodes@, config.layers as int, config.nodes_per_layer as int);
        }
        progress
    }

    /// Restores saved progress and refreshes which nodes are unlocked.
    pub fn from_save(nodes: Vec<MapNode>, current_node_id: Option<u32>, current_layer: u32) -> (r: Self)
        ensures
            refreshed(nodes@, r.nodes@),
            r.current_node_id == current_node_id,
            r.current_layer == layer_after(nodes@, current_layer),
            !r.game_completed,
    {
        let mut progress = MapProgress { nodes, current_node_id, current_layer, game_completed: false };
        progress.refresh_unlocks();
        progress
    }

    /// The node the player is at, if its identifier names one.
    pub fn get_current_node(&self) -> (r: Option<&MapNode>)
        ensures
            match self.current_node_id {
                None => r is None,
                Some(id) => {
                    &&& r is None <==> !has_id(self.nodes@, id)
                    &&& r matches Some(n) ==> exists|k: int| first_with_id(self.nodes@, id, k) && *n == self.nodes@[k]
                },
            },
    {
        match self.current_node_id {
            None => None,
            Some(id) => match find_node(&self.nodes, id) {
                Some(k) => Some(&self.nodes[k]),
                None => None,
            },
        }
    }

    /// Moves the player to a node, if it exists and is unlocked; otherwise nothing changes.
    pub fn set_current_node(&mut self, node_id: u32)
        ensures
            final(self).nodes@ == old(self).nodes@,
            final(self).game_completed == old(self).game_completed,
            (exists|k: int| first_with_id(old(self).nodes@, node_id, k) && old(self).nodes@[k].unlocked) ==> {
                &&& final(self).current_node_id == Some(node_id)
                &&& exists|k: int|
                    first_with_id(old(self).nodes@, node_id, k) && final(self).current_layer
                        == old(self).nodes@[k].position.0 as u32
            },
            !(exists|k: int| first_with_id(old(self).nodes@, node_id, k) && old(self).nodes@[k].unlocked) ==> {
                &&& final(self).current_node_id == old(self).current_node_id
                &&& final(self).current_layer == old(self).current_layer
            },
    {
        match find_node(&self.nodes, node_id) {
            Some(k) => {
                if self.nodes[k].unlocked {
                    self.current_node_id = Some(node_id);
                    self.current_layer = self.nodes[k].position.0 as u32;
                } else {
                    proof {
                        assert forall|q: int| first_with_id(self.nodes@, node_id, q) implies !self.nodes@[q].unlocked by {
                            lemma_first_unique(self.nodes@, node_id, q, k as int);
                        }
                    }
                }
            },
            None => {},
        }
    }

    /// Marks the current node completed and refreshes which nodes are unlocked.
    pub fn complete_current_node(&mut self)
        ensures
            completed_current(*old(self), *final(self)),
    {
        if let Some(node_id) = self.current_node_id {
            match find_node(&self.nodes, node_id) {
                Some(k) => {
                    proof {
                        lemma_first_index(self.nodes@, node_id, k as int);
                    }
                    set_completed(&mut self.nodes, k);
                    self.current_layer = self.nodes[k].position.0 as u32;
                },
                None => {},
            }
        }
        self.refresh_unlocks();
    }

    /// Recomputes which nodes are unlocked: those of the first layer, and those a completed
    /// node leads to; the current layer becomes that of the highest completed node.
    pub fn refresh_unlocks(&mut self)
        ensures
            refreshed(old(self).nodes@, final(self).nodes@),
            final(self).current_layer == layer_after(old(self).nodes@, old(self).current_layer),
            final(self).current_node_id == old(self).current_node_id,
            final(self).game_completed == old(self).game_completed,
    {
        let ghost initial = self.nodes@;
        // Every node locked but those of the first layer.
        let mut i: usize = 0;
        while i < self.nodes.len()
            invariant
                i <= self.nodes@.len(),
                self.nodes@.len() == initial.len(),
                self.current_layer == old(self).current_layer,
                self.current_node_id == old(self).current_node_id,
                self.game_completed == old(self).game_completed,
                forall|k: int|
                    0 <= k < initial.len() ==> #[trigger] self.nodes@[k] == (MapNode {
                        unlocked: if k < i { initial[k].position.0 == 0 } else { initial[k].unlocked },
                        ..initial[k]
                    }),
            decreases self.nodes@.len() - i,
        {
            let v = self.nodes[i].position.0 == 0;
            set_unlocked(&mut self.nodes, i, v);
            i = i + 1;
        }
        // The identifiers completed nodes lead to.
        let mut to_unlock: Vec<u32> = Vec::new();
        let mut c: usize = 0;
        while c < self.nodes.len()
            invariant
                c <= self.nodes@.len(),
                self.nodes@.len() == initial.len(),
                self.current_layer == old(self).current_layer,
                self.current_node_id == old(self).current_node_id,
                self.game_completed == old(self).game_completed,
                forall|k: int|
                    0 <= k < initial.len() ==> #[trigger] self.nodes@[k] == (MapNode {
                        unlocked: initial[k].position.0 == 0,
                        ..initial[k]
                    }),
                forall|x: u32|
                    to_unlock@.contains(x) <==> exists|q: int, j: int|
                        0 <= q < c && initial[q].completed && 0 <= j < initial[q].next_nodes@.len()
                            && #[trigger] initial[q].next_nodes@[j] == x,
            decreases self.nodes@.len() - c,
        {
            if self.nodes[c].completed {
                let mut j: usize = 0;
                while j < self.nodes[c].next_nodes.len()
                    invariant
                        c < self.nodes@.len(),
                        self.nodes@.len() == initial.len(),
                        self.current_layer == old(self).current_layer,
                        self.current_node_id == old(self).current_node_id,
                        self.game_completed == old(self).game_completed,
                self.current_layer == old(self).current_layer,
                self.current_node_id == old(self).current_node_id,
                self.game_completed == old(self).game_completed,
                        initial[c as int].completed,
                        self.nodes@[c as int].next_nodes@ == initial[c as int].next_nodes@,
                        j <= initial[c as int].next_nodes@.len(),
                        forall|x: u32|
                            to_unlock@.contains(x) <==> (exists|q: int, t: int|
                                0 <= q < c && initial[q].completed && 0 <= t < initial[q].next_nodes@.len()
                                    && #[trigger] initial[q].next_nodes@[t] == x)
                                || (exists|t: int| 0 <= t < j && #[trigger] initial[c as int].next_nodes@[t] == x),
                    decreases initial[c as int].next_nodes@.len() - j,
                {
                    let x = self.nodes[c].next_nodes[j];
                    let ghost prev = to_unlock@;
                    to_unlock.push(x);
                    proof {
                        assert forall|y: u32| to_unlock@.contains(y) <==> (exists|q: int, t: int|
                            0 <= q < c && initial[q].completed && 0 <= t < initial[q].next_nodes@.len()
                                && #[trigger] initial[q].next_nodes@[t] == y)
                            || (exists|t: int| 0 <= t < j + 1 && #[trigger] initial[c as int].next_nodes@[t] == y) by {
                            if to_unlock@.contains(y) {
                                let w = choose|w: int| 0 <= w < to_unlock@.len() && to_unlock@[w] == y;
                                if w < prev.len() {
                                    assert(prev.contains(y));
                                } else {
                                    assert(initial[c as int].next_nodes@[j as int] == y);
                                }
                            }
                            if exists|t: int| 0 <= t < j + 1 && #[trigger] initial[c as int].next_nodes@[t] == y {
                                let t = choose|t: int| 0 <= t < j + 1 && #[trigger] initial[c as int].next_nodes@[t] == y;
                                if t == j {
                                    assert(to_unlock@[prev.len() as int] == y);
                                } else {
                                    assert(prev.contains(y));
                                    let w = choose|w: int| 0 <= w < prev.len() && prev[w] == y;
                                    assert(to_unlock@[w] == y);
                                }
                            }
                            if (exists|q: int, t: int|
                                0 <= q < c && initial[q].completed && 0 <= t < initial[q].next_nodes@.len()
                                    && #[trigger] initial[q].next_nodes@[t] == y) {
                                assert(prev.contains(y));
                                let w = choose|w: int| 0 <= w < prev.len() && prev[w] == y;
                                assert(to_unlock@[w] == y);
                            }
                        }
                    }
                    j = j + 1;
                }
                proof {
                    assert forall|x: u32| to_unlock@.contains(x) <==> exists|q: int, t: int|
                        0 <= q < c + 1 && initial[q].completed && 0 <= t < initial[q].next_nodes@.len()
                            && #[trigger] initial[q].next_nodes@[t] == x by {
                        if exists|q: int, t: int|
                            0 <= q < c + 1 && initial[q].completed && 0 <= t < initial[q].next_nodes@.len()
                                && #[trigger] initial[q].next_nodes@[t] == x {
                            let (q, t) = choose|q: int, t: int|
                                0 <= q < c + 1 && initial[q].completed && 0 <= t < initial[q].next_nodes@.len()
                                    && #[trigger] initial[q].next_nodes@[t] == x;
                            if q == c {
                                assert(initial[c as int].next_nodes@[t] == x);
                            }
                        }
                    }
                }
            } else {
                proof {
                    assert forall|x: u32| to_unlock@.contains(x) <==> exists|q: int, t: int|
                        0 <= q < c + 1 && initial[q].completed && 0 <= t < initial[q].next_nodes@.len()
                            && #[trigger] initial[q].next_nodes@[t] == x by {
                        if exists|q: int, t: int|
                            0 <= q < c + 1 && initial[q].completed && 0 <= t < initial[q].next_nodes@.len()
                                && #[trigger] initial[q].next_nodes@[t] == x {
                            let (q, t) = choose|q: int, t: int|
                                0 <= q < c + 1 && initial[q].completed && 0 <= t < initial[q].next_nodes@.len()
                                    && #[trigger] initial[q].next_nodes@[t] == x;
                            assert(q != c);
                        }
                    }
                }
            }
            c = c + 1;
        }
        // Unlock the first node with each of those identifiers.
        let mut u: usize = 0;
        while u < to_unlock.len()
            invariant
                u <= to_unlock@.len(),
                self.nodes@.len() == initial.len(),
                self.current_layer == old(self).current_layer,
                self.current_node_id == old(self).current_node_id,
                self.game_completed == old(self).game_completed,
                forall|x: u32| to_unlock@.contains(x) <==> #[trigger] targeted(initial, x),
                forall|k: int|
                    0 <= k < initial.len() ==> #[trigger] self.nodes@[k] == (MapNode {
                        unlocked: initial[k].position.0 == 0 || ((exists|t: int|
                            0 <= t < u && #[trigger] to_unlock@[t] == initial[k].id) && first_with_id(
                            initial,
                            initial[k].id,
                            k,
                        )),
                        ..initial[k]
                    }),
            decreases to_unlock@.len() - u,
        {
            let id = to_unlock[u];
            proof {
                assert forall|k: int| 0 <= k < initial.len() implies #[trigger] initial[k].id == self.nodes@[k].id by {
                    assert(self.nodes@[k].id == initial[k].id);
                }
                assert(self.nodes@.len() == initial.len());
            }
            match find_node(&self.nodes, id) {
                Some(k) => {
                    proof {
                        assert(first_with_id(initial, id, k as int)) by {
                            assert(self.nodes@[k as int].id == initial[k as int].id);
                            assert forall|j: int| 0 <= j < k implies #[trigger] initial[j].id != id by {
                                assert(self.nodes@[j].id == initial[j].id);
                            }
                        }
                    }
                    let ghost before = self.nodes@;
                    set_unlocked(&mut self.nodes, k, true);
                    proof {
                        assert forall|q: int| 0 <= q < initial.len() implies #[trigger] self.nodes@[q] == (MapNode {
                            unlocked: initial[q].position.0 == 0 || ((exists|t: int|
                                0 <= t < u + 1 && #[trigger] to_unlock@[t] == initial[q].id) && first_with_id(
                                initial,
                                initial[q].id,
                                q,
                            )),
                            ..initial[q]
                        }) by {
                            if q == k {
                                assert(to_unlock@[u as int] == initial[q].id);
                            } else {
                                assert(self.nodes@[q] == before[q]);
                                if first_with_id(initial, initial[q].id, q) && initial[q].id == id {
                                    lemma_first_unique(initial, id, q, k as int);
                                }
                                if exists|t: int| 0 <= t < u + 1 && #[trigger] to_unlock@[t] == initial[q].id {
                                    let t = choose|t: int| 0 <= t < u + 1 && #[trigger] to_unlock@[t] == initial[q].id;
                                    if t == u {
                                        if first_with_id(initial, initial[q].id, q) {
                                            lemma_first_unique(initial, id, q, k as int);
                                        }
                                    }
                                }
                            }
                        }
                    }
                },
                None => {
                    proof {
                        assert forall|q: int| 0 <= q < initial.len() implies #[trigger] self.nodes@[q] == (MapNode {
                            unlocked: initial[q].position.0 == 0 || ((exists|t: int|
                                0 <= t < u + 1 && #[trigger] to_unlock@[t] == initial[q].id) && first_with_id(
                                initial,
                                initial[q].id,
                                q,
                            )),
                            ..initial[q]
                        }) by {
                            if exists|t: int| 0 <= t < u + 1 && #[trigger] to_unlock@[t] == initial[q].id {
                                let t = choose|t: int| 0 <= t < u + 1 && #[trigger] to_unlock@[t] == initial[q].id;
                                if t == u {
                                    assert(self.nodes@[q].id == id);
                                }
                            }
                        }
                    }
                },
            }
            u = u + 1;
        }
        proof {
            assert forall|k: int| 0 <= k < initial.len() implies #[trigger] self.nodes@[k] == (MapNode {
                unlocked: unlocked_after(initial, k),
                ..initial[k]
            }) by {
                if targeted(initial, initial[k].id) {
                    assert(to_unlock@.contains(initial[k].id));
                    let t = choose|t: int| 0 <= t < to_unlock@.len() && to_unlock@[t] == initial[k].id;
                    assert(to_unlock@[t] == initial[k].id);
                }
            }
        }
        // The highest completed layer.
        let mut max_layer: i32 = -1;
        let mut m: usize = 0;
        while m < self.nodes.len()
            invariant
                m <= self.nodes@.len(),
                self.nodes@.len() == initial.len(),
                self.current_layer == old(self).current_layer,
                self.current_node_id == old(self).current_node_id,
                self.game_completed == old(self).game_completed,
                forall|k: int| 0 <= k < initial.len() ==> #[trigger] self.nodes@[k] == (MapNode {
                    unlocked: unlocked_after(initial, k),
                    ..initial[k]
                }),
                max_layer == max_completed_layer(initial.take(m as int)),
            decreases self.nodes@.len() - m,
        {
            proof {
                assert(initial.take(m + 1).drop_last() =~= initial.take(m as int));
                assert(self.nodes@[m as int].completed == initial[m as int].completed);
            }
            if self.nodes[m].completed && self.nodes[m].position.0 > max_layer {
                max_layer = self.nodes[m].position.0;
            }
            m = m + 1;
        }
        proof {
            assert(initial.take(initial.len() as int) =~= initial);
            lemma_max_completed_layer_bounds(initial);
        }
        if max_layer >= 0 {
            self.current_layer = max_layer as u32;
        }
    }

    /// Whether the player is at the boss.
    pub fn is_at_boss(&self) -> (r: bool)
        ensures
            r == match self.current_node_id {
                Some(id) => has_id(self.nodes@, id) && self.nodes@[first_index(self.nodes@, id)].node_type
                    == NodeType::Boss,
                None => false,
            },
    {
        match self.current_node_id {
            None => false,
            Some(id) => match find_node(&self.nodes, id) {
                Some(k) => {
                    proof {
                        lemma_first_index(self.nodes@, id, k as int);
                    }
                    self.nodes[k].node_type == NodeType::Boss
                },
                None => false,
            },
        }
    }

    /// Whether a boss node has been completed.
    pub fn is_boss_defeated(&self) -> (r: bool)
        ensures
            r == exists|k: int|
                0 <= k < self.nodes@.len() && #[trigger] self.nodes@[k].node_type == NodeType::Boss
                    && self.nodes@[k].completed,
    {
        let mut i: usize = 0;
        while i < self.nodes.len()
            invariant
                i <= self.nodes@.len(),
                forall|k: int|
                    0 <= k < i ==> !(#[trigger] self.nodes@[k].node_type == NodeType::Boss && self.nodes@[k].completed),
            decreases self.nodes@.len() - i,
        {
            if self.nodes[i].node_type == NodeType::Boss && self.nodes[i].completed {
                return true;
            }
            i = i + 1;
        }
        false
    }

    /// Starts over on a new default map.
    pub fn reset(&mut self)
        ensures
            map_wf(final(self).nodes@, 10, 4),
            final(self).current_node_id is None,
            final(self).current_layer == 0,
            !final(self).game_completed,
    {
        *self = Self::default();
    }
}

impl Default for MapProgress {
    fn default() -> (r: Self)
        ensures
            map_wf(r.nodes@, 10, 4),
            r.current_node_id is None,
            r.current_layer == 0,
            !r.game_completed,
    {
        let config = MapConfig::default();
        Self::new(&config)
    }
}

/// Completing a node unlocks every node it leads to: after `complete_current_node` (whose
/// `ensures` gives `marked` and `after`), the first node with each identifier on the completed
/// node's paths is unlocked, and so is every node of the first layer.
pub proof fn law_completing_unlocks_successors(before: Seq<MapNode>, id: u32, after: Seq<MapNode>)
    requires
        has_id(before, id),
        refreshed(
            before.update(first_index(before, id), MapNode { completed: true, ..before[first_index(before, id)] }),
            after,
        ),
    ensures
        forall|j: int, q: int|
            0 <= j < before[first_index(before, id)].next_nodes@.len() && #[trigger] first_with_id(
                after,
                before[first_index(before, id)].next_nodes@[j],
                q,
            ) ==> after[q].unlocked,
        forall|q: int| 0 <= q < after.len() && after[q].position.0 == 0 ==> #[trigger] after[q].unlocked,
{
    let k0 = choose|k: int| 0 <= k < before.len() && #[trigger] before[k].id == id;
    lemma_first_exists(before, id, k0);
    let k = first_index(before, id);
    let marked = before.update(k, MapNode { completed: true, ..before[k] });
    assert forall|j: int, q: int|
        0 <= j < before[k].next_nodes@.len() && #[trigger] first_with_id(after, before[k].next_nodes@[j], q)
        implies after[q].unlocked by {
        let x = before[k].next_nodes@[j];
        assert(marked[k].next_nodes@[j] == x);
        assert(targeted(marked, x));
        assert(after[q] == (MapNode { unlocked: unlocked_after(marked, q), ..marked[q] }));
        assert forall|t: int| 0 <= t < q implies #[trigger] marked[t].id != x by {
            assert(after[t] == (MapNode { unlocked: unlocked_after(marked, t), ..marked[t] }));
            assert(after[t].id != x);
        }
    }
    assert forall|q: int| 0 <= q < after.len() && after[q].position.0 == 0 implies #[trigger] after[q].unlocked by {
        assert(after[q] == (MapNode { unlocked: unlocked_after(marked, q), ..marked[q] }));
    }
}

/// Refreshing twice is refreshing once: a refresh reads only what it does not change.
pub proof fn law_refresh_idempotent(a: Seq<MapNode>, b: Seq<MapNode>, c: Seq<MapNode>)
    requires
        refreshed(a, b),
        refreshed(b, c),
    ensures
        c == b,
        max_completed_layer(b) == max_completed_layer(a),
{
    assert forall|k: int| 0 <= k < a.len() implies #[trigger] unlocked_after(b, k) == unlocked_after(a, k) by {
        assert(b[k] == (MapNode { unlocked: unlocked_after(a, k), ..a[k] }));
        if targeted(a, a[k].id) {
            let (c0, j) = choose|c0: int, j: int|
                0 <= c0 < a.len() && a[c0].completed && 0 <= j < a[c0].next_nodes@.len()
                    && #[trigger] a[c0].next_nodes@[j] == a[k].id;
            assert(b[c0] == (MapNode { unlocked: unlocked_after(a, c0), ..a[c0] }));
            assert(b[c0].next_nodes@[j] == b[k].id);
        }
        if targeted(b, b[k].id) {
            let (c0, j) = choose|c0: int, j: int|
                0 <= c0 < b.len() && b[c0].completed && 0 <= j < b[c0].next_nodes@.len()
                    && #[trigger] b[c0].next_nodes@[j] == b[k].id;
            assert(b[c0] == (MapNode { unlocked: unlocked_after(a, c0), ..a[c0] }));
            assert(a[c0].next_nodes@[j] == a[k].id);
        }
        assert forall|t: int| 0 <= t < k implies (#[trigger] b[t].id == a[t].id) by {
            assert(b[t] == (MapNode { unlocked: unlocked_after(a, t), ..a[t] }));
        }
        assert(targeted(b, a[k].id) == targeted(a, a[k].id));
        let x = a[k].id;
        assert(b[k].id == x);
        if first_with_id(a, x, k) {
            assert forall|j: int| 0 <= j < k implies #[trigger] b[j].id != x by {
                assert(b[j].id == a[j].id);
            }
        }
        if first_with_id(b, x, k) {
            assert forall|j: int| 0 <= j < k implies #[trigger] a[j].id != x by {
                assert(b[j].id == a[j].id);
            }
        }
        assert(first_with_id(b, a[k].id, k) == first_with_id(a, a[k].id, k));
    }
    assert forall|k: int| 0 <= k < b.len() implies #[trigger] c[k] == b[k] by {
        assert(b[k] == (MapNode { unlocked: unlocked_after(a, k), ..a[k] }));
    }
    assert(c =~= b);
    lemma_max_same(a, b);
}

proof fn lemma_max_same(a: Seq<MapNode>, b: Seq<MapNode>)
    requires
        a.len() == b.len(),
        forall|k: int| 0 <= k < a.len() ==> #[trigger] b[k].completed == a[k].completed && b[k].position
            == a[k].position,
    ensures
        max_completed_layer(b) == max_completed_layer(a),
    decreases a.len(),
{
    if a.len() > 0 {
        lemma_max_same(a.drop_last(), b.drop_last());
    }
}

pub(crate) proof fn lemma_first_exists(nodes: Seq<MapNode>, id: u32, k: int)
    requires
        0 <= k < nodes.len(),
        nodes[k].id == id,
    ensures
        first_with_id(nodes, id, first_index(nodes, id)),
    decreases k,
{
    if forall|j: int| 0 <= j < k ==> #[trigger] nodes[j].id != id {
        assert(first_with_id(nodes, id, k));
    } else {
        let j = choose|j: int| 0 <= j < k && #[trigger] nodes[j].id == id;
        lemma_first_exists(nodes, id, j);
    }
}

/// The position of the first node with identifier `id`.
pub open spec fn first_index(nodes: Seq<MapNode>, id: u32) -> int {
    choose|k: int| first_with_id(nodes, id, k)
}

pub(crate) proof fn lemma_first_unique(nodes: Seq<MapNode>, id: u32, a: int, b: int)
    requires
        first_with_id(nodes, id, a),
        first_with_id(nodes, id, b),
    ensures
        a == b,
{
    if a < b {
        assert(nodes[a].id != id);
    } else if b < a {
        assert(nodes[b].id != id);
    }
}

pub(crate) proof fn lemma_first_index(nodes: Seq<MapNode>, id: u32, k: int)
    requires
        first_with_id(nodes, id, k),
    ensures
        first_index(nodes, id) == k,
        has_id(nodes, id),
{
    lemma_first_unique(nodes, id, first_index(nodes, id), k);
}

proof fn lemma_max_completed_layer_bounds(nodes: Seq<MapNode>)
    ensures
        max_completed_layer(nodes) >= -1,
        max_completed_layer(nodes) <= i32::MAX,
    decreases nodes.len(),
{
    if nodes.len() > 0 {
        lemma_max_completed_layer_bounds(nodes.drop_last());
    }
}

/// Refreshing a freshly built map changes nothing: no node is completed, so exactly the first
/// layer stays unlocked and the current layer stays 0.
proof fn lemma_fresh_map_refresh(before: Seq<MapNode>, after: Seq<MapNode>, layers: int, npl: int)
    requires
        map_wf(before, layers, npl),
        layers >= 1,
        layers * npl <= i32::MAX,
        refreshed(before, after),
    ensures
        map_wf(after, layers, npl),
        max_completed_layer(before) == -1,
{
    lemma_no_completed(before, layers, npl);
    assert forall|k: int| 0 <= k < before.len() implies #[trigger] after[k] == before[k] by {
        law_map_grid_covers(before, layers, npl, k);
        assert(!targeted(before, before[k].id));
        assert(before[k].unlocked == (before[k].position.0 == 0)) by {
            assert(layers <= layers * npl && npl <= layers * npl) by (nonlinear_arith)
                requires
                    npl >= 1,
                    layers >= 1,
            ;
        }
    }
    assert(after =~= before);
}

proof fn lemma_no_completed(nodes: Seq<MapNode>, layers: int, npl: int)
    requires
        map_wf(nodes, layers, npl),
        layers >= 1,
    ensures
        forall|k: int| 0 <= k < nodes.len() ==> !#[trigger] nodes[k].completed,
        forall|x: u32| !#[trigger] targeted(nodes, x),
        max_completed_layer(nodes) == -1,
{
    assert forall|k: int| 0 <= k < nodes.len() implies !#[trigger] nodes[k].completed by {
        law_map_grid_covers(nodes, layers, npl, k);
    }
    lemma_max_none(nodes);
}

proof fn lemma_max_none(nodes: Seq<MapNode>)
    requires
        forall|k: int| 0 <= k < nodes.len() ==> !#[trigger] nodes[k].completed,
    ensures
        max_completed_layer(nodes) == -1,
    decreases nodes.len(),
{
    if nodes.len() > 0 {
        assert(!nodes[nodes.len() - 1].completed);
        lemma_max_none(nodes.drop_last());
    }
}

} // verus!
