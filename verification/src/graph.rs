//! Topology of the node-graph editors: the visual-logic graph (directed
//! edges between nodes) and the material graph (wires from a node's output
//! into an input slot of another node). Node payloads — labels, positions,
//! colours — are the application's; the graphs keep nodes, links and the
//! selection consistent.

use vstd::prelude::*;

use crate::selection::clamped_selection;

verus! {

/// An edge endpoint after node `idx` was removed: later nodes move down.
pub open spec fn shifted(n: usize, idx: usize) -> usize {
    if n > idx { (n - 1) as usize } else { n }
}

/// The edges kept when node `idx` is removed, renumbered.
pub open spec fn edges_without(edges: Seq<(usize, usize)>, idx: usize) -> Seq<(usize, usize)>
    decreases edges.len(),
{
    if edges.len() == 0 {
        seq![]
    } else {
        let e = edges.last();
        let rest = edges_without(edges.drop_last(), idx);
        if e.0 != idx && e.1 != idx {
            rest.push((shifted(e.0, idx), shifted(e.1, idx)))
        } else {
            rest
        }
    }
}

/// Deleting node `idx` keeps exactly the edges that touch neither end at
/// `idx`, in their order, with every endpoint above `idx` moved down by one.
pub proof fn lemma_delete_keeps_other_edges(edges: Seq<(usize, usize)>, idx: usize)
    ensures
        edges_without(edges, idx) == edges.filter(|e: (usize, usize)| e.0 != idx && e.1 != idx).map_values(
            |e: (usize, usize)|
                (
                    (if e.0 > idx { (e.0 - 1) as usize } else { e.0 }),
                    (if e.1 > idx { (e.1 - 1) as usize } else { e.1 }),
                ),
        ),
        edges_without(edges, idx).len() == edges.filter(|e: (usize, usize)| e.0 != idx && e.1 != idx).len(),
    decreases edges.len(),
{
    reveal(Seq::filter);
    let keep = |e: (usize, usize)| e.0 != idx && e.1 != idx;
    let renumber = |e: (usize, usize)|
        (
            (if e.0 > idx { (e.0 - 1) as usize } else { e.0 }),
            (if e.1 > idx { (e.1 - 1) as usize } else { e.1 }),
        );
    if edges.len() == 0 {
        assert(edges.filter(keep) =~= Seq::<(usize, usize)>::empty());
        assert(edges.filter(keep).map_values(renumber) =~= Seq::<(usize, usize)>::empty());
    } else {
        lemma_delete_keeps_other_edges(edges.drop_last(), idx);
        let f0 = edges.drop_last().filter(keep);
        if keep(edges.last()) {
            assert(edges.filter(keep) == f0.push(edges.last()));
            assert(f0.push(edges.last()).map_values(renumber) =~= f0.map_values(renumber).push(renumber(edges.last())));
        } else {
            assert(edges.filter(keep) == f0);
        }
    }
}

/// What a drag on a graph canvas does.
#[derive(Clone, Copy, Debug, PartialEq, Eq, Structural)]
pub enum DragMode {
    /// No drag in progress.
    Idle,
    /// The node at this index follows the pointer.
    MovingNode(usize),
    /// The canvas pans.
    PanningCanvas,
    /// A link is being drawn from the output port of this node.
    DrawingLink(usize),
}

/// The first index `k` or later, other than `skip`, where `hits` holds.
pub open spec fn first_hit_from(hits: Seq<bool>, skip: int, k: int) -> Option<int>
    decreases hits.len() - k,
{
    if k < 0 || k >= hits.len() {
        None
    } else if k != skip && hits[k] {
        Some(k)
    } else {
        first_hit_from(hits, skip, k + 1)
    }
}

/// The first index other than `skip` where `hits` holds.
pub open spec fn first_hit(hits: Seq<bool>, skip: int) -> Option<int> {
    first_hit_from(hits, skip, 0)
}

pub(crate) proof fn lemma_first_hit_bounds(hits: Seq<bool>, skip: int, k: int)
    ensures
        first_hit_from(hits, skip, k) matches Some(i) ==> k <= i < hits.len() && i != skip && hits[i],
    decreases hits.len() - k,
{
    if 0 <= k < hits.len() && !(k != skip && hits[k]) {
        lemma_first_hit_bounds(hits, skip, k + 1);
    }
}

/// The first index other than `skip` where `hits` holds.
pub(crate) fn find_hit(hits: &Vec<bool>, skip: Option<usize>) -> (r: Option<usize>)
    ensures
        match r {
            Some(i) => first_hit(hits@, match skip { Some(s) => s as int, None => -1 }) == Some(i as int),
            None => first_hit(hits@, match skip { Some(s) => s as int, None => -1 }) is None,
        },
{
    let ghost sk: int = match skip {
        Some(s) => s as int,
        None => -1,
    };
    let mut k: usize = 0;
    while k < hits.len()
        invariant
            k <= hits@.len(),
            sk == match skip {
                Some(s) => s as int,
                None => -1,
            },
            first_hit(hits@, sk) == first_hit_from(hits@, sk, k as int),
        decreases hits@.len() - k,
    {
        let skipped = match skip {
            Some(s) => s == k,
            None => false,
        };
        if !skipped && hits[k] {
            return Some(k);
        }
        k = k + 1;
    }
    None
}

/// The drag that begins where the pointer is pressed: on a node's output
/// port (`port_hits`), drawing a link from the first such node; else on a
/// node's body (`body_hits`), moving the first such node; else panning.
pub open spec fn drag_start_mode(port_hits: Seq<bool>, body_hits: Seq<bool>) -> DragMode {
    match first_hit(port_hits, -1) {
        Some(i) => DragMode::DrawingLink(i as usize),
        None => match first_hit(body_hits, -1) {
            Some(i) => DragMode::MovingNode(i as usize),
            None => DragMode::PanningCanvas,
        },
    }
}

/// The drag that begins where the pointer is pressed (see
/// [`drag_start_mode`]).
pub fn drag_start(port_hits: &Vec<bool>, body_hits: &Vec<bool>) -> (mode: DragMode)
    ensures
        mode == drag_start_mode(port_hits@, body_hits@),
        mode matches DragMode::DrawingLink(i) ==> i < port_hits@.len(),
        mode matches DragMode::MovingNode(i) ==> i < body_hits@.len(),
{
    proof {
        lemma_first_hit_bounds(port_hits@, -1, 0);
        lemma_first_hit_bounds(body_hits@, -1, 0);
    }
    match find_hit(port_hits, None) {
        Some(i) => DragMode::DrawingLink(i),
        None => match find_hit(body_hits, None) {
            Some(i) => DragMode::MovingNode(i),
            None => DragMode::PanningCanvas,
        },
    }
}

/// A visual-logic graph: nodes with payload `N` and directed edges
/// `(from, to)` between their indices.
pub struct LogicGraph<N> {
    /// The nodes, in drawing order.
    pub nodes: Vec<N>,
    /// Directed edges between node indices.
    pub edges: Vec<(usize, usize)>,
    /// Index of the selected node.
    pub selected: Option<usize>,
    /// The id the next new node gets.
    pub next_id: usize,
}

impl<N> LogicGraph<N> {
    /// Every edge joins two different existing nodes, no edge is listed
    /// twice, and the selection names an existing node.
    pub open spec fn wf(&self) -> bool {
        &&& forall|k: int| 0 <= k < self.edges@.len() ==> (#[trigger] self.edges@[k]).0 < self.nodes@.len()
            && self.edges@[k].1 < self.nodes@.len() && self.edges@[k].0 != self.edges@[k].1
        &&& forall|a: int, b: int| 0 <= a < b < self.edges@.len() ==> #[trigger] self.edges@[a] != #[trigger] self.edges@[b]
        &&& (self.selected matches Some(i) ==> i < self.nodes@.len())
    }

    /// A graph of `nodes` with `edges`; the next node id is `next_id`.
    pub fn from_parts(nodes: Vec<N>, edges: Vec<(usize, usize)>, next_id: usize) -> (g: Self)
        requires
            forall|k: int| 0 <= k < edges@.len() ==> (#[trigger] edges@[k]).0 < nodes@.len() && edges@[k].1 < nodes@.len()
                && edges@[k].0 != edges@[k].1,
            forall|a: int, b: int| 0 <= a < b < edges@.len() ==> #[trigger] edges@[a] != #[trigger] edges@[b],
        ensures
            g.wf(),
            g.nodes == nodes,
            g.edges == edges,
            g.selected is None,
            g.next_id == next_id,
    {
        LogicGraph { nodes, edges, selected: None, next_id }
    }

    /// Reserve the id of a new node.
    pub fn take_id(&mut self) -> (id: usize)
        requires
            old(self).next_id < usize::MAX,
        ensures
            id == old(self).next_id,
            final(self).next_id == id + 1,
            final(self).nodes == old(self).nodes,
            final(self).edges == old(self).edges,
            final(self).selected == old(self).selected,
    {
        let id = self.next_id;
        self.next_id = self.next_id + 1;
        id
    }

    /// Append `node` and select it.
    pub fn push_node(&mut self, node: N)
        requires
            old(self).wf(),
        ensures
            final(self).wf(),
            final(self).nodes@ == old(self).nodes@.push(node),
            final(self).edges == old(self).edges,
            final(self).selected == Some(old(self).nodes@.len() as usize),
            final(self).next_id == old(self).next_id,
    {
        self.nodes.push(node);
        self.selected = Some(self.nodes.len() - 1);
    }

    /// Select node `i`.
    pub fn select(&mut self, i: usize)
        requires
            old(self).wf(),
            i < old(self).nodes@.len(),
        ensures
            final(self).wf(),
            final(self).selected == Some(i),
            final(self).nodes == old(self).nodes,
            final(self).edges == old(self).edges,
    {
        self.selected = Some(i);
    }

    /// Delete the selected node with every edge touching it; the other edges
    /// are renumbered and the selection moves to the node that took its
    /// place (or the last one). Returns the removed node.
    pub fn delete_selected(&mut self) -> (removed: Option<N>)
        requires
            old(self).wf(),
        ensures
            final(self).wf(),
            old(self).selected is None ==> removed is None && final(self).nodes == old(self).nodes
                && final(self).edges == old(self).edges && final(self).selected is None,
            old(self).selected matches Some(i) ==> {
                &&& removed == Some(old(self).nodes@[i as int])
                &&& final(self).nodes@ == old(self).nodes@.remove(i as int)
                &&& final(self).edges@ == edges_without(old(self).edges@, i)
                &&& final(self).selected == clamped_selection(i, final(self).nodes@.len())
            },
            final(self).next_id == old(self).next_id,
    {
        let idx = match self.selected {
            Some(idx) => idx,
            None => return None,
        };
        let node = self.nodes.remove(idx);
        let mut kept: Vec<(usize, usize)> = Vec::new();
        for k in 0..self.edges.len()
            invariant
                self.edges == old(self).edges,
                idx < old(self).nodes@.len(),
                self.nodes@ == old(self).nodes@.remove(idx as int),
                old(self).wf(),
                kept@ == edges_without(self.edges@.take(k as int), idx),
                forall|j: int| 0 <= j < kept@.len() ==> (#[trigger] kept@[j]).0 < self.nodes@.len() && kept@[j].1 < self.nodes@.len()
                    && kept@[j].0 != kept@[j].1,
        {
            let (from, to) = self.edges[k];
            assert(self.edges@.take(k + 1).drop_last() =~= self.edges@.take(k as int));
            if from != idx && to != idx {
                let f = if from > idx { from - 1 } else { from };
                let t = if to > idx { to - 1 } else { to };
                proof {
                    if f == t {
                        lemma_shift_injective(from, to, idx);
                    }
                }
                kept.push((f, t));
            }
        }
        assert(self.edges@.take(self.edges@.len() as int) =~= self.edges@);
        proof {
            lemma_edges_without_distinct(self.edges@, idx);
        }
        self.edges = kept;
        self.selected = if self.nodes.len() == 0 {
            None
        } else if idx < self.nodes.len() {
            Some(idx)
        } else {
            Some(self.nodes.len() - 1)
        };
        Some(node)
    }

    /// Connect `from` to `to`, unless that edge is already there or both
    /// ends are the same node.
    pub fn connect(&mut self, from: usize, to: usize)
        requires
            old(self).wf(),
            from < old(self).nodes@.len(),
            to < old(self).nodes@.len(),
        ensures
            final(self).wf(),
            from == to || old(self).edges@.contains((from, to)) ==> final(self).edges == old(self).edges,
            from != to && !old(self).edges@.contains((from, to)) ==> final(self).edges@ == old(self).edges@.push((from, to)),
            final(self).nodes == old(self).nodes,
            final(self).selected == old(self).selected,
    {
        if from == to {
            return;
        }
        let mut found = false;
        for k in 0..self.edges.len()
            invariant
                found == exists|j: int| 0 <= j < k && self.edges@[j] == (from, to),
        {
            if self.edges[k].0 == from && self.edges[k].1 == to {
                found = true;
            }
        }
        if !found {
            self.edges.push((from, to));
        } else {
            proof {
                let j = choose|j: int| 0 <= j < self.edges@.len() && self.edges@[j] == (from, to);
                assert(self.edges@.contains((from, to)));
            }
        }
    }

    /// Press on the canvas: starts the drag [`drag_start_mode`] gives for the
    /// ports and bodies under the pointer (one flag per node); a node that
    /// starts moving is selected.
    pub fn begin_drag(&mut self, port_hits: &Vec<bool>, body_hits: &Vec<bool>) -> (mode: DragMode)
        requires
            old(self).wf(),
            port_hits@.len() == old(self).nodes@.len(),
            body_hits@.len() == old(self).nodes@.len(),
        ensures
            final(self).wf(),
            mode == drag_start_mode(port_hits@, body_hits@),
            mode matches DragMode::MovingNode(i) ==> final(self).selected == Some(i),
            !(mode is MovingNode) ==> final(self).selected == old(self).selected,
            final(self).nodes == old(self).nodes,
            final(self).edges == old(self).edges,
    {
        let mode = drag_start(port_hits, body_hits);
        if let DragMode::MovingNode(i) = mode {
            self.selected = Some(i);
        }
        mode
    }

    /// Release of a link drawn from `from`: it connects to the first other
    /// node whose input port is under the pointer (`port_hits`, one flag per
    /// node), unless that edge exists; elsewhere the link is dropped.
    pub fn end_link(&mut self, from: usize, port_hits: &Vec<bool>)
        requires
            old(self).wf(),
            from < old(self).nodes@.len(),
            port_hits@.len() == old(self).nodes@.len(),
        ensures
            final(self).wf(),
            match first_hit(port_hits@, from as int) {
                Some(to) => if old(self).edges@.contains((from, to as usize)) {
                    final(self).edges == old(self).edges
                } else {
                    final(self).edges@ == old(self).edges@.push((from, to as usize))
                },
                None => final(self).edges == old(self).edges,
            },
            final(self).nodes == old(self).nodes,
            final(self).selected == old(self).selected,
    {
        proof {
            lemma_first_hit_bounds(port_hits@, from as int, 0);
        }
        if let Some(to) = find_hit(port_hits, Some(from)) {
            self.connect(from, to);
        }
    }

    /// Remove every edge.
    pub fn clear_edges(&mut self)
        requires
            old(self).wf(),
        ensures
            final(self).wf(),
            final(self).edges@.len() == 0,
            final(self).nodes == old(self).nodes,
            final(self).selected == old(self).selected,
    {
        self.edges = Vec::new();
    }
}

proof fn lemma_shift_injective(a: usize, b: usize, idx: usize)
    requires
        a != idx,
        b != idx,
        shifted(a, idx) == shifted(b, idx),
    ensures
        a == b,
{
}

/// Renumbering keeps distinct edges distinct.
proof fn lemma_edges_without_distinct(edges: Seq<(usize, usize)>, idx: usize)
    requires
        forall|a: int, b: int| 0 <= a < b < edges.len() ==> #[trigger] edges[a] != #[trigger] edges[b],
    ensures
        forall|a: int, b: int| 0 <= a < b < edges_without(edges, idx).len() ==> #[trigger] edges_without(edges, idx)[a]
            != #[trigger] edges_without(edges, idx)[b],
        forall|k: int| 0 <= k < edges_without(edges, idx).len() ==> exists|j: int| 0 <= j < edges.len() && #[trigger] edges_without(edges, idx)[k] == (
            shifted(edges[j].0, idx), shifted(edges[j].1, idx)) && edges[j].0 != idx && edges[j].1 != idx,
    decreases edges.len(),
{
    if edges.len() > 0 {
        let rest = edges.drop_last();
        lemma_edges_without_distinct(rest, idx);
        let e = edges.last();
        let r = edges_without(rest, idx);
        let w = edges_without(edges, idx);
        if e.0 != idx && e.1 != idx {
            assert forall|k: int| 0 <= k < r.len() implies #[trigger] r[k] != (shifted(e.0, idx), shifted(e.1, idx)) by {
                let j = choose|j: int| 0 <= j < rest.len() && r[k] == (shifted(rest[j].0, idx), shifted(rest[j].1, idx)) && rest[j].0 != idx && rest[j].1 != idx;
                assert(edges[j] == rest[j]);
                assert(edges[j] != edges[edges.len() - 1]);
                if r[k] == (shifted(e.0, idx), shifted(e.1, idx)) {
                    lemma_shift_injective(rest[j].0, e.0, idx);
                    lemma_shift_injective(rest[j].1, e.1, idx);
                }
            }
            assert forall|k: int| 0 <= k < w.len() implies exists|j: int| 0 <= j < edges.len() && #[trigger] w[k] == (
                shifted(edges[j].0, idx), shifted(edges[j].1, idx)) && edges[j].0 != idx && edges[j].1 != idx by {
                if k < r.len() {
                    let j = choose|j: int| 0 <= j < rest.len() && r[k] == (shifted(rest[j].0, idx), shifted(rest[j].1, idx)) && rest[j].0 != idx && rest[j].1 != idx;
                    assert(edges[j] == rest[j]);
                } else {
                    assert(w[k] == (shifted(edges[edges.len() - 1].0, idx), shifted(edges[edges.len() - 1].1, idx)));
                }
            }
        } else {
            assert forall|k: int| 0 <= k < w.len() implies exists|j: int| 0 <= j < edges.len() && #[trigger] w[k] == (
                shifted(edges[j].0, idx), shifted(edges[j].1, idx)) && edges[j].0 != idx && edges[j].1 != idx by {
                let j = choose|j: int| 0 <= j < rest.len() && r[k] == (shifted(rest[j].0, idx), shifted(rest[j].1, idx)) && rest[j].0 != idx && rest[j].1 != idx;
                assert(edges[j] == rest[j]);
            }
        }
    }
}


/// A wire from the output of node `from_node` into input slot `to_input`
/// of node `to_node`.
#[derive(Clone, Copy, Debug, PartialEq, Eq, Structural)]
pub struct Wire {
    /// Source node index (output side).
    pub from_node: usize,
    /// Destination node index (input side).
    pub to_node: usize,
    /// Which input slot of `to_node` (0-based).
    pub to_input: usize,
}

/// The wires kept when node `idx` is removed, renumbered.
pub open spec fn wires_without(wires: Seq<Wire>, idx: usize) -> Seq<Wire>
    decreases wires.len(),
{
    if wires.len() == 0 {
        seq![]
    } else {
        let w = wires.last();
        let rest = wires_without(wires.drop_last(), idx);
        if w.from_node != idx && w.to_node != idx {
            rest.push(Wire { from_node: shifted(w.from_node, idx), to_node: shifted(w.to_node, idx), to_input: w.to_input })
        } else {
            rest
        }
    }
}

/// Deleting node `idx` keeps exactly the wires that touch neither end at
/// `idx`, in their order, with every node index above `idx` moved down by
/// one and the input slot kept.
pub proof fn lemma_delete_keeps_other_wires(wires: Seq<Wire>, idx: usize)
    ensures
        wires_without(wires, idx) == wires.filter(|w: Wire| w.from_node != idx && w.to_node != idx).map_values(
            |w: Wire|
                Wire {
                    from_node: (if w.from_node > idx { (w.from_node - 1) as usize } else { w.from_node }),
                    to_node: (if w.to_node > idx { (w.to_node - 1) as usize } else { w.to_node }),
                    to_input: w.to_input,
                },
        ),
        wires_without(wires, idx).len() == wires.filter(|w: Wire| w.from_node != idx && w.to_node != idx).len(),
    decreases wires.len(),
{
    reveal(Seq::filter);
    let keep = |w: Wire| w.from_node != idx && w.to_node != idx;
    let renumber = |w: Wire|
        Wire {
            from_node: (if w.from_node > idx { (w.from_node - 1) as usize } else { w.from_node }),
            to_node: (if w.to_node > idx { (w.to_node - 1) as usize } else { w.to_node }),
            to_input: w.to_input,
        };
    if wires.len() == 0 {
        assert(wires.filter(keep) =~= Seq::<Wire>::empty());
        assert(wires.filter(keep).map_values(renumber) =~= Seq::<Wire>::empty());
    } else {
        lemma_delete_keeps_other_wires(wires.drop_last(), idx);
        let f0 = wires.drop_last().filter(keep);
        if keep(wires.last()) {
            assert(wires.filter(keep) == f0.push(wires.last()));
            assert(f0.push(wires.last()).map_values(renumber) =~= f0.map_values(renumber).push(renumber(wires.last())));
        } else {
            assert(wires.filter(keep) == f0);
        }
    }
}

/// Some wire already feeds input slot `input` of node `to`.
pub open spec fn slot_taken(wires: Seq<Wire>, to: usize, input: usize) -> bool {
    exists|j: int| 0 <= j < wires.len() && (#[trigger] wires[j]).to_node == to && wires[j].to_input == input
}

/// The first node `k` or later, other than `skip`, with an input slot
/// under the pointer (`hits[node][slot]`), and the first such slot of it.
pub open spec fn first_slot_hit_from(hits: Seq<Seq<bool>>, skip: int, k: int) -> Option<(int, int)>
    decreases hits.len() - k,
{
    if k < 0 || k >= hits.len() {
        None
    } else if k != skip && first_hit(hits[k], -1) is Some {
        Some((k, first_hit(hits[k], -1)->0))
    } else {
        first_slot_hit_from(hits, skip, k + 1)
    }
}

proof fn lemma_first_slot_hit_bounds(hits: Seq<Seq<bool>>, skip: int, k: int)
    ensures
        first_slot_hit_from(hits, skip, k) matches Some((i, j)) ==> k <= i < hits.len() && i != skip && 0 <= j
            < hits[i].len(),
    decreases hits.len() - k,
{
    if 0 <= k < hits.len() {
        lemma_first_hit_bounds(hits[k], -1, 0);
        if !(k != skip && first_hit(hits[k], -1) is Some) {
            lemma_first_slot_hit_bounds(hits, skip, k + 1);
        }
    }
}

/// A material graph: nodes with payload `N` and wires between them.
pub struct MaterialGraph<N> {
    /// The nodes, in drawing order.
    pub nodes: Vec<N>,
    /// The number of input slots of each node.
    pub input_counts: Vec<usize>,
    /// Wire connections between node ports.
    pub wires: Vec<Wire>,
    /// Index of the selected node.
    pub selected: Option<usize>,
    /// The id the next new node gets.
    pub next_id: usize,
}

impl<N> MaterialGraph<N> {
    /// Every node has its input count; every wire joins two different
    /// existing nodes and ends on an input slot of its target; no input slot
    /// is fed by two wires; and the selection names an existing node.
    pub open spec fn wf(&self) -> bool {
        &&& self.input_counts@.len() == self.nodes@.len()
        &&& forall|k: int| 0 <= k < self.wires@.len() ==> (#[trigger] self.wires@[k]).from_node < self.nodes@.len()
            && self.wires@[k].to_node < self.nodes@.len() && self.wires@[k].from_node != self.wires@[k].to_node
            && self.wires@[k].to_input < self.input_counts@[self.wires@[k].to_node as int]
        &&& forall|a: int, b: int| 0 <= a < b < self.wires@.len() ==> !((#[trigger] self.wires@[a]).to_node == (#[trigger] self.wires@[b]).to_node
            && self.wires@[a].to_input == self.wires@[b].to_input)
        &&& (self.selected matches Some(i) ==> i < self.nodes@.len())
    }

    /// A graph of `nodes`, whose input slots `input_counts` counts, with
    /// `wires`; the next node id is `next_id`.
    pub fn from_parts(nodes: Vec<N>, input_counts: Vec<usize>, wires: Vec<Wire>, next_id: usize) -> (g: Self)
        requires
            input_counts@.len() == nodes@.len(),
            forall|k: int| 0 <= k < wires@.len() ==> (#[trigger] wires@[k]).from_node < nodes@.len() && wires@[k].to_node < nodes@.len()
                && wires@[k].from_node != wires@[k].to_node && wires@[k].to_input < input_counts@[wires@[k].to_node as int],
            forall|a: int, b: int| 0 <= a < b < wires@.len() ==> !((#[trigger] wires@[a]).to_node == (#[trigger] wires@[b]).to_node
                && wires@[a].to_input == wires@[b].to_input),
        ensures
            g.wf(),
            g.nodes == nodes,
            g.input_counts == input_counts,
            g.wires == wires,
            g.selected is None,
            g.next_id == next_id,
    {
        MaterialGraph { nodes, input_counts, wires, selected: None, next_id }
    }

    /// Reserve the id of a new node.
    pub fn take_id(&mut self) -> (id: usize)
        requires
            old(self).next_id < usize::MAX,
        ensures
            id == old(self).next_id,
            final(self).next_id == id + 1,
            final(self).nodes == old(self).nodes,
            final(self).input_counts == old(self).input_counts,
            final(self).wires == old(self).wires,
            final(self).selected == old(self).selected,
    {
        let id = self.next_id;
        self.next_id = self.next_id + 1;
        id
    }

    /// Append `node`, with `inputs` input slots, and select it.
    pub fn push_node(&mut self, node: N, inputs: usize)
        requires
            old(self).wf(),
        ensures
            final(self).wf(),
            final(self).nodes@ == old(self).nodes@.push(node),
            final(self).input_counts@ == old(self).input_counts@.push(inputs),
            final(self).wires == old(self).wires,
            final(self).selected == Some(old(self).nodes@.len() as usize),
            final(self).next_id == old(self).next_id,
    {
        self.nodes.push(node);
        self.input_counts.push(inputs);
        self.selected = Some(self.nodes.len() - 1);
    }

    /// Select node `i`.
    pub fn select(&mut self, i: usize)
        requires
            old(self).wf(),
            i < old(self).nodes@.len(),
        ensures
            final(self).wf(),
            final(self).selected == Some(i),
            final(self).nodes == old(self).nodes,
            final(self).input_counts == old(self).input_counts,
            final(self).wires == old(self).wires,
    {
        self.selected = Some(i);
    }

    /// Delete the selected node with every wire touching it; the other wires
    /// are renumbered and the selection moves to the node that took its
    /// place (or the last one). Returns the removed node.
    pub fn delete_selected(&mut self) -> (removed: Option<N>)
        requires
            old(self).wf(),
        ensures
            final(self).wf(),
            old(self).selected is None ==> removed is None && final(self).nodes == old(self).nodes
                && final(self).wires == old(self).wires && final(self).selected is None,
            old(self).selected matches Some(i) ==> {
                &&& removed == Some(old(self).nodes@[i as int])
                &&& final(self).nodes@ == old(self).nodes@.remove(i as int)
                &&& final(self).input_counts@ == old(self).input_counts@.remove(i as int)
                &&& final(self).wires@ == wires_without(old(self).wires@, i)
                &&& final(self).selected == clamped_selection(i, final(self).nodes@.len())
            },
            old(self).selected is None ==> final(self).input_counts == old(self).input_counts,
            final(self).next_id == old(self).next_id,
    {
        let idx = match self.selected {
            Some(idx) => idx,
            None => return None,
        };
        let node = self.nodes.remove(idx);
        self.input_counts.remove(idx);
        let mut kept: Vec<Wire> = Vec::new();
        for k in 0..self.wires.len()
            invariant
                self.wires == old(self).wires,
                idx < old(self).nodes@.len(),
                self.nodes@ == old(self).nodes@.remove(idx as int),
                self.input_counts@ == old(self).input_counts@.remove(idx as int),
                old(self).wf(),
                kept@ == wires_without(self.wires@.take(k as int), idx),
                forall|j: int| 0 <= j < kept@.len() ==> (#[trigger] kept@[j]).from_node < self.nodes@.len() && kept@[j].to_node < self.nodes@.len()
                    && kept@[j].from_node != kept@[j].to_node && kept@[j].to_input < self.input_counts@[kept@[j].to_node as int],
        {
            let w = self.wires[k];
            assert(self.wires@.take(k + 1).drop_last() =~= self.wires@.take(k as int));
            if w.from_node != idx && w.to_node != idx {
                let f = if w.from_node > idx { w.from_node - 1 } else { w.from_node };
                let t = if w.to_node > idx { w.to_node - 1 } else { w.to_node };
                proof {
                    if f == t {
                        lemma_shift_injective(w.from_node, w.to_node, idx);
                    }
                }
                kept.push(Wire { from_node: f, to_node: t, to_input: w.to_input });
            }
        }
        assert(self.wires@.take(self.wires@.len() as int) =~= self.wires@);
        proof {
            lemma_wires_without_slots(self.wires@, idx);
        }
        self.wires = kept;
        self.selected = if self.nodes.len() == 0 {
            None
        } else if idx < self.nodes.len() {
            Some(idx)
        } else {
            Some(self.nodes.len() - 1)
        };
        Some(node)
    }

    /// Wire the output of `from` into slot `input` of `to`, unless some wire
    /// already feeds that slot or both ends are the same node.
    pub fn connect(&mut self, from: usize, to: usize, input: usize)
        requires
            old(self).wf(),
            from < old(self).nodes@.len(),
            to < old(self).nodes@.len(),
            input < old(self).input_counts@[to as int],
        ensures
            final(self).wf(),
            from == to || slot_taken(old(self).wires@, to, input) ==> final(self).wires == old(self).wires,
            from != to && !slot_taken(old(self).wires@, to, input) ==> final(self).wires@ == old(self).wires@.push(
                Wire { from_node: from, to_node: to, to_input: input },
            ),
            final(self).nodes == old(self).nodes,
            final(self).input_counts == old(self).input_counts,
            final(self).selected == old(self).selected,
    {
        if from == to {
            return;
        }
        let mut taken = false;
        for k in 0..self.wires.len()
            invariant
                taken == exists|j: int| 0 <= j < k && (#[trigger] self.wires@[j]).to_node == to && self.wires@[j].to_input == input,
        {
            if self.wires[k].to_node == to && self.wires[k].to_input == input {
                taken = true;
            }
        }
        if !taken {
            self.wires.push(Wire { from_node: from, to_node: to, to_input: input });
        }
    }

    /// Press on the canvas: starts the drag [`drag_start_mode`] gives for the
    /// output ports and bodies under the pointer (one flag per node); a node
    /// that starts moving is selected.
    pub fn begin_drag(&mut self, port_hits: &Vec<bool>, body_hits: &Vec<bool>) -> (mode: DragMode)
        requires
            old(self).wf(),
            port_hits@.len() == old(self).nodes@.len(),
            body_hits@.len() == old(self).nodes@.len(),
        ensures
            final(self).wf(),
            mode == drag_start_mode(port_hits@, body_hits@),
            mode matches DragMode::MovingNode(i) ==> final(self).selected == Some(i),
            !(mode is MovingNode) ==> final(self).selected == old(self).selected,
            final(self).nodes == old(self).nodes,
            final(self).input_counts == old(self).input_counts,
            final(self).wires == old(self).wires,
    {
        let mode = drag_start(port_hits, body_hits);
        if let DragMode::MovingNode(i) = mode {
            self.selected = Some(i);
        }
        mode
    }

    /// Release of a wire drawn from `from`: it goes into the first input
    /// slot under the pointer (`slot_hits[node][slot]`, one row per node) of
    /// the first other node that has one, unless a wire already feeds that
    /// slot; elsewhere the wire is dropped.
    pub fn end_wire(&mut self, from: usize, slot_hits: &Vec<Vec<bool>>)
        requires
            old(self).wf(),
            from < old(self).nodes@.len(),
            slot_hits@.len() == old(self).nodes@.len(),
            forall|k: int| 0 <= k < slot_hits@.len() ==> (#[trigger] slot_hits@[k])@.len() == old(self).input_counts@[k],
        ensures
            final(self).wf(),
            match first_slot_hit_from(slot_hits@.map_values(|r: Vec<bool>| r@), from as int, 0) {
                Some((to, input)) => if slot_taken(old(self).wires@, to as usize, input as usize) {
                    final(self).wires == old(self).wires
                } else {
                    final(self).wires@ == old(self).wires@.push(
                        Wire { from_node: from, to_node: to as usize, to_input: input as usize },
                    )
                },
                None => final(self).wires == old(self).wires,
            },
            final(self).wires@.len() > old(self).wires@.len() ==> {
                let w = final(self).wires@.last();
                &&& w.from_node == from
                &&& w.to_node != from
                &&& w.to_input < slot_hits@[w.to_node as int]@.len()
            },
            final(self).nodes == old(self).nodes,
            final(self).input_counts == old(self).input_counts,
            final(self).selected == old(self).selected,
    {
        let ghost rows = slot_hits@.map_values(|r: Vec<bool>| r@);
        proof {
            lemma_first_slot_hit_bounds(rows, from as int, 0);
        }
        let mut k: usize = 0;
        while k < slot_hits.len()
            invariant
                rows == slot_hits@.map_values(|r: Vec<bool>| r@),
                k <= slot_hits@.len(),
                slot_hits@.len() == self.nodes@.len(),
                *self == *old(self),
                self.wf(),
                from < self.nodes@.len(),
                forall|j: int| 0 <= j < slot_hits@.len() ==> (#[trigger] slot_hits@[j])@.len() == self.input_counts@[j],
                first_slot_hit_from(rows, from as int, 0) == first_slot_hit_from(rows, from as int, k as int),
            decreases slot_hits@.len() - k,
        {
            if k != from {
                assert(rows[k as int] == slot_hits@[k as int]@);
                if let Some(input) = find_hit(&slot_hits[k], None) {
                    proof {
                        lemma_first_hit_bounds(rows[k as int], -1, 0);
                    }
                    self.connect(from, k, input);
                    return;
                }
            }
            k = k + 1;
        }
    }

    /// Remove every wire.
    pub fn clear_wires(&mut self)
        requires
            old(self).wf(),
        ensures
            final(self).wf(),
            final(self).wires@.len() == 0,
            final(self).nodes == old(self).nodes,
            final(self).input_counts == old(self).input_counts,
            final(self).selected == old(self).selected,
    {
        self.wires = Vec::new();
    }
}

/// Renumbering keeps distinct input slots distinct.
proof fn lemma_wires_without_slots(wires: Seq<Wire>, idx: usize)
    requires
        forall|a: int, b: int| 0 <= a < b < wires.len() ==> !((#[trigger] wires[a]).to_node == (#[trigger] wires[b]).to_node
            && wires[a].to_input == wires[b].to_input),
    ensures
        forall|a: int, b: int| 0 <= a < b < wires_without(wires, idx).len() ==> !((#[trigger] wires_without(wires, idx)[a]).to_node
            == (#[trigger] wires_without(wires, idx)[b]).to_node && wires_without(wires, idx)[a].to_input == wires_without(wires, idx)[b].to_input),
        forall|k: int| 0 <= k < wires_without(wires, idx).len() ==> exists|j: int| 0 <= j < wires.len() && (#[trigger] wires_without(wires, idx)[k]).to_node
            == shifted(wires[j].to_node, idx) && wires_without(wires, idx)[k].to_input == wires[j].to_input && wires[j].to_node != idx,
    decreases wires.len(),
{
    if wires.len() > 0 {
        let rest = wires.drop_last();
        lemma_wires_without_slots(rest, idx);
        let e = wires.last();
        let r = wires_without(rest, idx);
        let w = wires_without(wires, idx);
        if e.from_node != idx && e.to_node != idx {
            assert forall|k: int| 0 <= k < r.len() implies !((#[trigger] r[k]).to_node == shifted(e.to_node, idx) && r[k].to_input == e.to_input) by {
                let j = choose|j: int| 0 <= j < rest.len() && (#[trigger] r[k]).to_node == shifted(rest[j].to_node, idx) && r[k].to_input == rest[j].to_input && rest[j].to_node != idx;
                assert(wires[j] == rest[j]);
                if r[k].to_node == shifted(e.to_node, idx) && r[k].to_input == e.to_input {
                    lemma_shift_injective(rest[j].to_node, e.to_node, idx);
                    assert(wires[j].to_node == wires[wires.len() - 1].to_node);
                }
            }
            assert forall|k: int| 0 <= k < w.len() implies exists|j: int| 0 <= j < wires.len() && (#[trigger] w[k]).to_node
                == shifted(wires[j].to_node, idx) && w[k].to_input == wires[j].to_input && wires[j].to_node != idx by {
                if k < r.len() {
                    let j = choose|j: int| 0 <= j < rest.len() && (#[trigger] r[k]).to_node == shifted(rest[j].to_node, idx) && r[k].to_input == rest[j].to_input && rest[j].to_node != idx;
                    assert(wires[j] == rest[j]);
                } else {
                    assert(w[k].to_node == shifted(wires[wires.len() - 1].to_node, idx));
                }
            }
        } else {
            assert forall|k: int| 0 <= k < w.len() implies exists|j: int| 0 <= j < wires.len() && (#[trigger] w[k]).to_node
                == shifted(wires[j].to_node, idx) && w[k].to_input == wires[j].to_input && wires[j].to_node != idx by {
                let j = choose|j: int| 0 <= j < rest.len() && (#[trigger] r[k]).to_node == shifted(rest[j].to_node, idx) && r[k].to_input == rest[j].to_input && rest[j].to_node != idx;
                assert(wires[j] == rest[j]);
            }
        }
    }
}

} // verus!
