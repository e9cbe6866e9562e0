//! The scene graph the effect works on: an arena of nodes addressed by index,
//! with the parent-to-children adjacency kept beside the nodes.

use vstd::prelude::*;
use crate::materials::BaseMaterialId;
use crate::settings::LineBoil;

verus! {

/// What a node carries, as far as the effect is concerned.
#[derive(Clone, Copy, Debug)]
pub struct Node {
    /// The effect marker: present on the root of a subtree that asks for the effect.
    pub marker: Option<LineBoil>,
    /// The base surface material the node renders with, where it has one.
    pub base_material: Option<BaseMaterialId>,
    /// The composed material installed on the node, by its handle.
    pub line_boil_material: Option<usize>,
    /// The processed tag: set once a composed material was installed.
    pub applied: bool,
}

impl Node {
    /// A node that carries nothing.
    pub open spec fn bare() -> Node {
        Node { marker: None, base_material: None, line_boil_material: None, applied: false }
    }

    /// A node that carries nothing.
    pub fn empty() -> (r: Node)
        ensures
            r == Node::bare(),
    {
        Node { marker: None, base_material: None, line_boil_material: None, applied: false }
    }

    /// A node that carries the marker `line_boil` and nothing else.
    pub fn marked(line_boil: LineBoil) -> (r: Node)
        ensures
            r == (Node { marker: Some(line_boil), ..Node::bare() }),
    {
        Node { marker: Some(line_boil), base_material: None, line_boil_material: None, applied: false }
    }

    /// A mesh node that renders with the base material `id`.
    pub fn mesh(id: BaseMaterialId) -> (r: Node)
        ensures
            r == (Node { base_material: Some(id), ..Node::bare() }),
    {
        Node { marker: None, base_material: Some(id), line_boil_material: None, applied: false }
    }
}

/// Whether every child index is larger than its parent's and inside the arena.
///
/// Children are spawned after their parent, so the index grows along every path:
/// no node is its own descendant.
pub open spec fn hierarchy(children: Seq<Seq<usize>>) -> bool {
    forall|p: int, k: int|
        0 <= p < children.len() && 0 <= k < children[p].len() ==> p < #[trigger] children[p][k]
            < children.len()
}

/// The mathematical content of a [`Scene`].
pub struct SceneView {
    /// What each node carries.
    pub nodes: Seq<Node>,
    /// The children of each node, in the order in which they were spawned.
    pub children: Seq<Seq<usize>>,
}

impl SceneView {
    /// Whether the view is that of some scene.
    pub open spec fn well_formed(self) -> bool {
        &&& self.nodes.len() == self.children.len()
        &&& self.nodes.len() <= usize::MAX
        &&& hierarchy(self.children)
    }
}

/// A node with the list of its children.
struct Slot {
    node: Node,
    children: Vec<usize>,
}

/// A scene graph.
///
/// Nodes are spawned, as roots or beneath a node that exists, and never removed,
/// so every scene is well formed.
pub struct Scene {
    slots: Vec<Slot>,
}

impl View for Scene {
    type V = SceneView;

    closed spec fn view(&self) -> SceneView {
        SceneView {
            nodes: Seq::new(self.slots@.len(), |i: int| self.slots@[i].node),
            children: Seq::new(self.slots@.len(), |i: int| self.slots@[i].children@),
        }
    }
}

impl Scene {
    /// Whether the scene is sound: what `new` establishes and every method keeps.
    pub open spec fn well_formed(&self) -> bool {
        self@.well_formed()
    }

    /// An empty scene.
    pub fn new() -> (r: Scene)
        ensures
            r@.nodes == Seq::<Node>::empty(),
            r@.children == Seq::<Seq<usize>>::empty(),
            r.well_formed(),
    {
        let r = Scene { slots: Vec::new() };
        assert(r@.nodes =~= Seq::<Node>::empty());
        assert(r@.children =~= Seq::<Seq<usize>>::empty());
        r
    }

    /// The number of nodes.
    pub fn len(&self) -> (r: usize)
        ensures
            r == self@.nodes.len(),
            r == self@.children.len(),
    {
        self.slots.len()
    }

    /// Adds a root: a node without a parent. Returns its index.
    pub fn spawn(&mut self, node: Node) -> (id: usize)
        ensures
            id == old(self)@.nodes.len(),
            final(self)@.nodes == old(self)@.nodes.push(node),
            final(self)@.children == old(self)@.children.push(Seq::empty()),
            old(self).well_formed() ==> final(self).well_formed(),
    {
        self.slots.push(Slot { node, children: Vec::new() });
        assert(self@.nodes =~= old(self)@.nodes.push(node));
        assert(self@.children =~= old(self)@.children.push(Seq::empty()));
        self.slots.len() - 1
    }

    /// Adds a child beneath `parent`, behind the children that `parent` already has.
    /// Returns the child's index, or `None`, with the scene unchanged, where
    /// `parent` is not a node.
    pub fn spawn_child(&mut self, parent: usize, node: Node) -> (id: Option<usize>)
        ensures
            parent < old(self)@.nodes.len() ==> {
                &&& id == Some(old(self)@.nodes.len() as usize)
                &&& final(self)@.nodes == old(self)@.nodes.push(node)
                &&& final(self)@.children == old(self)@.children.update(
                    parent as int,
                    old(self)@.children[parent as int].push(old(self)@.nodes.len() as usize),
                ).push(Seq::empty())
            },
            parent >= old(self)@.nodes.len() ==> id.is_none() && final(self)@ == old(self)@,
            old(self).well_formed() ==> final(self).well_formed(),
    {
        if parent >= self.slots.len() {
            return None;
        }
        self.slots.push(Slot { node, children: Vec::new() });
        let id = self.slots.len() - 1;
        self.slots[parent].children.push(id);
        assert(self@.nodes =~= old(self)@.nodes.push(node));
        assert(self@.children =~= old(self)@.children.update(
            parent as int,
            old(self)@.children[parent as int].push(id),
        ).push(Seq::empty()));
        Some(id)
    }

    /// What the node `id` carries, or `None` where `id` is not a node.
    pub fn node(&self, id: usize) -> (r: Option<Node>)
        ensures
            r == (if id < self@.nodes.len() {
                Some(self@.nodes[id as int])
            } else {
                None
            }),
    {
        if id < self.slots.len() {
            Some(self.slots[id].node)
        } else {
            None
        }
    }

    /// Replaces what the node `id` carries. Returns whether `id` is a node; where it
    /// is not, nothing changes.
    pub fn set_node(&mut self, id: usize, node: Node) -> (done: bool)
        ensures
            done == (id < old(self)@.nodes.len()),
            done ==> final(self)@.nodes == old(self)@.nodes.update(id as int, node),
            !done ==> final(self)@.nodes == old(self)@.nodes,
            final(self)@.children == old(self)@.children,
            old(self).well_formed() ==> final(self).well_formed(),
    {
        if id < self.slots.len() {
            self.slots[id].node = node;
            assert(self@.nodes =~= old(self)@.nodes.update(id as int, node));
            assert(self@.children =~= old(self)@.children);
            true
        } else {
            false
        }
    }

    /// The number of children of the node `id`; zero where `id` is not a node.
    pub fn child_count(&self, id: usize) -> (r: usize)
        ensures
            r == (if id < self@.children.len() {
                self@.children[id as int].len()
            } else {
                0
            }),
    {
        if id < self.slots.len() {
            self.slots[id].children.len()
        } else {
            0
        }
    }

    /// The child of `id` at position `k`, or `None` where there is none.
    pub fn child(&self, id: usize, k: usize) -> (r: Option<usize>)
        ensures
            r == (if id < self@.children.len() && k < self@.children[id as int].len() {
                Some(self@.children[id as int][k as int])
            } else {
                None
            }),
    {
        if id < self.slots.len() && k < self.slots[id].children.len() {
            Some(self.slots[id].children[k])
        } else {
            None
        }
    }
}

} // verus!
