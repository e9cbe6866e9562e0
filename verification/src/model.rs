//! What a pass over the scene does, stated on sequences.
//!
//! A pass is a list of [`Step`]s, carried out one after the other. The steps of a
//! marked root name the nodes of its subtree in depth-first order, parent before
//! children, children in the order in which the scene lists them, each with the
//! settings of the root's marker.

use vstd::prelude::*;
use bevy::pbr::StandardMaterial;
use crate::materials::BaseMaterialId;
use crate::materials::ComposedMaterial;
use crate::scene::Node;
use crate::settings::LineBoilMaterial;
use crate::settings::LineBoilSettings;

verus! {

/// The world as a pass sees it: what the nodes carry, and the composed materials.
pub struct World {
    pub nodes: Seq<Node>,
    pub materials: Seq<ComposedMaterial>,
}

/// One visit: a node, and the settings to give it.
pub struct Step {
    pub node: usize,
    pub settings: LineBoilSettings,
}

/// Whether a visit converts the node: it has a base material that the store can
/// resolve, and it has not been converted before.
pub open spec fn convertible(node: Node, bases: Map<BaseMaterialId, StandardMaterial>) -> bool {
    &&& !node.applied
    &&& node.base_material.is_some()
    &&& bases.dom().contains(node.base_material.unwrap())
}

/// The node after its conversion: tagged, with the composed material `handle` in
/// place of its base material.
pub open spec fn converted(node: Node, handle: usize) -> Node {
    Node { base_material: None, line_boil_material: Some(handle), applied: true, ..node }
}

/// The composed material that a conversion of `node` makes.
pub open spec fn composed(
    node: Node,
    bases: Map<BaseMaterialId, StandardMaterial>,
    settings: LineBoilSettings,
) -> ComposedMaterial {
    ComposedMaterial {
        base: bases[node.base_material.unwrap()],
        extension: LineBoilMaterial { settings },
    }
}

/// The world after one visit. A convertible node is converted, and its composed
/// material is added behind those that exist; anything else leaves the world as
/// it is.
pub open spec fn visit(
    world: World,
    bases: Map<BaseMaterialId, StandardMaterial>,
    step: Step,
) -> World {
    if step.node < world.nodes.len() && convertible(world.nodes[step.node as int], bases) {
        World {
            nodes: world.nodes.update(
                step.node as int,
                converted(world.nodes[step.node as int], world.materials.len() as usize),
            ),
            materials: world.materials.push(
                composed(world.nodes[step.node as int], bases, step.settings),
            ),
        }
    } else {
        world
    }
}

/// The world after the visits of `steps`, first to last.
pub open spec fn run(
    world: World,
    bases: Map<BaseMaterialId, StandardMaterial>,
    steps: Seq<Step>,
) -> World
    decreases steps.len(),
{
    if steps.len() == 0 {
        world
    } else {
        visit(run(world, bases, steps.drop_last()), bases, steps.last())
    }
}

/// The nodes beneath the first `k` children of `n`, in depth-first order.
pub open spec fn subtrees(children: Seq<Seq<usize>>, n: usize, k: int) -> Seq<usize>
    decreases children.len() - n, k,
{
    if n < children.len() && 0 < k <= children[n as int].len() {
        let child = children[n as int][k - 1];
        if n < child < children.len() {
            subtrees(children, n, k - 1) + subtree(children, child)
        } else {
            subtrees(children, n, k - 1)
        }
    } else {
        Seq::empty()
    }
}

/// The node `n` and the nodes beneath it, in depth-first order; empty where `n` is
/// not a node.
pub open spec fn subtree(children: Seq<Seq<usize>>, n: usize) -> Seq<usize>
    decreases children.len() - n,
        if n < children.len() {
            children[n as int].len() + 1
        } else {
            0
        },
{
    if n < children.len() {
        seq![n] + subtrees(children, n, children[n as int].len() as int)
    } else {
        Seq::empty()
    }
}

/// A visit of each node of `order` with the same settings.
pub open spec fn steps(order: Seq<usize>, settings: LineBoilSettings) -> Seq<Step> {
    Seq::new(order.len(), |j: int| Step { node: order[j], settings })
}

/// The steps of the marked roots among the first `i` nodes, root after root.
pub open spec fn plan_upto(nodes: Seq<Node>, children: Seq<Seq<usize>>, i: int) -> Seq<Step>
    decreases i,
{
    if i <= 0 {
        Seq::empty()
    } else {
        plan_upto(nodes, children, i - 1) + root_steps(nodes, children, i - 1)
    }
}

/// The steps of the node `i`: those of its subtree where it carries a marker,
/// none where it does not.
pub open spec fn root_steps(nodes: Seq<Node>, children: Seq<Seq<usize>>, i: int) -> Seq<Step> {
    if 0 <= i < nodes.len() && nodes[i].marker.is_some() {
        steps(subtree(children, i as usize), nodes[i].marker.unwrap().settings)
    } else {
        Seq::empty()
    }
}

/// The steps of a whole pass: every marked root in the order of the indices.
pub open spec fn plan(nodes: Seq<Node>, children: Seq<Seq<usize>>) -> Seq<Step> {
    plan_upto(nodes, children, nodes.len() as int)
}

/// The world after a traversal: the run of the plan that the markers of the
/// world and the hierarchy give.
pub open spec fn traversed(
    world: World,
    children: Seq<Seq<usize>>,
    bases: Map<BaseMaterialId, StandardMaterial>,
) -> World {
    run(world, bases, plan(world.nodes, children))
}

} // verus!
