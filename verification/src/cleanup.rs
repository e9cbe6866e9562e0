//! The cleanup: drops base material references from nodes that were converted.
//!
//! The host may attach a base material to a node again after the node was
//! converted, for instance while it instantiates a scene that is still loading.
//! Left alone, such a node would carry two materials.

use vstd::prelude::*;
use crate::scene::Node;
use crate::scene::Scene;

verus! {

/// The node without its base material where it is tagged; the node as it is
/// where it is not.
pub open spec fn cleaned_node(node: Node) -> Node {
    if node.applied {
        Node { base_material: None, ..node }
    } else {
        node
    }
}

/// The nodes after the cleanup.
pub open spec fn cleaned(nodes: Seq<Node>) -> Seq<Node> {
    Seq::new(nodes.len(), |i: int| cleaned_node(nodes[i]))
}

/// Removes any leftover base material from the nodes that have been processed.
pub fn cleanup_old_materials(scene: &mut Scene)
    ensures
        final(scene)@.nodes == cleaned(old(scene)@.nodes),
        final(scene)@.children == old(scene)@.children,
        old(scene).well_formed() ==> final(scene).well_formed(),
        forall|i: int|
            0 <= i < final(scene)@.nodes.len() ==> !((#[trigger] final(scene)@.nodes[i]).applied
                && final(scene)@.nodes[i].base_material.is_some()),
{
    let total = scene.len();
    let mut entity: usize = 0;
    while entity < total
        invariant
            entity <= total,
            total == old(scene)@.nodes.len(),
            scene@.nodes.len() == total,
            scene@.children == old(scene)@.children,
            old(scene).well_formed() ==> scene.well_formed(),
            forall|i: int|
                0 <= i < entity ==> #[trigger] scene@.nodes[i] == cleaned_node(
                    old(scene)@.nodes[i],
                ),
            forall|i: int|
                entity <= i < total ==> #[trigger] scene@.nodes[i] == old(scene)@.nodes[i],
        decreases total - entity,
    {
        let node = scene.node(entity).unwrap();
        if node.applied && node.base_material.is_some() {
            scene.set_node(
                entity,
                Node {
                    marker: node.marker,
                    base_material: None,
                    line_boil_material: node.line_boil_material,
                    applied: node.applied,
                },
            );
        }
        entity += 1;
    }
    assert(scene@.nodes =~= cleaned(old(scene)@.nodes));
}

} // verus!
