//! The traversal: walks the subtree of every marked root and converts the meshes
//! it finds.

use vstd::prelude::*;
use crate::materials::stored_materials;
use crate::materials::BaseMaterials;
use crate::materials::ComposedMaterial;
use crate::materials::ComposedMaterials;
use crate::model::plan_upto;
use crate::model::root_steps;
use crate::model::run;
use crate::model::steps;
use crate::model::subtree;
use crate::model::subtrees;
use crate::model::traversed;
use crate::model::Step;
use crate::model::World;
use crate::runs::lemma_run_concat;
use crate::runs::lemma_run_keeps;
use crate::runs::lemma_run_one;
use crate::scene::Node;
use crate::scene::Scene;
use crate::settings::LineBoil;
use crate::settings::LineBoilMaterial;

verus! {

/// The world that a scene and a store of composed materials make up.
pub open spec fn world_of(scene: Scene, materials: ComposedMaterials) -> World {
    World { nodes: scene@.nodes, materials: materials@ }
}

/// If this node has a mesh with a base material that has not been processed,
/// replaces it; then does the same beneath each child, with the same marker.
///
/// The material is replaced only where the store can resolve it. Where it cannot,
/// the node stays as it is, and the next traversal tries again.
pub fn traverse_and_replace_materials(
    entity: usize,
    line_boil: &LineBoil,
    scene: &mut Scene,
    standard_materials: &BaseMaterials,
    line_boil_materials: &mut ComposedMaterials,
)
    ensures
        final(scene)@.children == old(scene)@.children,
        old(scene).well_formed() ==> final(scene).well_formed(),
        world_of(*final(scene), *final(line_boil_materials)) == run(
            world_of(*old(scene), *old(line_boil_materials)),
            stored_materials(*standard_materials),
            steps(subtree(old(scene)@.children, entity), line_boil.settings),
        ),
    decreases old(scene)@.nodes.len() - entity,
{
    let ghost bases = stored_materials(*standard_materials);
    let ghost start = world_of(*scene, *line_boil_materials);
    let ghost children = scene@.children;
    let ghost here = Step { node: entity, settings: line_boil.settings };
    let total = scene.len();
    match scene.node(entity) {
        Some(node) => {
            if !node.applied {
                if let Some(id) = node.base_material {
                    if let Some(base) = standard_materials.snapshot(id) {
                        let extended = ComposedMaterial {
                            base,
                            extension: LineBoilMaterial { settings: line_boil.settings },
                        };
                        let new_handle = line_boil_materials.add(extended);
                        scene.set_node(
                            entity,
                            Node {
                                marker: node.marker,
                                base_material: None,
                                line_boil_material: Some(new_handle),
                                applied: true,
                            },
                        );
                    }
                }
            }
        },
        None => {
            assert(steps(subtree(children, entity), line_boil.settings) =~= Seq::<Step>::empty());
            return ;
        },
    }
    proof {
        lemma_run_one(start, bases, here);
        assert(steps(seq![entity] + subtrees(children, entity, 0), line_boil.settings) =~= seq![here]);
    }
    let count = scene.child_count(entity);
    let mut k: usize = 0;
    while k < count
        invariant
            k <= count,
            count == children[entity as int].len(),
            entity < children.len(),
            total == children.len(),
            scene@.children == children,
            scene@.nodes.len() == total,
            children == old(scene)@.children,
            total == old(scene)@.nodes.len(),
            old(scene).well_formed() ==> scene.well_formed(),
            bases == stored_materials(*standard_materials),
            start == world_of(*old(scene), *old(line_boil_materials)),
            world_of(*scene, *line_boil_materials) == run(
                start,
                bases,
                steps(seq![entity] + subtrees(children, entity, k as int), line_boil.settings),
            ),
        decreases count - k,
    {
        let ghost before = world_of(*scene, *line_boil_materials);
        let ghost done = seq![entity] + subtrees(children, entity, k as int);
        let child = scene.child(entity, k).unwrap();
        // In a sound scene every child lies behind its parent. One that does not is
        // passed over, so that the walk ends whatever the scene holds.
        if entity < child && child < total {
            traverse_and_replace_materials(
                child,
                line_boil,
                scene,
                standard_materials,
                line_boil_materials,
            );
            proof {
                let below = subtree(children, child);
                lemma_run_keeps(before, bases, steps(below, line_boil.settings));
                lemma_run_concat(
                    start,
                    bases,
                    steps(done, line_boil.settings),
                    steps(below, line_boil.settings),
                );
                assert(steps(done + below, line_boil.settings) =~= steps(done, line_boil.settings)
                    + steps(below, line_boil.settings));
                assert(seq![entity] + subtrees(children, entity, k + 1) =~= done + below);
            }
        }
        k += 1;
    }
}

/// Replaces the base material by a composed material on every mesh beneath a
/// marked node. Meant to run every frame, so that meshes that appear beneath a
/// marker after it was placed are caught, and so are materials that the store
/// could not resolve before.
pub fn apply_line_boil_to_marked_entities(
    scene: &mut Scene,
    standard_materials: &BaseMaterials,
    line_boil_materials: &mut ComposedMaterials,
)
    ensures
        final(scene)@.children == old(scene)@.children,
        old(scene).well_formed() ==> final(scene).well_formed(),
        world_of(*final(scene), *final(line_boil_materials)) == traversed(
            world_of(*old(scene), *old(line_boil_materials)),
            old(scene)@.children,
            stored_materials(*standard_materials),
        ),
{
    let ghost bases = stored_materials(*standard_materials);
    let ghost start = world_of(*scene, *line_boil_materials);
    let ghost children = scene@.children;
    let total = scene.len();
    let mut root_entity: usize = 0;
    while root_entity < total
        invariant
            root_entity <= total,
            total == start.nodes.len(),
            old(scene).well_formed() ==> scene.well_formed(),
            scene@.children == children,
            scene@.nodes.len() == start.nodes.len(),
            forall|i: int|
                0 <= i < start.nodes.len() ==> (#[trigger] scene@.nodes[i]).marker
                    == start.nodes[i].marker,
            bases == stored_materials(*standard_materials),
            world_of(*scene, *line_boil_materials) == run(
                start,
                bases,
                plan_upto(start.nodes, children, root_entity as int),
            ),
        decreases total - root_entity,
    {
        let ghost before = world_of(*scene, *line_boil_materials);
        let ghost done = plan_upto(start.nodes, children, root_entity as int);
        let ghost more = root_steps(start.nodes, children, root_entity as int);
        let node = scene.node(root_entity).unwrap();
        match node.marker {
            Some(line_boil) => {
                traverse_and_replace_materials(
                    root_entity,
                    &line_boil,
                    scene,
                    standard_materials,
                    line_boil_materials,
                );
                proof {
                    lemma_run_keeps(before, bases, more);
                    lemma_run_concat(start, bases, done, more);
                }
            },
            None => {
                assert(done + more =~= done);
            },
        }
        root_entity += 1;
    }
}

} // verus!
