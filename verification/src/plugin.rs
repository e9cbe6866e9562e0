//! The three stages of a tick, in their order.

use vstd::prelude::*;
use bevy::pbr::StandardMaterial;
use crate::cleanup::cleaned;
use crate::cleanup::cleanup_old_materials;
use crate::materials::stored_materials;
use crate::materials::BaseMaterialId;
use crate::materials::BaseMaterials;
use crate::materials::ComposedMaterials;
use crate::model::traversed;
use crate::model::World;
use crate::scene::Scene;
use crate::time::stamped;
use crate::time::update_line_boil_time;
use crate::traversal::apply_line_boil_to_marked_entities;
use crate::traversal::world_of;

verus! {

/// The world after a whole tick: the traversal, then the cleanup, then the new
/// time in every composed material.
pub open spec fn ticked(
    world: World,
    children: Seq<Seq<usize>>,
    bases: Map<BaseMaterialId, StandardMaterial>,
    time: u32,
) -> World {
    World {
        nodes: cleaned(traversed(world, children, bases).nodes),
        materials: stamped(traversed(world, children, bases).materials, time),
    }
}

/// Plugin that adds line boil effect support.
///
/// Add a [`crate::settings::LineBoil`] marker to a node to apply the effect to
/// all meshes beneath it, and call [`LineBoilPlugin::update`] once per frame, with the elapsed time.
#[derive(Clone, Copy, Debug, Default)]
pub struct LineBoilPlugin;

impl LineBoilPlugin {
    /// Runs one tick: the traversal, then the cleanup, which thereby sees the
    /// nodes that the traversal has just converted, then the update of the time
    /// to `time`.
    pub fn update(
        &self,
        scene: &mut Scene,
        standard_materials: &BaseMaterials,
        line_boil_materials: &mut ComposedMaterials,
        time: u32,
    )
        ensures
            old(scene).well_formed() ==> final(scene).well_formed(),
            final(scene)@.children == old(scene)@.children,
            world_of(*final(scene), *final(line_boil_materials)) == ticked(
                world_of(*old(scene), *old(line_boil_materials)),
                old(scene)@.children,
                stored_materials(*standard_materials),
                time,
            ),
            forall|i: int|
                0 <= i < final(scene)@.nodes.len() ==> !((#[trigger] final(scene)@.nodes[i]).applied
                    && final(scene)@.nodes[i].base_material.is_some()),
            forall|h: int|
                0 <= h < final(line_boil_materials)@.len() ==> (#[trigger] final(line_boil_materials)@[h]).extension.settings.time
                    == time,
    {
        apply_line_boil_to_marked_entities(scene, standard_materials, line_boil_materials);
        cleanup_old_materials(scene);
        update_line_boil_time(time, line_boil_materials);
    }
}

} // verus!
