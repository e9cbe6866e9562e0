//! What holds of every traversal and of every tick, proved from the definitions
//! of the model.

use vstd::prelude::*;
use bevy::pbr::StandardMaterial;
use crate::cleanup::cleaned;
use crate::cleanup::cleaned_node;
use crate::descent::lemma_beneath_is_node;
use crate::materials::timed;
use crate::materials::BaseMaterialId;
use crate::model::composed;
use crate::model::converted;
use crate::model::convertible;
use crate::model::plan;
use crate::model::run;
use crate::model::traversed;
use crate::model::World;
use crate::plugin::ticked;
use crate::runs::converted_to;
use crate::runs::first_to_reach;
use crate::runs::lemma_claim_plan;
use crate::runs::lemma_plan_reads_markers;
use crate::runs::lemma_run_distinct;
use crate::runs::lemma_run_keeps;
use crate::runs::lemma_run_outcome;
use crate::runs::lemma_run_owned;
use crate::runs::lemma_run_settled;
use crate::runs::lemma_run_settles;
use crate::runs::lemma_run_untouched;
use crate::runs::reaches;
use crate::scene::Node;
use crate::scene::SceneView;

verus! {

/// A second traversal of an unchanged scene, with the store of base
/// materials unchanged, converts nothing and adds no composed material.
pub proof fn law_traversal_idempotent(
    world: World,
    children: Seq<Seq<usize>>,
    bases: Map<BaseMaterialId, StandardMaterial>,
)
    ensures
        traversed(traversed(world, children, bases), children, bases) == traversed(
            world,
            children,
            bases,
        ),
{
    let todo = plan(world.nodes, children);
    let once = run(world, bases, todo);
    lemma_run_keeps(world, bases, todo);
    lemma_plan_reads_markers(once.nodes, world.nodes, children, world.nodes.len() as int);
    lemma_run_settles(world, bases, todo);
    lemma_run_settled(once, bases, todo);
}

/// What the traversal makes of a convertible node beneath a marker: the node is
/// tagged and has lost its base material, and its handle leads to a composed
/// material, made in this traversal, of the snapshot of its base material and the
/// settings of the first marked node above it.
pub proof fn law_traversal_converts(
    world: World,
    children: Seq<Seq<usize>>,
    bases: Map<BaseMaterialId, StandardMaterial>,
    root: usize,
    n: usize,
)
    requires
        (SceneView { nodes: world.nodes, children }).well_formed(),
        first_to_reach(world.nodes, children, root, n),
        convertible(world.nodes[n as int], bases),
        traversed(world, children, bases).materials.len() <= usize::MAX,
    ensures
        ({
            let after = traversed(world, children, bases);
            let handle = after.nodes[n as int].line_boil_material.unwrap();
            &&& after.nodes[n as int] == converted(world.nodes[n as int], handle)
            &&& world.materials.len() <= handle < after.materials.len()
            &&& after.materials[handle as int] == composed(
                world.nodes[n as int],
                bases,
                world.nodes[root as int].marker.unwrap().settings,
            )
        }),
{
    let todo = plan(world.nodes, children);
    lemma_beneath_is_node(children, root, n);
    lemma_claim_plan(world.nodes, children, world.nodes.len() as int, n);
    lemma_run_outcome(world, bases, todo, n);
}

/// The traversal leaves alone every node that is not convertible, and every node
/// that lies beneath no marker.
pub proof fn law_traversal_spares(
    world: World,
    children: Seq<Seq<usize>>,
    bases: Map<BaseMaterialId, StandardMaterial>,
    n: usize,
)
    requires
        (SceneView { nodes: world.nodes, children }).well_formed(),
        n < world.nodes.len(),
        !convertible(world.nodes[n as int], bases) || forall|m: usize|
            !reaches(world.nodes, children, m, n),
    ensures
        traversed(world, children, bases).nodes[n as int] == world.nodes[n as int],
{
    let todo = plan(world.nodes, children);
    lemma_run_keeps(world, bases, todo);
    if convertible(world.nodes[n as int], bases) {
        lemma_claim_plan(world.nodes, children, world.nodes.len() as int, n);
        lemma_run_untouched(world, bases, todo, n);
    }
}

/// By the end of a tick, every node that lies beneath a marked
/// root, had a base material that the store could resolve and was not tagged
/// carries the tag and a composed material. The material holds the snapshot of
/// the base material and, but for the time, the settings of the first marked node
/// above the node; its time is that of the tick.
pub proof fn law_tick_converts(
    world: World,
    children: Seq<Seq<usize>>,
    bases: Map<BaseMaterialId, StandardMaterial>,
    time: u32,
    root: usize,
    n: usize,
)
    requires
        (SceneView { nodes: world.nodes, children }).well_formed(),
        first_to_reach(world.nodes, children, root, n),
        convertible(world.nodes[n as int], bases),
        ticked(world, children, bases, time).materials.len() <= usize::MAX,
    ensures
        ({
            let after = ticked(world, children, bases, time);
            let handle = after.nodes[n as int].line_boil_material.unwrap();
            let settings = world.nodes[root as int].marker.unwrap().settings;
            &&& after.nodes[n as int] == converted(world.nodes[n as int], handle)
            &&& world.materials.len() <= handle < after.materials.len()
            &&& after.materials[handle as int].base == bases[world.nodes[n as int].base_material.unwrap()]
            &&& after.materials[handle as int].extension.settings == settings.at_time(time)
            &&& after.materials[handle as int].extension.settings.same_look(settings)
        }),
{
    law_traversal_converts(world, children, bases, root, n);
    lemma_beneath_is_node(children, root, n);
    lemma_run_keeps(world, bases, plan(world.nodes, children));
}

/// Every mesh beneath a marker ends the tick tagged: a node that lies beneath a
/// marked node and has a base material that the store can resolve is tagged
/// after the tick and has no base material, whether it was tagged before or not.
pub proof fn law_tick_tags_meshes(
    world: World,
    children: Seq<Seq<usize>>,
    bases: Map<BaseMaterialId, StandardMaterial>,
    time: u32,
    root: usize,
    n: usize,
)
    requires
        (SceneView { nodes: world.nodes, children }).well_formed(),
        reaches(world.nodes, children, root, n),
        world.nodes[n as int].base_material.is_some(),
        bases.dom().contains(world.nodes[n as int].base_material.unwrap()),
        ticked(world, children, bases, time).materials.len() <= usize::MAX,
    ensures
        ticked(world, children, bases, time).nodes[n as int].applied,
        ticked(world, children, bases, time).nodes[n as int].base_material.is_none(),
{
    let todo = plan(world.nodes, children);
    lemma_beneath_is_node(children, root, n);
    lemma_run_keeps(world, bases, todo);
    lemma_claim_plan(world.nodes, children, world.nodes.len() as int, n);
    lemma_run_outcome(world, bases, todo, n);
}

/// Where the root is the only marked node that a convertible node lies beneath,
/// the composed material that the traversal gives the node has the settings of
/// the root's marker, however deep the node lies.
pub proof fn law_settings_propagate(
    world: World,
    children: Seq<Seq<usize>>,
    bases: Map<BaseMaterialId, StandardMaterial>,
    root: usize,
    n: usize,
)
    requires
        (SceneView { nodes: world.nodes, children }).well_formed(),
        reaches(world.nodes, children, root, n),
        forall|m: usize| reaches(world.nodes, children, m, n) ==> m == root,
        convertible(world.nodes[n as int], bases),
        traversed(world, children, bases).materials.len() <= usize::MAX,
    ensures
        ({
            let after = traversed(world, children, bases);
            let handle = after.nodes[n as int].line_boil_material.unwrap();
            &&& after.nodes[n as int].applied
            &&& handle < after.materials.len()
            &&& after.materials[handle as int].extension.settings
                == world.nodes[root as int].marker.unwrap().settings
        }),
{
    law_traversal_converts(world, children, bases, root, n);
}

/// After a tick no node carries both the tag and a base material.
pub proof fn law_no_double_reference(
    world: World,
    children: Seq<Seq<usize>>,
    bases: Map<BaseMaterialId, StandardMaterial>,
    time: u32,
)
    ensures
        forall|i: int|
            0 <= i < ticked(world, children, bases, time).nodes.len() ==> !((#[trigger] ticked(
                world,
                children,
                bases,
                time,
            ).nodes[i]).applied && ticked(world, children, bases, time).nodes[i].base_material.is_some()),
{
}

/// A node beneath a marker whose base material the store cannot resolve at one
/// tick is left as it is by that tick, still untagged; if the store can resolve
/// the material at the next tick, the node is converted by that tick, with a
/// composed material made in it.
pub proof fn law_deferred_resolution(
    world: World,
    children: Seq<Seq<usize>>,
    earlier: Map<BaseMaterialId, StandardMaterial>,
    later: Map<BaseMaterialId, StandardMaterial>,
    first_time: u32,
    second_time: u32,
    root: usize,
    n: usize,
)
    requires
        (SceneView { nodes: world.nodes, children }).well_formed(),
        first_to_reach(world.nodes, children, root, n),
        !world.nodes[n as int].applied,
        world.nodes[n as int].base_material.is_some(),
        !earlier.dom().contains(world.nodes[n as int].base_material.unwrap()),
        later.dom().contains(world.nodes[n as int].base_material.unwrap()),
        ticked(
            ticked(world, children, earlier, first_time),
            children,
            later,
            second_time,
        ).materials.len() <= usize::MAX,
    ensures
        ({
            let between = ticked(world, children, earlier, first_time);
            let after = ticked(between, children, later, second_time);
            let handle = after.nodes[n as int].line_boil_material.unwrap();
            &&& between.nodes[n as int] == world.nodes[n as int]
            &&& after.nodes[n as int] == converted(world.nodes[n as int], handle)
            &&& between.materials.len() <= handle < after.materials.len()
            &&& after.materials[handle as int].base == later[world.nodes[n as int].base_material.unwrap()]
            &&& after.materials[handle as int].extension.settings
                == world.nodes[root as int].marker.unwrap().settings.at_time(second_time)
        }),
{
    let between = ticked(world, children, earlier, first_time);
    lemma_beneath_is_node(children, root, n);
    lemma_run_keeps(world, earlier, plan(world.nodes, children));
    law_traversal_spares(world, children, earlier, n);
    assert(between.nodes[n as int] == world.nodes[n as int]);
    assert forall|m: usize| reaches(between.nodes, children, m, n) == reaches(
        world.nodes,
        children,
        m,
        n,
    ) by {
        if m < world.nodes.len() {
            assert(between.nodes[m as int].marker == world.nodes[m as int].marker);
        }
    }
    assert(first_to_reach(between.nodes, children, root, n));
    law_tick_converts(between, children, later, second_time, root, n);
}

/// After a tick the time of every composed material, old or new, is the time
/// that the tick was given.
pub proof fn law_time_is_stamped(
    world: World,
    children: Seq<Seq<usize>>,
    bases: Map<BaseMaterialId, StandardMaterial>,
    time: u32,
)
    ensures
        forall|h: int|
            0 <= h < ticked(world, children, bases, time).materials.len() ==> (#[trigger] ticked(
                world,
                children,
                bases,
                time,
            ).materials[h]).extension.settings.time == time,
{
}

/// The world after one tick for each of `times`, in their order, with the store
/// of base materials holding `bases[i]` at the tick of `times[i]`.
pub open spec fn after_ticks(
    world: World,
    children: Seq<Seq<usize>>,
    bases: Seq<Map<BaseMaterialId, StandardMaterial>>,
    times: Seq<u32>,
) -> World
    decreases times.len(),
{
    if times.len() == 0 || bases.len() != times.len() {
        world
    } else {
        ticked(
            after_ticks(world, children, bases.drop_last(), times.drop_last()),
            children,
            bases.last(),
            times.last(),
        )
    }
}

/// After the tick of `times[i]` every composed material has the time
/// `times[i]`. Nothing is asked of the times; the host's are never smaller than
/// the ones before.
pub proof fn law_time_follows_host(
    world: World,
    children: Seq<Seq<usize>>,
    bases: Seq<Map<BaseMaterialId, StandardMaterial>>,
    times: Seq<u32>,
    i: int,
)
    requires
        bases.len() == times.len(),
        0 <= i < times.len(),
    ensures
        forall|h: int|
            0 <= h < after_ticks(world, children, bases.take(i + 1), times.take(i + 1)).materials.len()
                ==> (#[trigger] after_ticks(
                world,
                children,
                bases.take(i + 1),
                times.take(i + 1),
            ).materials[h]).extension.settings.time == times[i],
{
    assert(times.take(i + 1).last() == times[i]);
}

/// Settings are frozen: a tick keeps every composed material that exists, with
/// its base and its settings; only the time is new.
pub proof fn law_settings_frozen(
    world: World,
    children: Seq<Seq<usize>>,
    bases: Map<BaseMaterialId, StandardMaterial>,
    time: u32,
    handle: int,
)
    requires
        0 <= handle < world.materials.len(),
    ensures
        handle < ticked(world, children, bases, time).materials.len(),
        ticked(world, children, bases, time).materials[handle] == timed(
            world.materials[handle],
            time,
        ),
        ticked(world, children, bases, time).materials[handle].extension.settings.same_look(
            world.materials[handle].extension.settings,
        ),
{
    lemma_run_keeps(world, bases, plan(world.nodes, children));
}

/// Tags stay: a node that is tagged before a tick is tagged after it, with the
/// marker and the composed material that it had.
pub proof fn law_tags_stay(
    world: World,
    children: Seq<Seq<usize>>,
    bases: Map<BaseMaterialId, StandardMaterial>,
    time: u32,
    n: int,
)
    requires
        0 <= n < world.nodes.len(),
        world.nodes[n].applied,
    ensures
        ticked(world, children, bases, time).nodes[n] == cleaned_node(world.nodes[n]),
{
    lemma_run_keeps(world, bases, plan(world.nodes, children));
}

/// Materials are not shared: two nodes that the traversal converts get two
/// composed materials, also where their settings and base materials agree.
pub proof fn law_materials_not_shared(
    world: World,
    children: Seq<Seq<usize>>,
    bases: Map<BaseMaterialId, StandardMaterial>,
    above_a: usize,
    a: usize,
    above_b: usize,
    b: usize,
)
    requires
        (SceneView { nodes: world.nodes, children }).well_formed(),
        a != b,
        reaches(world.nodes, children, above_a, a),
        reaches(world.nodes, children, above_b, b),
        convertible(world.nodes[a as int], bases),
        convertible(world.nodes[b as int], bases),
        traversed(world, children, bases).materials.len() <= usize::MAX,
    ensures
        traversed(world, children, bases).nodes[a as int].line_boil_material != traversed(
            world,
            children,
            bases,
        ).nodes[b as int].line_boil_material,
{
    lemma_beneath_is_node(children, above_a, a);
    lemma_beneath_is_node(children, above_b, b);
    lemma_claim_plan(world.nodes, children, world.nodes.len() as int, a);
    lemma_claim_plan(world.nodes, children, world.nodes.len() as int, b);
    lemma_run_distinct(world, bases, plan(world.nodes, children), a, b);
}

/// Whether every tagged node has a handle that leads to a composed material.
pub open spec fn linked(world: World) -> bool {
    forall|i: int|
        0 <= i < world.nodes.len() && (#[trigger] world.nodes[i]).applied ==> {
            &&& world.nodes[i].line_boil_material.is_some()
            &&& world.nodes[i].line_boil_material.unwrap() < world.materials.len()
        }
}

/// Links hold: where every tagged node has a composed material before a tick,
/// every tagged node has one after it.
pub proof fn law_tick_keeps_links(
    world: World,
    children: Seq<Seq<usize>>,
    bases: Map<BaseMaterialId, StandardMaterial>,
    time: u32,
)
    requires
        (SceneView { nodes: world.nodes, children }).well_formed(),
        linked(world),
        ticked(world, children, bases, time).materials.len() <= usize::MAX,
    ensures
        linked(ticked(world, children, bases, time)),
{
    let todo = plan(world.nodes, children);
    let after = ticked(world, children, bases, time);
    lemma_run_keeps(world, bases, todo);
    assert forall|i: int| 0 <= i < after.nodes.len() && (#[trigger] after.nodes[i]).applied implies {
        &&& after.nodes[i].line_boil_material.is_some()
        &&& after.nodes[i].line_boil_material.unwrap() < after.materials.len()
    } by {
        lemma_run_outcome(world, bases, todo, i as usize);
    }
}

/// Markers stay: a tick adds no node and removes none, and changes no marker.
pub proof fn law_markers_stay(
    world: World,
    children: Seq<Seq<usize>>,
    bases: Map<BaseMaterialId, StandardMaterial>,
    time: u32,
)
    ensures
        ticked(world, children, bases, time).nodes.len() == world.nodes.len(),
        forall|i: int|
            0 <= i < world.nodes.len() ==> (#[trigger] ticked(
                world,
                children,
                bases,
                time,
            ).nodes[i]).marker == world.nodes[i].marker,
{
    lemma_run_keeps(world, bases, plan(world.nodes, children));
}

/// One material for each conversion: every composed material that the traversal
/// adds is held by a node that was untagged before the traversal and is tagged
/// after it.
pub proof fn law_materials_owned(
    world: World,
    children: Seq<Seq<usize>>,
    bases: Map<BaseMaterialId, StandardMaterial>,
    handle: int,
)
    requires
        world.materials.len() <= handle < traversed(world, children, bases).materials.len(),
        traversed(world, children, bases).materials.len() <= usize::MAX,
    ensures
        exists|n: int| converted_to(world, traversed(world, children, bases), n, handle),
{
    lemma_run_owned(world, bases, plan(world.nodes, children), handle);
}

/// The cleanup is idempotent: a second cleanup finds nothing to remove.
pub proof fn law_cleanup_idempotent(nodes: Seq<Node>)
    ensures
        cleaned(cleaned(nodes)) == cleaned(nodes),
{
    assert(cleaned(cleaned(nodes)) =~= cleaned(nodes));
}

} // verus!
