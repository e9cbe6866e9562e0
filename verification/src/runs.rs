//! Runs of steps: how they compose, what they keep, and what they make of each
//! node.

use vstd::prelude::*;
use bevy::pbr::StandardMaterial;
use crate::descent::beneath;
use crate::descent::lemma_subtree_is_descent;
use crate::materials::BaseMaterialId;
use crate::model::composed;
use crate::model::converted;
use crate::model::convertible;
use crate::model::plan_upto;
use crate::model::root_steps;
use crate::model::run;
use crate::model::steps;
use crate::model::subtree;
use crate::model::visit;
use crate::model::Step;
use crate::model::World;
use crate::scene::hierarchy;
use crate::scene::Node;
use crate::settings::LineBoilSettings;

verus! {

/// Visits added behind visits are carried out behind them.
pub proof fn lemma_run_concat(
    world: World,
    bases: Map<BaseMaterialId, StandardMaterial>,
    first: Seq<Step>,
    second: Seq<Step>,
)
    ensures
        run(world, bases, first + second) == run(run(world, bases, first), bases, second),
    decreases second.len(),
{
    if second.len() == 0 {
        assert(first + second =~= first);
    } else {
        lemma_run_concat(world, bases, first, second.drop_last());
        assert((first + second).drop_last() =~= first + second.drop_last());
        assert((first + second).last() == second.last());
    }
}

/// A run of one step is a visit.
pub proof fn lemma_run_one(
    world: World,
    bases: Map<BaseMaterialId, StandardMaterial>,
    step: Step,
)
    ensures
        run(world, bases, seq![step]) == visit(world, bases, step),
{
    assert(seq![step].drop_last() =~= Seq::<Step>::empty());
    assert(run(world, bases, seq![step].drop_last()) == world);
}

/// A run keeps the number of nodes and every marker, keeps the composed materials
/// that exist, and leaves alone every node that is not convertible.
pub proof fn lemma_run_keeps(
    world: World,
    bases: Map<BaseMaterialId, StandardMaterial>,
    steps: Seq<Step>,
)
    ensures
        run(world, bases, steps).nodes.len() == world.nodes.len(),
        run(world, bases, steps).materials.len() >= world.materials.len(),
        forall|i: int|
            0 <= i < world.nodes.len() ==> (#[trigger] run(world, bases, steps).nodes[i]).marker
                == world.nodes[i].marker,
        forall|i: int|
            0 <= i < world.nodes.len() && !convertible(world.nodes[i], bases) ==> #[trigger] run(
                world,
                bases,
                steps,
            ).nodes[i] == world.nodes[i],
        forall|h: int|
            0 <= h < world.materials.len() ==> #[trigger] run(world, bases, steps).materials[h]
                == world.materials[h],
    decreases steps.len(),
{
    if steps.len() > 0 {
        lemma_run_keeps(world, bases, steps.drop_last());
    }
}

/// After a run no node that a step names is convertible.
pub proof fn lemma_run_settles(
    world: World,
    bases: Map<BaseMaterialId, StandardMaterial>,
    steps: Seq<Step>,
)
    ensures
        forall|j: int|
            0 <= j < steps.len() && (#[trigger] steps[j]).node < world.nodes.len() ==> !convertible(
                run(world, bases, steps).nodes[steps[j].node as int],
                bases,
            ),
    decreases steps.len(),
{
    if steps.len() > 0 {
        let rest = steps.drop_last();
        lemma_run_settles(world, bases, rest);
        lemma_run_keeps(world, bases, rest);
        let before = run(world, bases, rest);
        let after = run(world, bases, steps);
        assert(after == visit(before, bases, steps.last()));
        assert forall|j: int|
            0 <= j < steps.len() && (#[trigger] steps[j]).node < world.nodes.len() implies !convertible(
            after.nodes[steps[j].node as int],
            bases,
        ) by {
            if j < steps.len() - 1 {
                assert(rest[j] == steps[j]);
            }
        }
    }
}

/// A run whose steps name no convertible node changes nothing.
pub proof fn lemma_run_settled(
    world: World,
    bases: Map<BaseMaterialId, StandardMaterial>,
    steps: Seq<Step>,
)
    requires
        forall|j: int|
            0 <= j < steps.len() && (#[trigger] steps[j]).node < world.nodes.len() ==> !convertible(
                world.nodes[steps[j].node as int],
                bases,
            ),
    ensures
        run(world, bases, steps) == world,
    decreases steps.len(),
{
    if steps.len() > 0 {
        let rest = steps.drop_last();
        assert forall|j: int|
            0 <= j < rest.len() && (#[trigger] rest[j]).node < world.nodes.len() implies !convertible(
            world.nodes[rest[j].node as int],
            bases,
        ) by {
            assert(rest[j] == steps[j]);
        }
        lemma_run_settled(world, bases, rest);
        assert(steps.last() == steps[steps.len() - 1]);
    }
}

/// A run leaves alone every node that no step names.
pub proof fn lemma_run_untouched(
    world: World,
    bases: Map<BaseMaterialId, StandardMaterial>,
    steps: Seq<Step>,
    n: usize,
)
    requires
        n < world.nodes.len(),
        claim(steps, n).is_none(),
    ensures
        run(world, bases, steps).nodes[n as int] == world.nodes[n as int],
    decreases steps.len(),
{
    if steps.len() > 0 {
        lemma_run_untouched(world, bases, steps.drop_last(), n);
        lemma_run_keeps(world, bases, steps.drop_last());
    }
}

/// The settings of the first of `steps` that names the node `n`, if one does.
pub open spec fn claim(steps: Seq<Step>, n: usize) -> Option<LineBoilSettings>
    decreases steps.len(),
{
    if steps.len() == 0 {
        None
    } else if claim(steps.drop_last(), n).is_some() {
        claim(steps.drop_last(), n)
    } else if steps.last().node == n {
        Some(steps.last().settings)
    } else {
        None
    }
}

/// What a run makes of one node.
///
/// A node that is convertible and that some step names is converted, with the
/// settings of the first step that names it: it is tagged, it has lost its base
/// material, and its handle leads to a material made in this run from the
/// snapshot of its base material and those settings. Every other node is as it
/// was.
pub proof fn lemma_run_outcome(
    world: World,
    bases: Map<BaseMaterialId, StandardMaterial>,
    steps: Seq<Step>,
    n: usize,
)
    requires
        n < world.nodes.len(),
        run(world, bases, steps).materials.len() <= usize::MAX,
    ensures
        convertible(world.nodes[n as int], bases) && claim(steps, n).is_some() ==> {
            let after = run(world, bases, steps);
            let handle = after.nodes[n as int].line_boil_material.unwrap();
            &&& after.nodes[n as int] == converted(world.nodes[n as int], handle)
            &&& world.materials.len() <= handle < after.materials.len()
            &&& after.materials[handle as int] == composed(
                world.nodes[n as int],
                bases,
                claim(steps, n).unwrap(),
            )
        },
        !(convertible(world.nodes[n as int], bases) && claim(steps, n).is_some()) ==> run(
            world,
            bases,
            steps,
        ).nodes[n as int] == world.nodes[n as int],
    decreases steps.len(),
{
    if steps.len() > 0 {
        let rest = steps.drop_last();
        let before = run(world, bases, rest);
        let after = run(world, bases, steps);
        assert(after == visit(before, bases, steps.last()));
        lemma_run_keeps(world, bases, rest);
        lemma_run_keeps(before, bases, seq![steps.last()]);
        lemma_run_one(before, bases, steps.last());
        lemma_run_outcome(world, bases, rest, n);
    }
}

/// Two nodes that a run converts get two composed materials.
pub proof fn lemma_run_distinct(
    world: World,
    bases: Map<BaseMaterialId, StandardMaterial>,
    steps: Seq<Step>,
    a: usize,
    b: usize,
)
    requires
        a != b,
        a < world.nodes.len(),
        b < world.nodes.len(),
        convertible(world.nodes[a as int], bases),
        convertible(world.nodes[b as int], bases),
        claim(steps, a).is_some(),
        claim(steps, b).is_some(),
        run(world, bases, steps).materials.len() <= usize::MAX,
    ensures
        run(world, bases, steps).nodes[a as int].line_boil_material != run(
            world,
            bases,
            steps,
        ).nodes[b as int].line_boil_material,
    decreases steps.len(),
{
    let rest = steps.drop_last();
    let before = run(world, bases, rest);
    lemma_run_one(before, bases, steps.last());
    lemma_run_keeps(before, bases, seq![steps.last()]);
    lemma_run_keeps(world, bases, rest);
    lemma_run_outcome(world, bases, rest, a);
    lemma_run_outcome(world, bases, rest, b);
    lemma_run_outcome(world, bases, steps, a);
    lemma_run_outcome(world, bases, steps, b);
    if claim(rest, a).is_some() && claim(rest, b).is_some() {
        lemma_run_distinct(world, bases, rest, a, b);
    }
}

/// Whether the node `n`, untagged in `before`, is tagged in `after` and holds the
/// handle `handle`.
pub open spec fn converted_to(before: World, after: World, n: int, handle: int) -> bool {
    &&& 0 <= n < before.nodes.len()
    &&& n < after.nodes.len()
    &&& !before.nodes[n].applied
    &&& after.nodes[n].applied
    &&& after.nodes[n].line_boil_material == Some(handle as usize)
}

/// Every composed material that a run adds belongs to a node that the run
/// converted.
pub proof fn lemma_run_owned(
    world: World,
    bases: Map<BaseMaterialId, StandardMaterial>,
    steps: Seq<Step>,
    handle: int,
)
    requires
        world.materials.len() <= handle < run(world, bases, steps).materials.len(),
        run(world, bases, steps).materials.len() <= usize::MAX,
    ensures
        exists|n: int| converted_to(world, run(world, bases, steps), n, handle),
    decreases steps.len(),
{
    let rest = steps.drop_last();
    let before = run(world, bases, rest);
    let after = run(world, bases, steps);
    lemma_run_keeps(world, bases, rest);
    lemma_run_one(before, bases, steps.last());
    lemma_run_keeps(before, bases, seq![steps.last()]);
    if handle < before.materials.len() {
        lemma_run_owned(world, bases, rest, handle);
        let n = choose|n: int| converted_to(world, before, n, handle);
        assert(converted_to(world, after, n, handle));
    } else {
        assert(converted_to(world, after, steps.last().node as int, handle));
    }
}

/// The first step that names a node is found in the first list, where that list
/// names the node, and in the second where it does not.
pub proof fn lemma_claim_concat(first: Seq<Step>, second: Seq<Step>, n: usize)
    ensures
        claim(first + second, n) == (if claim(first, n).is_some() {
            claim(first, n)
        } else {
            claim(second, n)
        }),
    decreases second.len(),
{
    if second.len() == 0 {
        assert(first + second =~= first);
    } else {
        lemma_claim_concat(first, second.drop_last(), n);
        assert((first + second).drop_last() =~= first + second.drop_last());
        assert((first + second).last() == second.last());
    }
}

/// Steps with the same settings for every node of an order claim exactly the
/// nodes of that order.
pub proof fn lemma_claim_steps(order: Seq<usize>, settings: LineBoilSettings, n: usize)
    ensures
        claim(steps(order, settings), n) == (if order.contains(n) {
            Some(settings)
        } else {
            None
        }),
    decreases order.len(),
{
    if order.len() > 0 {
        let rest = order.drop_last();
        lemma_claim_steps(rest, settings, n);
        assert(steps(order, settings).drop_last() =~= steps(rest, settings));
        if rest.contains(n) {
            let j = choose|j: int| 0 <= j < rest.len() && rest[j] == n;
            assert(order[j] == n);
        } else if order.last() == n {
            assert(order[order.len() - 1] == n);
        } else if order.contains(n) {
            let j = choose|j: int| 0 <= j < order.len() && order[j] == n;
            assert(rest[j] == n);
        }
    }
}

/// Whether the node `m` carries a marker and `n` lies beneath it.
pub open spec fn reaches(nodes: Seq<Node>, children: Seq<Seq<usize>>, m: usize, n: usize) -> bool {
    &&& m < nodes.len()
    &&& nodes[m as int].marker.is_some()
    &&& beneath(children, m, n)
}

/// Whether `m` is the first marked node, in the order of the indices, that `n`
/// lies beneath. Along a path the index grows, so among nested markers this is
/// the outermost.
pub open spec fn first_to_reach(
    nodes: Seq<Node>,
    children: Seq<Seq<usize>>,
    m: usize,
    n: usize,
) -> bool {
    &&& reaches(nodes, children, m, n)
    &&& forall|other: usize| other < m ==> !reaches(nodes, children, other, n)
}

/// The plan of the first `i` nodes gives a node the settings of the first marked
/// node above it, and names no node that lies beneath none of them.
pub proof fn lemma_claim_plan(
    nodes: Seq<Node>,
    children: Seq<Seq<usize>>,
    i: int,
    n: usize,
)
    requires
        hierarchy(children),
        0 <= i <= nodes.len() <= usize::MAX,
    ensures
        (forall|m: usize| m < i ==> !reaches(nodes, children, m, n)) ==> claim(
            plan_upto(nodes, children, i),
            n,
        ).is_none(),
        forall|m: usize|
            m < i && #[trigger] first_to_reach(nodes, children, m, n) ==> claim(
                plan_upto(nodes, children, i),
                n,
            ) == Some(nodes[m as int].marker.unwrap().settings),
        forall|m: usize|
            m < i && #[trigger] reaches(nodes, children, m, n) ==> claim(
                plan_upto(nodes, children, i),
                n,
            ).is_some(),
    decreases i,
{
    if i > 0 {
        let last = (i - 1) as usize;
        let done = plan_upto(nodes, children, i - 1);
        let more = root_steps(nodes, children, i - 1);
        lemma_claim_plan(nodes, children, i - 1, n);
        lemma_claim_concat(done, more, n);
        lemma_subtree_is_descent(children, last, n);
        if nodes[last as int].marker.is_some() {
            lemma_claim_steps(subtree(children, last), nodes[last as int].marker.unwrap().settings, n);
        }
        if forall|m: usize| m < i ==> !reaches(nodes, children, m, n) {
            assert(!reaches(nodes, children, last, n));
            assert forall|m: usize| m < i - 1 implies !reaches(nodes, children, m, n) by {}
        }
        assert forall|m: usize| m < i && #[trigger] first_to_reach(nodes, children, m, n) implies claim(
            plan_upto(nodes, children, i),
            n,
        ) == Some(nodes[m as int].marker.unwrap().settings) by {
            if m == last {
                assert forall|other: usize| other < i - 1 implies !reaches(nodes, children, other, n) by {}
            }
        }
    }
}

/// The plan reads nothing of the nodes but their markers.
pub proof fn lemma_plan_reads_markers(
    nodes: Seq<Node>,
    others: Seq<Node>,
    children: Seq<Seq<usize>>,
    i: int,
)
    requires
        nodes.len() == others.len(),
        forall|j: int| 0 <= j < nodes.len() ==> (#[trigger] nodes[j]).marker == others[j].marker,
    ensures
        plan_upto(nodes, children, i) == plan_upto(others, children, i),
    decreases i,
{
    if i > 0 {
        lemma_plan_reads_markers(nodes, others, children, i - 1);
        if i - 1 < nodes.len() {
            assert(nodes[i - 1].marker == others[i - 1].marker);
        }
    }
}

} // verus!
