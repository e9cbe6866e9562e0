//! The per-frame update of the time that drives the animation.

use vstd::prelude::*;
use crate::materials::timed;
use crate::materials::ComposedMaterial;
use crate::materials::ComposedMaterials;

verus! {

/// The materials with `time` as the time of each.
pub open spec fn stamped(materials: Seq<ComposedMaterial>, time: u32) -> Seq<ComposedMaterial> {
    Seq::new(materials.len(), |h: int| timed(materials[h], time))
}

/// Updates the time in all line boil materials to `time`, the host's elapsed
/// seconds. The time is stored as given: holding frames is the shader's work.
pub fn update_line_boil_time(time: u32, materials: &mut ComposedMaterials)
    ensures
        final(materials)@ == stamped(old(materials)@, time),
{
    let total = materials.len();
    let mut handle: usize = 0;
    while handle < total
        invariant
            handle <= total,
            total == old(materials)@.len(),
            materials@.len() == total,
            forall|h: int|
                0 <= h < handle ==> #[trigger] materials@[h] == timed(old(materials)@[h], time),
            forall|h: int| handle <= h < total ==> #[trigger] materials@[h] == old(materials)@[h],
        decreases total - handle,
    {
        materials.set_time(handle, time);
        handle += 1;
    }
    assert(materials@ =~= stamped(old(materials)@, time));
}

} // verus!
