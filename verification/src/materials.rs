//! The two material stores: the host's base surface materials, which the effect
//! only reads, and the composed materials that the effect creates.

use vstd::prelude::*;
use bevy::asset::uuid::Uuid;
use bevy::asset::AssetId;
use bevy::asset::AssetIndex;
use bevy::asset::Assets;
use bevy::pbr::StandardMaterial;
use std::marker::PhantomData;
use crate::settings::LineBoilMaterial;

verus! {

/// Reference to a base surface material in the host's asset storage.
///
/// `Index` carries the bits of a generational runtime index, `Uuid` the bits of a
/// stable identifier.
#[derive(Clone, Copy, Debug, PartialEq, Eq, Structural)]
pub enum BaseMaterialId {
    Index { bits: u64 },
    Uuid { uuid: u128 },
}

/// Bevy's `StandardMaterial`, the base surface material.
///
/// Declared without its fields: nothing here looks inside a value of it.
#[verifier::external_type_specification]
#[verifier::external_body]
pub struct ExStandardMaterial(StandardMaterial);

/// The host's store of base surface materials: Bevy's `Assets<StandardMaterial>`.
///
/// The store is the host's to fill and to change between frames, so the field is
/// public. The verifier does not see the field: it knows a store only through
/// [`stored_materials`], and proofs speak of one store at one moment.
#[verifier::external_body]
pub struct BaseMaterials {
    pub assets: Assets<StandardMaterial>,
}

/// The materials that a store holds, each under the identifier that finds it.
///
/// Not defined here: it stands for what `Assets::get` finds in the store.
pub uninterp spec fn stored_materials(store: BaseMaterials) -> Map<BaseMaterialId, StandardMaterial>;

/// Calls `Assets::get` with the identifier that `id` stands for: the index that
/// `AssetIndex::from_bits` makes of the bits, or the UUID that `Uuid::from_u128`
/// makes of the number.
///
/// Trusted, not proved: the result is the material that the store holds under
/// `id`, or `None` where it holds nothing under it. `Assets::get` reads the slot
/// of an index identifier and compares its generation, or looks a UUID up in a
/// map. It changes nothing and does not panic, and the same store and identifier
/// give the same answer.
#[verifier::external_body]
fn lookup<'a>(store: &'a BaseMaterials, id: BaseMaterialId) -> (r: Option<&'a StandardMaterial>)
    ensures
        r == (if stored_materials(*store).dom().contains(id) {
            Some(&stored_materials(*store)[id])
        } else {
            None
        }),
{
    let key: AssetId<StandardMaterial> = match id {
        BaseMaterialId::Index { bits } => AssetId::Index {
            index: AssetIndex::from_bits(bits),
            marker: PhantomData,
        },
        BaseMaterialId::Uuid { uuid } => AssetId::Uuid { uuid: Uuid::from_u128(uuid) },
    };
    store.assets.get(key)
}

/// Calls `StandardMaterial::clone`.
///
/// Trusted, not proved: the copy equals the material it was made from. The impl
/// is derived, so it clones field by field.
#[verifier::external_body]
fn clone_base(material: &StandardMaterial) -> (r: StandardMaterial)
    ensures
        r == *material,
{
    material.clone()
}

impl BaseMaterials {
    /// A copy of the material stored under `id`, as it is now; `None` where the
    /// store holds nothing under `id`, which is how a material that has not been
    /// loaded yet shows.
    pub fn snapshot(&self, id: BaseMaterialId) -> (r: Option<StandardMaterial>)
        ensures
            r == (if stored_materials(*self).dom().contains(id) {
                Some(stored_materials(*self)[id])
            } else {
                None
            }),
    {
        match lookup(self, id) {
            Some(material) => Some(clone_base(material)),
            None => None,
        }
    }
}

/// A base surface material together with the line boil extension.
pub struct ComposedMaterial {
    /// The base material, as it was when the composed material was made.
    pub base: StandardMaterial,
    /// The extension.
    pub extension: LineBoilMaterial,
}

/// The store of composed materials. A material is found by its handle, the
/// position at which it was added; none is ever removed.
pub struct ComposedMaterials {
    items: Vec<ComposedMaterial>,
}

impl View for ComposedMaterials {
    type V = Seq<ComposedMaterial>;

    closed spec fn view(&self) -> Seq<ComposedMaterial> {
        self.items@
    }
}

impl ComposedMaterials {
    /// An empty store.
    pub fn new() -> (r: ComposedMaterials)
        ensures
            r@ == Seq::<ComposedMaterial>::empty(),
    {
        ComposedMaterials { items: Vec::new() }
    }

    /// The number of materials.
    pub fn len(&self) -> (r: usize)
        ensures
            r == self@.len(),
    {
        self.items.len()
    }

    /// The material behind `handle`, or `None` where the handle is not one of this
    /// store.
    pub fn get(&self, handle: usize) -> (r: Option<&ComposedMaterial>)
        ensures
            r == (if handle < self@.len() {
                Some(&self@[handle as int])
            } else {
                None
            }),
    {
        if handle < self.items.len() {
            Some(&self.items[handle])
        } else {
            None
        }
    }

    /// Adds a material and returns its handle.
    pub fn add(&mut self, material: ComposedMaterial) -> (handle: usize)
        ensures
            handle == old(self)@.len(),
            final(self)@ == old(self)@.push(material),
    {
        let handle = self.items.len();
        self.items.push(material);
        handle
    }

    /// Sets the time of the material behind `handle`. Returns whether there is such
    /// a material; where there is none, nothing changes.
    pub fn set_time(&mut self, handle: usize, time: u32) -> (done: bool)
        ensures
            done == (handle < old(self)@.len()),
            done ==> final(self)@ == old(self)@.update(
                handle as int,
                timed(old(self)@[handle as int], time),
            ),
            !done ==> final(self)@ == old(self)@,
    {
        if handle < self.items.len() {
            let settings = self.items[handle].extension.settings.with_time(time);
            self.items[handle].extension.settings = settings;
            assert(self.items@ =~= old(self).items@.update(
                handle as int,
                timed(old(self).items@[handle as int], time),
            ));
            true
        } else {
            false
        }
    }

    /// Gives the materials up, in the order of their handles.
    pub fn into_materials(self) -> (r: Vec<ComposedMaterial>)
        ensures
            r@ == self@,
    {
        self.items
    }
}

/// `material` with `time` as the time of its settings.
pub open spec fn timed(material: ComposedMaterial, time: u32) -> ComposedMaterial {
    ComposedMaterial {
        base: material.base,
        extension: LineBoilMaterial { settings: material.extension.settings.at_time(time) },
    }
}

} // verus!
