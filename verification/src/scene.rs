//! The demo scene: a potted plant on a floor, lit by Venus.
use vstd::prelude::*;
use crate::store::{ModelStore, TypeModel};

verus! {

/// One model of the demo scene, registered in the store under `id`.
#[derive(Clone, Copy, Debug)]
pub struct SceneEntry {
    /// Name the demo refers to the model by.
    pub name: &'static str,
    /// Resource the model is loaded from.
    pub file_name: &'static str,
    pub kind: TypeModel,
    pub id: usize,
}

/// Registers the three models of the demo scene (plant and floor as static
/// objects, Venus as the light-emitting object) and returns them with their
/// ids, in that order. Their loads are started by the caller.
pub fn setup<T>(store: &mut ModelStore<T>) -> (entries: [SceneEntry; 3])
    requires
        old(store).wf(),
        old(store).next() + 3 <= usize::MAX,
    ensures
        final(store).wf(),
        final(store).next() == old(store).next() + 3,
        entries[0].name == "plant" && entries[0].file_name == "plant/plant.obj",
        entries[1].name == "floor" && entries[1].file_name == "floor/floor.obj",
        entries[2].name == "venus" && entries[2].file_name == "sun/venus.obj",
        entries[0].kind == TypeModel::StaticObj && entries[0].id == old(store).next(),
        entries[1].kind == TypeModel::StaticObj && entries[1].id == old(store).next() + 1,
        entries[2].kind == TypeModel::PointOfLight && entries[2].id == old(store).next() + 2,
        final(store).statics() == old(store).statics().insert(
            entries[0].id,
            crate::store::Bead::Burning,
        ).insert(entries[1].id, crate::store::Bead::Burning),
        final(store).lights() == old(store).lights().insert(
            entries[2].id,
            crate::store::Bead::Burning,
        ),
{
    let plant = store.spawn(TypeModel::StaticObj);
    let floor = store.spawn(TypeModel::StaticObj);
    let venus = store.spawn(TypeModel::PointOfLight);
    [
        SceneEntry {
            name: "plant",
            file_name: "plant/plant.obj",
            kind: TypeModel::StaticObj,
            id: plant.id,
        },
        SceneEntry {
            name: "floor",
            file_name: "floor/floor.obj",
            kind: TypeModel::StaticObj,
            id: floor.id,
        },
        SceneEntry {
            name: "venus",
            file_name: "sun/venus.obj",
            kind: TypeModel::PointOfLight,
            id: venus.id,
        },
    ]
}

} // verus!
