use ferrum::scene::setup;
use ferrum::store::{ModelStore, TypeModel};

#[test]
fn spawn_hands_out_consecutive_fresh_ids() {
    let mut store: ModelStore<String> = ModelStore::new();
    let a = store.spawn(TypeModel::StaticObj);
    let b = store.spawn(TypeModel::PointOfLight);
    let c = store.spawn(TypeModel::StaticObj);
    assert_eq!(a.id, 0);
    assert_eq!(b.id, 1);
    assert_eq!(c.id, 2);
    assert_eq!(store.next_id(), 3);
}

#[test]
fn burning_models_are_not_listed() {
    let mut store: ModelStore<String> = ModelStore::new();
    store.spawn(TypeModel::StaticObj);
    store.spawn(TypeModel::PointOfLight);
    assert!(store.static_loaded().is_empty());
    assert!(store.light_loaded().is_empty());
}

#[test]
fn delivered_models_are_listed_in_id_order() {
    let mut store: ModelStore<String> = ModelStore::new();
    let a = store.spawn(TypeModel::StaticObj);
    let b = store.spawn(TypeModel::StaticObj);
    let l = store.spawn(TypeModel::PointOfLight);
    store.collect_loaded(vec![
        (b.id, TypeModel::StaticObj, "floor".to_string()),
        (l.id, TypeModel::PointOfLight, "venus".to_string()),
        (a.id, TypeModel::StaticObj, "plant".to_string()),
    ]);
    let statics: Vec<&String> = store.static_loaded();
    assert_eq!(statics, vec!["plant", "floor"]);
    let lights: Vec<&String> = store.light_loaded();
    assert_eq!(lights, vec!["venus"]);
}

#[test]
fn later_delivery_of_an_id_replaces_the_earlier_one() {
    let mut store: ModelStore<u32> = ModelStore::new();
    let a = store.spawn(TypeModel::StaticObj);
    store.collect_loaded(vec![(a.id, TypeModel::StaticObj, 1), (a.id, TypeModel::StaticObj, 2)]);
    assert_eq!(store.static_loaded(), vec![&2]);
}

#[test]
fn light_model_mut_edits_in_place() {
    let mut store: ModelStore<u32> = ModelStore::new();
    let s = store.spawn(TypeModel::StaticObj);
    let l = store.spawn(TypeModel::PointOfLight);
    assert!(store.light_model_mut(&l.id).is_none());
    store.deliver(l.id, TypeModel::PointOfLight, 7);
    store.deliver(s.id, TypeModel::StaticObj, 9);
    match store.light_model_mut(&l.id) {
        Some(m) => *m = 11,
        None => panic!("light model missing"),
    }
    assert_eq!(store.light_loaded(), vec![&11]);
    // a static model is not a light model
    assert!(store.light_model_mut(&s.id).is_none());
    // an id never spawned is not found
    assert!(store.light_model_mut(&42).is_none());
    assert_eq!(store.static_loaded(), vec![&9]);
}

#[test]
fn demo_scene_registers_three_models() {
    let mut store: ModelStore<&str> = ModelStore::new();
    store.spawn(TypeModel::StaticObj);
    let entries = setup(&mut store);
    assert_eq!(entries[0].name, "plant");
    assert_eq!(entries[0].file_name, "plant/plant.obj");
    assert_eq!(entries[0].kind, TypeModel::StaticObj);
    assert_eq!(entries[0].id, 1);
    assert_eq!(entries[1].name, "floor");
    assert_eq!(entries[1].file_name, "floor/floor.obj");
    assert_eq!(entries[1].kind, TypeModel::StaticObj);
    assert_eq!(entries[1].id, 2);
    assert_eq!(entries[2].name, "venus");
    assert_eq!(entries[2].file_name, "sun/venus.obj");
    assert_eq!(entries[2].kind, TypeModel::PointOfLight);
    assert_eq!(entries[2].id, 3);
    assert_eq!(store.next_id(), 4);
    store.deliver(entries[2].id, TypeModel::PointOfLight, "venus mesh");
    assert_eq!(store.light_loaded(), vec![&"venus mesh"]);
    assert!(store.static_loaded().is_empty());
}

#[test]
fn a_slot_stays_burning_until_its_own_load_arrives() {
    let mut store: ModelStore<u32> = ModelStore::new();
    let a = store.spawn(TypeModel::StaticObj);
    let b = store.spawn(TypeModel::StaticObj);
    let l = store.spawn(TypeModel::PointOfLight);
    // loads for other slots, and one for the light table under a's id, leave a loading
    store.collect_loaded(vec![(b.id, TypeModel::StaticObj, 5), (a.id, TypeModel::PointOfLight, 6)]);
    assert_eq!(store.static_loaded(), vec![&5]);
    store.spawn(TypeModel::StaticObj);
    assert_eq!(store.static_loaded(), vec![&5]);
    store.collect_loaded(vec![(a.id, TypeModel::StaticObj, 4)]);
    assert_eq!(store.static_loaded(), vec![&4, &5]);
    assert!(store.light_model_mut(&l.id).is_none());
}
