use botw::model_3::model::{Location, LocationType, Model};

#[test]
fn new_model_has_first_counters() {
    let model = Model::new();
    assert_eq!(model.hearts, 3);
    assert_eq!(model.stamina, 5);
    assert_eq!(model.weapon_slots, 8);
    assert_eq!(model.bow_slots, 5);
    assert_eq!(model.shield_slots, 4);
}

#[test]
fn lookup_ignores_case() {
    let mut model = Model::new();
    model.add_location(Location::new("Phalian Highlands", LocationType::Normal, None));
    assert!(model.find_location("phalian highlands").is_some());
    assert_eq!(model.get_location("PHALIAN HIGHLANDS").name, "Phalian Highlands");
    assert!(model.find_location("Phalian").is_none());
}
