use botw::model_3::game_record::{EventError, GameEvent, GameEventType, GameRecord};
use botw::model_3::model::{Location, LocationType, Model, Quest, NULL_TIME};

fn shrine_model() -> Model {
    let mut model = Model::new();
    model.add_location(Location::new("Akkala", LocationType::Region, None));
    model.add_location(Location::new("Akkala Highlands", LocationType::Area, Some("Akkala".to_string())));
    model.add_location(Location::new("Phalian Highlands", LocationType::Normal, Some("Akkala Highlands".to_string())));
    model.add_location(Location::new("Mezza Lo Shrine", LocationType::Shrine, Some("Akkala Highlands".to_string())));
    model.get_shrine_mut("Mezza Lo Shrine").quest = Some("Mezza Lo's Blessing".to_string());
    model.add_quest(Quest::new_shrine("Mezza Lo's Blessing", "Mezza Lo Shrine"));
    model
}

#[test]
fn simple_event_discovers_one_location() {
    let mut model = shrine_model();
    let mut record = GameRecord::new("Test");
    record.add_event(&mut model, GameEvent::new(5, GameEventType::DiscoverLocation, "Akkala Highlands", None));
    assert_eq!(record.events.len(), 2);
    let applied =
        record.add_event(&mut model, GameEvent::new(1000, GameEventType::DiscoverLocation, "Phalian Highlands", None));
    assert_eq!(applied.len(), 1);
    assert_eq!(applied[0].name(), "Phalian Highlands");
    assert_eq!(record.events.len(), 3);
    assert_eq!(model.get_location("Phalian Highlands").discovered_time, 1000);
    assert_eq!(record.events[2].name(), "Phalian Highlands");
    assert_eq!(record.events[2].typ(), GameEventType::DiscoverLocation);
    assert_eq!(record.events[2].time(), 1000);
}

#[test]
fn complete_shrine_brings_quest_and_start() {
    let mut model = shrine_model();
    let mut record = GameRecord::new("Test");
    let t = 4321;
    let applied = record.add_event(&mut model, GameEvent::new(t, GameEventType::CompleteShrine, "Mezza Lo Shrine", None));
    assert_eq!(applied.len(), 4);
    let got: Vec<(GameEventType, String, usize)> =
        record.events.iter().map(|e| (e.typ(), e.name().to_string(), e.time())).collect();
    assert_eq!(
        got,
        vec![
            (GameEventType::StartQuest, "Mezza Lo's Blessing".to_string(), t),
            (GameEventType::CompleteQuest, "Mezza Lo's Blessing".to_string(), t),
            (GameEventType::StartShrine, "Mezza Lo Shrine".to_string(), t),
            (GameEventType::CompleteShrine, "Mezza Lo Shrine".to_string(), t),
        ]
    );
    assert_eq!(model.get_quest("Mezza Lo's Blessing").started_time, t);
    assert_eq!(model.get_quest("Mezza Lo's Blessing").completed_time, t);
    assert_eq!(model.get_shrine("Mezza Lo Shrine").started_time, t);
    assert_eq!(model.get_shrine("Mezza Lo Shrine").completed_time, t);
    assert_eq!(model.get_shrine("Mezza Lo Shrine").discovered_time, NULL_TIME);
}

#[test]
fn set_hearts_records_previous_number() {
    let mut model = Model::new();
    let mut event = GameEvent::new(10, GameEventType::SetHearts, "", Some(5));
    assert_eq!(event.previous_number(), None);
    event.apply(&mut model);
    assert_eq!(event.previous_number(), Some(3));
    assert_eq!(event.number(), Some(5));
    assert_eq!(model.hearts, 5);
}

#[test]
fn second_discovery_is_refused() {
    let mut model = shrine_model();
    let mut first = GameEvent::new(7, GameEventType::DiscoverLocation, "Akkala", None);
    assert_eq!(first.try_apply(&mut model), Ok(()));
    let mut second = GameEvent::new(9, GameEventType::DiscoverLocation, "akkala", None);
    assert_eq!(second.try_apply(&mut model), Err(EventError::PreconditionViolated));
    assert_eq!(model.get_location("Akkala").discovered_time, 7);
}

#[test]
fn deep_hierarchy_is_discovered_from_the_top() {
    let mut model = shrine_model();
    let mut record = GameRecord::new("Test");
    let applied = record
        .try_add_event(&mut model, GameEvent::new(3, GameEventType::FindDogTreasure, "Phalian Highlands", None))
        .unwrap();
    assert_eq!(applied.len(), 4);
    assert_eq!(applied[3].typ(), GameEventType::FindDogTreasure);
    assert_eq!(applied[0].name(), "Akkala");
    let got: Vec<(GameEventType, String)> = record.events.iter().map(|e| (e.typ(), e.name().to_string())).collect();
    assert_eq!(
        got,
        vec![
            (GameEventType::DiscoverLocation, "Akkala".to_string()),
            (GameEventType::DiscoverLocation, "Akkala Highlands".to_string()),
            (GameEventType::DiscoverLocation, "Phalian Highlands".to_string()),
            (GameEventType::FindDogTreasure, "Phalian Highlands".to_string()),
        ]
    );
}

#[test]
fn errors_leave_model_and_log_alone() {
    let mut model = shrine_model();
    let mut record = GameRecord::new("Test");
    assert_eq!(
        record.try_add_event(&mut model, GameEvent::new(3, GameEventType::CompleteQuest, "No Such Quest", None)).err(),
        Some(EventError::UnknownEntity)
    );
    assert_eq!(
        record.try_add_event(&mut model, GameEvent::new(3, GameEventType::KorokSeed, "", Some(1))).err(),
        Some(EventError::UnsupportedEventType)
    );
    assert_eq!(
        record.try_add_event(&mut model, GameEvent::new(3, GameEventType::SetStamina, "", None)).err(),
        Some(EventError::PreconditionViolated)
    );
    assert_eq!(record.events.len(), 0);
    assert_eq!(model.stamina, 5);
}

#[test]
fn cyclic_hierarchy_is_reported() {
    let mut model = Model::new();
    model.add_location(Location::new("A", LocationType::Area, Some("B".to_string())));
    model.add_location(Location::new("B", LocationType::Area, Some("A".to_string())));
    let mut record = GameRecord::new("Test");
    assert_eq!(
        record.try_add_event(&mut model, GameEvent::new(3, GameEventType::DiscoverLocation, "A", None)).err(),
        Some(EventError::EndlessDerivation)
    );
}
