use botw::model_3::game_record::{GameEvent, GameEventType, GameRecord};
use botw::model_3::model::{Location, LocationType, Model};
use botw::model_3::runtime::GameClock;

fn highlands() -> Model {
    let mut model = Model::new();
    model.add_location(Location::new("Akkala", LocationType::Region, None));
    model.add_location(Location::new("Great Sea", LocationType::Area, Some("Akkala".to_string())));
    model.add_location(Location::new("Far Coast", LocationType::Area, Some("Great Sea".to_string())));
    model.add_location(Location::new("Lone Rock", LocationType::Normal, Some("Far Coast".to_string())));
    model
}

#[test]
fn format_time_pads_hours_minutes_seconds() {
    assert_eq!(GameClock::format_time(0), "  0:00:00");
    assert_eq!(GameClock::format_time(1000), "  0:16:40");
    assert_eq!(GameClock::format_time(3_600), "  1:00:00");
    assert_eq!(GameClock::format_time(86_399), " 23:59:59");
    assert_eq!(GameClock::format_time(3_600_000 + 61), "1000:01:01");
}

#[test]
fn stopped_clock_shows_its_time() {
    let clock = GameClock::new_stopped(1_000);
    assert_eq!(clock.time(), 1_000);
    assert_eq!(clock.time_formatted(), "  0:16:40");
    assert!(clock.stop().is_none());
    let running = clock.start().unwrap();
    assert!(running.time() >= 1_000);
    assert!(running.start().is_none());
    let stopped = running.stop().unwrap();
    assert!(matches!(stopped, GameClock::Stopped { stop_time } if stop_time >= 1_000));
}

#[test]
fn clock_time_after_seconds() {
    let running = GameClock::new_running(40);
    assert_eq!(running.time_at(2), 42);
    assert_eq!(running.time_at(u64::MAX), usize::MAX);
    assert_eq!(GameClock::new_stopped(7).time_at(100), 7);
}

#[test]
fn simple_text_has_five_fields() {
    let event = GameEvent::new(1000, GameEventType::DiscoverLocation, "Phalian Highlands", None);
    assert_eq!(event.to_simple_text(), "1000\tDiscoverLocation\tPhalian Highlands\tNone\tNone");
    let mut model = Model::new();
    let mut hearts = GameEvent::new(12, GameEventType::SetHearts, "", Some(5));
    hearts.apply(&mut model);
    assert_eq!(hearts.to_simple_text(), "12\tSetHearts\t\t5\t3");
}

#[test]
fn display_text_quotes_the_time() {
    let event = GameEvent::new(1000, GameEventType::DiscoverLocation, "Phalian Highlands", None);
    assert_eq!(event.to_string(), "\"  0:16:40\": Discovered Phalian Highlands.");
    let mut model = Model::new();
    let mut stamina = GameEvent::new(3_661, GameEventType::SetStamina, "", Some(8));
    stamina.apply(&mut model);
    assert_eq!(stamina.to_string(), "\"  1:01:01\": Changed stamina from 5 to 8.");
    let seeds = GameEvent::new(0, GameEventType::KorokSeed, "", Some(12));
    assert_eq!(seeds.to_string(), "\"  0:00:00\": Korok seeds to 12.");
    let met = GameEvent::new(59, GameEventType::MeetCharacterFlashback, "Mipha", None);
    assert_eq!(met.to_string(), "\"  0:00:59\": Met Mipha in a flashback.");
    let died = GameEvent::new(60, GameEventType::CharacterDeath, "Mipha", None);
    assert_eq!(died.to_string(), "\"  0:01:00\": Mipha died.");
}

#[test]
fn review_shows_the_last_events() {
    let mut model = highlands();
    let mut record = GameRecord::new("Review");
    record.add_event(&mut model, GameEvent::new(10, GameEventType::DiscoverLocation, "Lone Rock", None));
    assert_eq!(record.events.len(), 4);
    let last_two = record.review(2);
    assert_eq!(
        last_two,
        vec!["\"  0:00:10\": Discovered Far Coast.".to_string(), "\"  0:00:10\": Discovered Lone Rock.".to_string()]
    );
    assert_eq!(record.review(0).len(), 0);
    assert_eq!(record.review(4).len(), 4);
    assert_eq!(record.review(9).len(), 4);
    assert_eq!(record.review(9)[0], "\"  0:00:10\": Discovered Akkala.");
}

#[test]
fn chain_length_equals_depth() {
    let mut model = highlands();
    let mut record = GameRecord::new("Depth");
    record.add_event(&mut model, GameEvent::new(10, GameEventType::LightFlame, "Lone Rock", None));
    let names: Vec<String> = record.events.iter().map(|e| e.name().to_string()).collect();
    assert_eq!(names, vec!["Akkala", "Great Sea", "Far Coast", "Lone Rock", "Lone Rock"]);
    assert!(record.events.iter().all(|e| e.time() == 10));
    assert_eq!(record.events[4].typ(), GameEventType::LightFlame);
    assert_eq!(model.get_location("lone rock").flame_lit_time, 10);
    // A second try derives nothing more and is refused for the flame alone.
    assert!(record.try_add_event(&mut model, GameEvent::new(11, GameEventType::LightFlame, "Lone Rock", None)).is_err());
    assert_eq!(record.events.len(), 5);
}

#[test]
fn same_state_same_chain() {
    let model = highlands();
    let event = GameEvent::new(10, GameEventType::DiscoverLocation, "Lone Rock", None);
    let first = event.gen_predecessor(&model).unwrap();
    let second = event.gen_predecessor(&model).unwrap();
    assert_eq!(first.to_simple_text(), second.to_simple_text());
    assert_eq!(first.to_simple_text(), "10\tDiscoverLocation\tFar Coast\tNone\tNone");
    assert!(GameEvent::new(10, GameEventType::DiscoverLocation, "Akkala", None).gen_predecessor(&model).is_none());
}

#[test]
fn serialized_lines_name_the_log() {
    let mut model = highlands();
    let mut record = GameRecord::new("Save 1");
    record.add_event(&mut model, GameEvent::new(10, GameEventType::DiscoverLocation, "Akkala", None));
    let lines = record.print_events_serialized();
    assert_eq!(lines.len(), 2);
    assert_eq!((lines[0].depth, lines[0].text.as_str()), (0, "Save 1"));
    assert_eq!((lines[1].depth, lines[1].text.as_str()), (1, "10\tDiscoverLocation\tAkkala\tNone\tNone"));
}

#[test]
fn log_round_trips_through_json() {
    let mut model = highlands();
    let mut record = GameRecord::new("Json");
    record.add_event(&mut model, GameEvent::new(10, GameEventType::DiscoverLocation, "Far Coast", None));
    let hearts = record.add_event(&mut model, GameEvent::new(20, GameEventType::SetHearts, "", Some(4)));
    assert_eq!(hearts.len(), 1);
    assert_eq!(hearts[0].previous_number(), Some(3));
    record.add_event(&mut model, GameEvent::new(30, GameEventType::BloodMoon, "", None));

    let number = |n: Option<usize>| match n {
        Some(n) => serde_json::Value::from(n as u64),
        None => serde_json::Value::Null,
    };
    let mut list = Vec::new();
    for event in record.events.iter() {
        let mut object = serde_json::Map::new();
        object.insert("time".to_string(), serde_json::Value::from(event.time() as u64));
        object.insert("typ".to_string(), serde_json::Value::from(event.typ().variant_to_string()));
        object.insert("name".to_string(), serde_json::Value::from(event.name()));
        object.insert("number".to_string(), number(event.number()));
        object.insert("previous_number".to_string(), number(event.previous_number()));
        list.push(serde_json::Value::Object(object));
    }
    let json = serde_json::to_string(&serde_json::Value::Array(list)).unwrap();
    let parsed: serde_json::Value = serde_json::from_str(&json).unwrap();

    let mut restored = Vec::new();
    for value in parsed.as_array().unwrap() {
        restored.push(GameEvent::restore(
            value["time"].as_u64().unwrap() as usize,
            GameEventType::string_to_variant(value["typ"].as_str().unwrap()),
            value["name"].as_str().unwrap(),
            value["number"].as_u64().map(|n| n as usize),
            value["previous_number"].as_u64().map(|n| n as usize),
        ));
    }
    assert_eq!(restored.len(), record.events.len());
    assert_eq!(restored.len(), 5);
    for (back, logged) in restored.iter().zip(record.events.iter()) {
        assert_eq!(back.time(), logged.time());
        assert_eq!(back.typ(), logged.typ());
        assert_eq!(back.name(), logged.name());
        assert_eq!(back.number(), logged.number());
        assert_eq!(back.previous_number(), logged.previous_number());
    }
    assert_eq!(restored[3].previous_number(), Some(3));
    assert_eq!(restored[3].number(), Some(4));
}

#[test]
fn every_type_tag_reads_back() {
    let all = [
        GameEventType::AddToCompendium,
        GameEventType::BloodMoon,
        GameEventType::CharacterDeath,
        GameEventType::CompleteQuest,
        GameEventType::CompleteShrine,
        GameEventType::DiscoverLocation,
        GameEventType::FindDogTreasure,
        GameEventType::IdentifyItem,
        GameEventType::KorokSeed,
        GameEventType::LightFlame,
        GameEventType::LinkDeath,
        GameEventType::MeetCharacter,
        GameEventType::MeetCharacterFlashback,
        GameEventType::MentionCharacter,
        GameEventType::OpenChest,
        GameEventType::SetArmorLevel,
        GameEventType::SetBowSlots,
        GameEventType::SetHearts,
        GameEventType::SetItemCount,
        GameEventType::SetShieldSlots,
        GameEventType::SetStamina,
        GameEventType::SetWeaponSlots,
        GameEventType::StartQuest,
        GameEventType::StartShrine,
    ];
    for typ in all.iter() {
        assert_eq!(GameEventType::string_to_variant(typ.variant_to_string()), *typ);
    }
    assert_eq!(GameEventType::find_variant("Discover Location"), None);
    assert_eq!(GameEventType::find_variant("startquest"), None);
}
