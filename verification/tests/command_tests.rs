use botw::model_3::command::{CommandSet, ModelList, TargetType};
use botw::model_3::game_record::{EventError, GameEventType, GameRecord};
use botw::model_3::model::{AddError, Character, Location, LocationType, Model, Quest, Race};
use botw::text::check_trimmed;

fn small_model() -> Model {
    let mut model = Model::new();
    model.add_character(Character::new("Zelda", &Race::Hylian, true, false, false, true));
    model.add_character(Character::new("Mipha", &Race::Zora, true, true, false, false));
    model.add_location(Location::new("Lanayru", LocationType::Region, None));
    model.add_location(Location::new("Zora's Domain", LocationType::Town, Some("Lanayru".to_string())));
    model.add_location(Location::new("Ne'ez Yohma Shrine", LocationType::Shrine, Some("Zora's Domain".to_string())));
    model.get_shrine_mut("Ne'ez Yohma Shrine").challenge = Some("Pushing Power".to_string());
    model.add_location(Location::new("Akkala Tech Lab", LocationType::TechLab, None));
    model.add_quest(Quest::new_main("Divine Beast Vah Ruta"));
    model.add_quest(Quest::new_side("Zora Stone Monuments", Some("ten stones".to_string())));
    model
}

#[test]
fn letters_are_taken_in_lower_case() {
    let set = CommandSet::new("ZoRa", Some(2));
    assert_eq!(set.partial_name, "zora");
    assert_eq!(set.number, Some(2));
    assert!(set.include_empty_targets);
    assert!(!set.force_number_events);
    assert!(!set.add_to_special_commands);
    assert!(!set.number_targets);
    assert!(set.targets.is_empty());
}

#[test]
fn targets_come_in_the_order_of_their_keys() {
    let model = small_model();
    let set = CommandSet::new_gen(&model, "zora", None);
    let names: Vec<&str> = set.targets.iter().map(|t| t.name.as_str()).collect();
    assert_eq!(names, vec!["Zora's Domain", "Zora Stone Monuments"]);
    assert_eq!(set.targets[0].target_type, TargetType::Location);
    assert_eq!(set.targets[0].model_list, ModelList::Location);
    assert_eq!(set.targets[0].status, "not discovered");
    assert_eq!(set.targets[1].target_type, TargetType::Quest);
    assert_eq!(set.targets[1].status, "not started: side quest");
    assert!(!set.number_targets);
    assert_eq!(set.command_count(), 3);
    let numbers: Vec<(GameEventType, Option<usize>)> =
        set.targets.iter().flat_map(|t| t.events.iter()).map(|e| (e.typ, e.command_number)).collect();
    assert_eq!(
        numbers,
        vec![
            (GameEventType::DiscoverLocation, Some(1)),
            (GameEventType::StartQuest, Some(2)),
            (GameEventType::CompleteQuest, Some(3)),
        ]
    );
}

#[test]
fn keys_are_walked_in_rising_order() {
    let mut model = Model::new();
    model.add_location(Location::new("beta", LocationType::Normal, None));
    model.add_location(Location::new("Alpha", LocationType::Normal, None));
    model.add_location(Location::new("alphabet", LocationType::Normal, None));
    model.add_location(Location::new("Gamma", LocationType::Normal, None));
    let set = CommandSet::new_gen(&model, "a", None);
    let names: Vec<&str> = set.targets.iter().map(|t| t.name.as_str()).collect();
    assert_eq!(names, vec!["Alpha", "alphabet", "beta", "Gamma"]);
}

#[test]
fn shrine_is_found_by_its_challenge() {
    let model = small_model();
    let set = CommandSet::new_gen(&model, "pushing", None);
    assert_eq!(set.targets.len(), 1);
    assert_eq!(set.targets[0].name, "Ne'ez Yohma Shrine");
    assert_eq!(set.targets[0].status, "not discovered; shrine is not started");
    let kinds: Vec<GameEventType> = set.targets[0].events.iter().map(|e| e.typ).collect();
    assert_eq!(
        kinds,
        vec![GameEventType::DiscoverLocation, GameEventType::StartShrine, GameEventType::CompleteShrine]
    );
    let lines = set.print_numbered(&model);
    let got: Vec<(usize, &str)> = lines.iter().map(|l| (l.depth, l.text.as_str())).collect();
    assert_eq!(
        got,
        vec![
            (0, ""),
            (0, "Location \"Ne'ez Yohma Shrine (Pushing Power)\": not discovered; shrine is not started"),
            (1, " 1: DiscoverLocation"),
            (1, " 2: StartShrine"),
            (1, " 3: CompleteShrine"),
        ]
    );
}

#[test]
fn dead_characters_cannot_be_met() {
    let model = small_model();
    let set = CommandSet::new_gen(&model, "mipha", None);
    assert_eq!(set.targets.len(), 1);
    assert_eq!(set.targets[0].status, "dead, not mentioned or met");
    let kinds: Vec<GameEventType> = set.targets[0].events.iter().map(|e| e.typ).collect();
    assert_eq!(kinds, vec![GameEventType::MentionCharacter, GameEventType::MeetCharacterFlashback]);
    let alive = CommandSet::new_gen(&model, "zelda", None);
    let kinds: Vec<GameEventType> = alive.targets[0].events.iter().map(|e| e.typ).collect();
    assert_eq!(
        kinds,
        vec![GameEventType::MentionCharacter, GameEventType::MeetCharacter, GameEventType::MeetCharacterFlashback]
    );
    assert_eq!(alive.targets[0].status, "not mentioned or met");
}

#[test]
fn counter_letters_give_counter_events() {
    let model = small_model();
    let hearts = CommandSet::new_gen(&model, "he", Some(2));
    assert_eq!(hearts.targets.len(), 1);
    assert_eq!(hearts.targets[0].model_list, ModelList::NoList);
    assert_eq!(hearts.targets[0].target_type, TargetType::NoTarget);
    let events: Vec<(GameEventType, Option<usize>, Option<usize>)> =
        hearts.targets[0].events.iter().map(|e| (e.typ, e.number, e.command_number)).collect();
    assert_eq!(
        events,
        vec![(GameEventType::SetHearts, Some(5), Some(1)), (GameEventType::SetHearts, Some(2), Some(2))]
    );
    let seeds = CommandSet::new_gen(&model, "k", None);
    let events: Vec<(GameEventType, Option<usize>)> =
        seeds.targets[0].events.iter().map(|e| (e.typ, e.number)).collect();
    assert_eq!(events, vec![(GameEventType::KorokSeed, Some(1))]);
    let lines = seeds.print_numbered(&model);
    assert_eq!(lines[1].text, "None \"\": ");
    assert_eq!(lines[2].text, " 1: KorokSeed: 1");
    let bows = CommandSet::new_gen(&model, "sh", Some(1));
    assert_eq!(bows.targets[0].events[0].typ, GameEventType::SetBowSlots);
    assert_eq!(bows.targets[0].events[0].number, Some(6));
}

#[test]
fn many_commands_number_the_targets() {
    let mut model = Model::new();
    for i in 0..12 {
        model.add_quest(Quest::new_main(&format!("Quest {}", i)));
    }
    let set = CommandSet::new_gen(&model, "quest", None);
    assert_eq!(set.command_count(), 24);
    assert!(set.number_targets);
    let numbers: Vec<Option<usize>> = set.targets.iter().map(|t| t.command_number).collect();
    assert_eq!(numbers, (1..=12).map(Some).collect::<Vec<_>>());
    assert!(set.targets.iter().all(|t| t.events.iter().all(|e| e.command_number.is_none())));
    // Keys are ordered as texts: "quest 10" comes before "quest 2".
    assert_eq!(set.targets[2].name, "Quest 10");
    let chosen = set.regen_with_chosen_target(&model, 3);
    assert_eq!(chosen.partial_name, "quest 10");
    assert!(chosen.force_number_events);
    assert!(!chosen.number_targets);
    assert_eq!(chosen.targets.len(), 1);
    assert_eq!(chosen.targets[0].events[1].command_number, Some(2));
    assert!(set.try_regen_with_chosen_target(&model, 13).is_none());
    assert!(chosen.try_regen_with_chosen_target(&model, 1).is_none());
}

#[test]
fn applying_a_command_adds_its_chain() {
    let mut model = small_model();
    let mut record = GameRecord::new("Commands");
    let set = CommandSet::new_gen(&model, "pushing", None);
    set.apply_command(&mut model, &mut record, 77, 3);
    let got: Vec<(GameEventType, &str, usize)> = record.events.iter().map(|e| (e.typ(), e.name(), e.time())).collect();
    assert_eq!(
        got,
        vec![
            (GameEventType::StartShrine, "Ne'ez Yohma Shrine", 77),
            (GameEventType::CompleteShrine, "Ne'ez Yohma Shrine", 77),
        ]
    );
    // The set is stale now: the same command is refused and changes nothing.
    assert_eq!(set.try_apply_command(&mut model, &mut record, 78, 3), Err(EventError::PreconditionViolated));
    assert_eq!(record.events.len(), 2);
    // A number that no command bears records nothing.
    assert_eq!(set.try_apply_command(&mut model, &mut record, 79, 9), Ok(()));
    assert_eq!(record.events.len(), 2);
    // Unsupported kinds are reported.
    let seeds = CommandSet::new_gen(&model, "k", None);
    assert_eq!(seeds.try_apply_command(&mut model, &mut record, 80, 1), Err(EventError::UnsupportedEventType));
}

#[test]
fn names_must_be_trimmed_and_new() {
    let mut model = small_model();
    assert_eq!(
        model.try_add_quest(Quest::new_main(" Padded")),
        Err(AddError::NotTrimmed)
    );
    assert_eq!(
        model.try_add_character(Character::new("ZELDA", &Race::Hylian, false, false, false, true)),
        Err(AddError::AlreadyPresent)
    );
    assert_eq!(model.try_add_location(Location::new("Hebra", LocationType::Region, None)), Ok(()));
    assert_eq!(model.get_location("hebra").name, "Hebra");
    assert!(check_trimmed("Hebra"));
    assert!(check_trimmed(""));
    assert!(!check_trimmed("Hebra "));
    assert!(!check_trimmed("\tHebra"));
    let mut location = Location::new("Hebra", LocationType::Region, None);
    assert!(location.try_add_child_location("Hebra Tower"));
    assert!(!location.try_add_child_location("Hebra Tower"));
    assert!(!location.try_add_child_location(" Hebra Peak"));
    assert_eq!(location.child_locations, vec!["Hebra Tower".to_string()]);
}

#[test]
fn statuses_read_as_sentences() {
    let mut model = small_model();
    model.get_location_mut("Akkala Tech Lab").dog_treasure = Some("Opal".to_string());
    assert_eq!(
        model.get_location("Akkala Tech Lab").status_description(&model),
        "not discovered; has dog treasure; flame is not yet lit"
    );
    model.add_quest(Quest::new_shrine("The Ceremonial Song", "Ne'ez Yohma Shrine"));
    model.get_shrine_mut("Ne'ez Yohma Shrine").quest = Some("The Ceremonial Song".to_string());
    assert_eq!(
        model.get_shrine("Ne'ez Yohma Shrine").status_description(&model),
        "not discovered; shrine is not started; quest The Ceremonial Song is not started"
    );
    assert_eq!(
        model.get_quest("The Ceremonial Song").status_description(&model),
        "not started: shrine quest for Ne'ez Yohma Shrine (not started)"
    );
    assert_eq!(model.get_shrine_quest("Ne'ez Yohma Shrine").unwrap().name, "The Ceremonial Song");
    assert_eq!(model.get_parent_location("Zora's Domain").unwrap().name, "Lanayru");
    assert!(model.get_parent_location("Lanayru").is_none());
    assert_eq!(model.get_location("Lanayru").discovery_label(), "not discovered");
    assert_eq!(model.get_quest("Divine Beast Vah Ruta").completion_label(), "not started");
    assert_eq!(LocationType::TechLab.variant_to_string(), "TechLab");
    assert_eq!(TargetType::NoTarget.variant_to_string(), "None");
}
