use botw::model_3::command::{try_suggest_commands, CommandSet};
use botw::model_3::model::{Location, LocationType, Model, Quest};
use botw::timed::game::Game;

#[test]
fn sessions_are_read_up_to_the_first_zero() {
    let mut game = Game::new();
    assert_eq!(game.report_sessions(), vec![]);
    game.record_sessions(&vec![(3, 700), (1, 120), (2, 45), (1, 130), (0, 999), (4, 1)]);
    assert_eq!(game.session_seconds(1), Some(130));
    assert_eq!(game.session_seconds(2), Some(45));
    assert_eq!(game.session_seconds(3), Some(700));
    assert_eq!(game.session_seconds(4), None);
    assert_eq!(game.session_seconds(0), None);
    assert_eq!(game.report_sessions(), vec![(1, 130), (2, 45), (3, 700)]);
    game.record_sessions(&vec![(4, 1)]);
    assert_eq!(game.report_sessions().len(), 4);
}

#[test]
fn suggestions_for_test_are_reported() {
    let mut model = Model::new();
    model.add_location(Location::new("Test of Wood", LocationType::Normal, None));
    model.add_quest(Quest::new_main("The Hero's Test"));
    let lines = try_suggest_commands(&model).unwrap();
    let got: Vec<(usize, &str)> = lines.iter().map(|l| (l.depth, l.text.as_str())).collect();
    assert_eq!(
        got,
        vec![
            (0, ""),
            (0, "Location \"Test of Wood\": not discovered"),
            (1, " 1: DiscoverLocation"),
            (0, "Quest \"The Hero's Test\": not started: main quest"),
            (1, " 2: StartQuest"),
            (1, " 3: CompleteQuest"),
        ]
    );
}

#[test]
fn a_dangling_quest_stops_the_generation() {
    let mut model = Model::new();
    model.add_location(Location::new("Test Shrine", LocationType::Shrine, None));
    model.get_shrine_mut("Test Shrine").quest = Some("Missing Quest".to_string());
    assert!(try_suggest_commands(&model).is_none());
    assert!(CommandSet::try_new_gen(&model, "shrine", None).is_none());
    let mut set = CommandSet::new("other", None);
    assert!(set.try_generate(&model));
    assert!(set.targets.is_empty());
    assert!(set.can_generate_from(&model));
    assert!(set.knows_locations(&model));
    assert!(set.events_numbered());
}
