use botw::model_3::model::{Location, LocationType, Model, QuestType, Race};
use botw::model_3::parse::{
    add_location_parent_references, break_into_sections, clean_lines, load_characters, load_locations, load_quests,
    section_to_lines, LineParts, LoadError, LoadErrorKind, Pair,
};

fn lines(text: &[&str]) -> Vec<String> {
    text.iter().map(|l| l.to_string()).collect()
}

fn pair(first: &str, second: &str) -> Pair {
    Pair { first: first.to_string(), second: second.to_string() }
}

fn parts(line: &str, first: &str, second: Option<&str>) -> LineParts {
    LineParts { line: line.to_string(), first: first.to_string(), second: second.map(|s| s.to_string()) }
}

#[test]
fn lines_are_trimmed_and_comments_dropped() {
    let raw = lines(&["  #Akkala ", "", "// a comment", "\t>Deep Akkala", "   ", "Akkala Tower"]);
    assert_eq!(clean_lines(&raw), lines(&["#Akkala", ">Deep Akkala", "Akkala Tower"]));
}

#[test]
fn locations_take_type_and_parent_from_their_lines() {
    let mut model = Model::new();
    let raw = lines(&[
        "#Akkala",
        ">Deep Akkala",
        "Akkala Tower",
        "Zuna Kai Shrine",
        "East Akkala Stable",
        "Akkala Ancient Tech Lab",
        "Skull Lake",
        ">Tarrey Town (town)",
        "Torin Wetland",
        "// comment",
        "#Hebra",
        "Hebra Plunge (town)",
    ]);
    let dogs = vec![pair("Skull Lake", "Opal")];
    let shrines = vec![pair(" Zuna Kai Shrine ", " Zuna Kai's Blessing ")];
    assert_eq!(load_locations(&mut model, &raw, &dogs, &shrines), Ok(()));
    let akkala = model.get_location("akkala");
    assert_eq!(akkala.typ, LocationType::Region);
    assert_eq!(akkala.parent_location, None);
    let deep = model.get_location("Deep Akkala");
    assert_eq!(deep.typ, LocationType::Area);
    assert_eq!(deep.parent_location, Some("Akkala".to_string()));
    assert_eq!(model.get_location("Akkala Tower").typ, LocationType::Tower);
    assert_eq!(model.get_location("Akkala Tower").parent_location, Some("Deep Akkala".to_string()));
    assert_eq!(model.get_location("Zuna Kai Shrine").typ, LocationType::Shrine);
    assert_eq!(model.get_shrine("Zuna Kai Shrine").challenge, Some("Zuna Kai's Blessing".to_string()));
    assert_eq!(model.get_location("East Akkala Stable").typ, LocationType::Stable);
    assert_eq!(model.get_location("Akkala Ancient Tech Lab").typ, LocationType::TechLab);
    assert_eq!(model.get_location("Skull Lake").typ, LocationType::Normal);
    assert_eq!(model.get_location("Skull Lake").dog_treasure, Some("Opal".to_string()));
    let town = model.get_location("Tarrey Town");
    assert_eq!(town.typ, LocationType::Town);
    assert_eq!(town.parent_location, Some("Akkala".to_string()));
    assert_eq!(model.get_location("Torin Wetland").parent_location, Some("Tarrey Town".to_string()));
    // The area in force is kept across the header of a region.
    let plunge = model.get_location("Hebra Plunge");
    assert_eq!(plunge.typ, LocationType::Town);
    assert_eq!(plunge.parent_location, Some("Tarrey Town".to_string()));
    assert_eq!(model.locations.len(), 11);
}

#[test]
fn locations_out_of_place_are_reported() {
    let mut model = Model::new();
    assert_eq!(
        load_locations(&mut model, &lines(&[">Area first"]), &vec![], &vec![]),
        Err(LoadError { line: 0, kind: LoadErrorKind::NoRegion })
    );
    assert_eq!(
        load_locations(&mut model, &lines(&["#Region", "Place first"]), &vec![], &vec![]),
        Err(LoadError { line: 1, kind: LoadErrorKind::NoArea })
    );
    assert_eq!(model.locations.len(), 0);
    assert_eq!(
        load_locations(&mut model, &lines(&["#Region", ">Area", "Place", "place"]), &vec![], &vec![]),
        Err(LoadError { line: 3, kind: LoadErrorKind::AlreadyPresent })
    );
    assert_eq!(model.locations.len(), 3);
    let mut other = Model::new();
    assert_eq!(
        load_locations(&mut other, &lines(&["#Region", ">Area", "Place"]), &vec![pair("Nowhere", "Ruby")], &vec![]),
        Err(LoadError { line: 0, kind: LoadErrorKind::UnknownLocation })
    );
    let mut third = Model::new();
    assert_eq!(
        load_locations(&mut third, &lines(&["#Region", ">Area", "Place"]), &vec![], &vec![pair("Place", "Trial")]),
        Err(LoadError { line: 0, kind: LoadErrorKind::UnknownShrine })
    );
}

#[test]
fn characters_take_race_and_flags() {
    let mut model = Model::new();
    let input = vec![
        parts("#Hylian", "#Hylian", None),
        parts("Zelda: main", "Zelda", Some(" main")),
        parts("Beedle: merchant", "Beedle", Some(" merchant")),
        parts("#Great Fairy", "#Great Fairy", None),
        parts("Cotera", "Cotera", None),
        parts("#Zora", "#Zora", None),
        parts("Mipha: main, champion, dead", "Mipha", Some(" main, champion, dead")),
    ];
    assert_eq!(load_characters(&mut model, &input), Ok(()));
    let zelda = model.get_character("zelda");
    assert_eq!((zelda.race, zelda.main, zelda.champion, zelda.merchant, zelda.alive), (Race::Hylian, true, false, false, true));
    let beedle = model.get_character("Beedle");
    assert_eq!((beedle.race, beedle.main, beedle.merchant), (Race::Hylian, false, true));
    assert_eq!(model.get_character("Cotera").race, Race::GreatFairy);
    let mipha = model.get_character("Mipha");
    assert_eq!((mipha.race, mipha.main, mipha.champion, mipha.alive), (Race::Zora, true, true, false));
    assert_eq!(Race::SheikahMonk.to_string(), "SheikahMonk");
    assert_eq!(Race::from_str("Sand Seal"), None);
    assert_eq!(Race::from_str("SandSeal"), Some(Race::SandSeal));

    let mut bad = Model::new();
    assert_eq!(
        load_characters(&mut bad, &vec![parts("Zelda", "Zelda", None)]),
        Err(LoadError { line: 0, kind: LoadErrorKind::NoRace })
    );
    assert_eq!(
        load_characters(&mut bad, &vec![parts("#Elf", "#Elf", None)]),
        Err(LoadError { line: 0, kind: LoadErrorKind::UnknownRace })
    );
}

#[test]
fn quests_take_their_kind_from_the_header() {
    let mut model = Model::new();
    assert_eq!(load_locations(&mut model, &lines(&["#R", ">A", "Kam Urog Shrine"]), &vec![], &vec![]), Ok(()));
    let input = vec![
        parts("#Main", "#Main", None),
        parts("Destroy Ganon", "Destroy Ganon", None),
        parts("#Side", "#Side", None),
        parts("A Gift for My Beloved (Zora's Domain)", "A Gift for My Beloved ", Some("Zora's Domain")),
        parts("Arrows of Burning Heat", "Arrows of Burning Heat", None),
        parts("#Shrine", "#Shrine", None),
        parts("Trial of Passage: Kam Urog Shrine", "Trial of Passage", Some("Kam Urog Shrine")),
    ];
    assert_eq!(load_quests(&mut model, &input), Ok(()));
    assert_eq!(model.get_quest("destroy ganon").typ, QuestType::Main);
    let gift = model.get_quest("A Gift for My Beloved");
    assert_eq!(gift.typ, QuestType::Side);
    assert_eq!(gift.notes, Some("Zora's Domain".to_string()));
    assert_eq!(model.get_quest("Arrows of Burning Heat").notes, None);
    let trial = model.get_quest("Trial of Passage");
    assert_eq!(trial.typ, QuestType::Shrine);
    assert_eq!(trial.shrine, Some("Kam Urog Shrine".to_string()));
    assert_eq!(model.get_shrine("Kam Urog Shrine").quest, Some("Trial of Passage".to_string()));
    assert_eq!(model.get_shrine_quest("Kam Urog Shrine").unwrap().name, "Trial of Passage");

    let mut bad = Model::new();
    assert_eq!(
        load_quests(&mut bad, &vec![parts("Lost", "Lost", None)]),
        Err(LoadError { line: 0, kind: LoadErrorKind::NoQuestType })
    );
    assert_eq!(
        load_quests(&mut bad, &vec![parts("#Daily", "#Daily", None), parts("Lost", "Lost", None)]),
        Err(LoadError { line: 1, kind: LoadErrorKind::UnknownQuestType })
    );
    assert_eq!(
        load_quests(&mut bad, &vec![parts("#Shrine", "#Shrine", None), parts("Q: S", "Q", Some("S"))]),
        Err(LoadError { line: 0, kind: LoadErrorKind::UnknownShrine })
    );
}

#[test]
fn section_lines_drop_amiibo_and_notes() {
    let content = "Bokoblin Mask: Kilton\n  // comment\n\nZant's Helmet (Amiibo)\nAncient Bridle (DLC)\n Korok Mask (Free DLC) \n".to_string();
    assert_eq!(section_to_lines(content), lines(&["Bokoblin Mask: Kilton", "Ancient Bridle", "Korok Mask"]));
}

#[test]
fn later_sections_replace_earlier_ones() {
    let map = break_into_sections(vec![pair("Weapons", "a"), pair("Armor", "b"), pair("Weapons", "c")]);
    assert_eq!(map.len(), 2);
    assert_eq!(map.key_at(0), "Armor");
    assert_eq!(map.value_at(0), "b");
    assert_eq!(map.key_at(1), "Weapons");
    assert_eq!(map.value_at(1), "c");
    assert!(map.contains_key("Armor"));
    assert!(!map.contains_key("armor"));
}

#[test]
fn a_header_with_a_space_gives_an_untrimmed_key() {
    let mut model = Model::new();
    assert_eq!(
        load_locations(&mut model, &lines(&["# Akkala"]), &vec![], &vec![]),
        Err(LoadError { line: 0, kind: LoadErrorKind::NotTrimmed })
    );
    assert_eq!(model.locations.len(), 0);
}

#[test]
fn children_get_the_last_parent_that_names_them() {
    let mut model = Model::new();
    let mut first = Location::new("Alpha", LocationType::Area, None);
    first.add_child_location("Delta");
    let mut second = Location::new("Beta", LocationType::Area, None);
    second.add_child_location("Delta");
    second.add_child_location("Gamma");
    model.add_location(first);
    model.add_location(second);
    model.add_location(Location::new("Gamma", LocationType::Normal, Some("Elsewhere".to_string())));
    model.add_location(Location::new("Delta", LocationType::Normal, None));
    model.add_location(Location::new("Epsilon", LocationType::Normal, Some("Alpha".to_string())));
    assert_eq!(add_location_parent_references(&mut model), Ok(()));
    assert_eq!(model.get_location("Delta").parent_location, Some("Beta".to_string()));
    assert_eq!(model.get_location("Gamma").parent_location, Some("Beta".to_string()));
    assert_eq!(model.get_location("Epsilon").parent_location, Some("Alpha".to_string()));
    assert_eq!(model.get_location("Alpha").parent_location, None);

    let mut own = Model::new();
    let mut narcissus = Location::new("Echo", LocationType::Area, None);
    narcissus.add_child_location("Echo");
    own.add_location(narcissus);
    assert_eq!(add_location_parent_references(&mut own), Err(LoadError { line: 0, kind: LoadErrorKind::OwnChild }));
}
