//! The reference model: characters, locations and quests by name, and the
//! player's counters.

use crate::name_map::NameMap;
use crate::text::{check_trimmed, is_trimmed, lowercase, same_text, to_lowercase};
use vstd::prelude::*;
use vstd::string::*;

verus! {

/// The time value that stands for "has not happened yet".
pub const NULL_TIME: usize = usize::MAX;

#[derive(Debug)]
pub struct Character {
    pub name: String,
    pub race: Race,
    pub main: bool,
    pub champion: bool,
    pub merchant: bool,
    pub alive: bool,
    pub mentioned_time: usize,
    pub met_time: usize,
    pub met_in_flashback_time: usize,
}

#[derive(Debug)]
pub struct Location {
    pub name: String,
    pub typ: LocationType,
    pub parent_location: Option<String>,
    pub dog_treasure: Option<String>,
    pub discovered_time: usize,
    pub dog_treasure_found_time: usize,
    pub challenge: Option<String>,
    pub quest: Option<String>,
    pub started_time: usize,
    pub completed_time: usize,
    pub flame_lit_time: usize,
    pub child_locations: Vec<String>,
}

#[derive(Clone, Copy, Debug, PartialEq, Eq, Structural)]
pub enum LocationType {
    Region,
    Area,
    Shrine,
    Tower,
    TechLab,
    Town,
    Stable,
    Normal,
}

#[derive(Debug)]
pub struct Quest {
    pub name: String,
    pub typ: QuestType,
    pub started_time: usize,
    pub completed_time: usize,
    pub notes: Option<String>,
    pub shrine: Option<String>,
}

#[derive(Clone, Copy, Debug, PartialEq, Eq, Structural)]
pub enum QuestType {
    Main,
    Side,
    Shrine,
}

#[derive(Clone, Copy, Debug, PartialEq, Eq, PartialOrd, Ord, Structural)]
pub enum Effect {
    RestoreHearts,
    TemporaryHearts,
    RestoreStamina,
    TemporaryStamina,
    MovementSpeed,
    Fireproof,
    ColdResistance,
    HeatResistance,
    ShockResistance,
    Attack,
    Defense,
    Fire,
    Cold,
    Shock,
    NightMovementSpeed,
    SwimmingSpeed,
    ClimbingSpeed,
    Disguise,
    Stealth,
}

#[derive(Clone, Copy, Debug, PartialEq, Eq, PartialOrd, Ord, Structural)]
pub enum Race {
    Amiibo,
    GreatFairy,
    Deity,
    Demon,
    Gerudo,
    Goron,
    Horse,
    Hylian,
    Korok,
    Rito,
    SandSeal,
    Sheikah,
    SheikahMonk,
    Yiga,
    Zora,
}

/// How a character stands with the player, from whether it lives and what has
/// happened with it.
pub open spec fn character_status_text(alive: bool, mentioned: bool, flashback: bool, met: bool) -> Seq<char> {
    if !alive {
        if mentioned {
            if flashback {
                "dead, mentioned and met in flashback"@
            } else {
                "dead, mentioned but not met"@
            }
        } else {
            if flashback {
                "dead, met in flashback"@
            } else {
                "dead, not mentioned or met"@
            }
        }
    } else if mentioned {
        if met {
            "mentioned and met"@
        } else if flashback {
            "mentioned and met in flashback"@
        } else {
            "mentioned, not met"@
        }
    } else {
        if met {
            "met"@
        } else if flashback {
            "met in flashback"@
        } else {
            "not mentioned or met"@
        }
    }
}

impl Character {
    /// A character that has not been mentioned or met.
    pub fn new(name: &str, race: &Race, main: bool, champion: bool, merchant: bool, alive: bool) -> (r: Self)
        ensures
            r.name@ == name@,
            r.race == *race,
            r.main == main,
            r.champion == champion,
            r.merchant == merchant,
            r.alive == alive,
            r.mentioned_time == NULL_TIME,
            r.met_time == NULL_TIME,
            r.met_in_flashback_time == NULL_TIME,
    {
        Self {
            name: name.to_string(),
            race: *race,
            main,
            champion,
            merchant,
            alive,
            mentioned_time: NULL_TIME,
            met_time: NULL_TIME,
            met_in_flashback_time: NULL_TIME,
        }
    }

    /// Whether the character has been mentioned.
    pub open spec fn mentioned(&self) -> bool {
        self.mentioned_time != NULL_TIME
    }

    /// Whether the character has been met.
    pub open spec fn met(&self) -> bool {
        self.met_time != NULL_TIME
    }

    /// Whether the character has been met in a flashback.
    pub open spec fn met_in_flashback(&self) -> bool {
        self.met_in_flashback_time != NULL_TIME
    }

    #[verifier::when_used_as_spec(mentioned)]
    pub fn is_mentioned(&self) -> (r: bool)
        ensures
            r == self.mentioned(),
    {
        self.mentioned_time != NULL_TIME
    }

    #[verifier::when_used_as_spec(met)]
    pub fn is_met(&self) -> (r: bool)
        ensures
            r == self.met(),
    {
        self.met_time != NULL_TIME
    }

    #[verifier::when_used_as_spec(met_in_flashback)]
    pub fn is_met_in_flashback(&self) -> (r: bool)
        ensures
            r == self.met_in_flashback(),
    {
        self.met_in_flashback_time != NULL_TIME
    }

    /// The character's status in words.
    pub fn status_description(&self, _model: &Model) -> (r: String)
        ensures
            r@ == character_status_text(self.alive, self.mentioned(), self.met_in_flashback(), self.met()),
    {
        let text = match (self.alive, self.is_mentioned(), self.is_met_in_flashback(), self.is_met()) {
            (false, false, false, _) => "dead, not mentioned or met",
            (false, false, true, _) => "dead, met in flashback",
            (false, true, false, _) => "dead, mentioned but not met",
            (false, true, true, _) => "dead, mentioned and met in flashback",
            (true, false, false, false) => "not mentioned or met",
            (true, false, false, true) => "met",
            (true, false, true, false) => "met in flashback",
            (true, false, true, true) => "met",
            (true, true, false, false) => "mentioned, not met",
            (true, true, false, true) => "mentioned and met",
            (true, true, true, false) => "mentioned and met in flashback",
            (true, true, true, true) => "mentioned and met",
        };
        text.to_string()
    }
}

/// The reference model with the player's counters.
#[derive(Debug)]
pub struct Model {
    pub hearts: usize,
    pub stamina: usize,
    pub weapon_slots: usize,
    pub bow_slots: usize,
    pub shield_slots: usize,
    pub korok_seeds: usize,
    pub chests: usize,
    pub deaths: usize,
    pub blood_moons: usize,
    pub characters: NameMap<Character>,
    pub locations: NameMap<Location>,
    pub quests: NameMap<Quest>,
}

/// What a place or a quest is called by how far it has come.
pub open spec fn completion_text(started: bool, completed: bool) -> Seq<char> {
    if completed {
        "completed"@
    } else if started {
        "started"@
    } else {
        "not started"@
    }
}

impl Location {
    /// A location at which nothing has happened yet.
    pub fn new(name: &str, typ: LocationType, parent_location: Option<String>) -> (r: Self)
        ensures
            r.name@ == name@,
            r.typ == typ,
            r.parent_location == parent_location,
            r.dog_treasure is None,
            r.challenge is None,
            r.quest is None,
            r.discovered_time == NULL_TIME,
            r.dog_treasure_found_time == NULL_TIME,
            r.started_time == NULL_TIME,
            r.completed_time == NULL_TIME,
            r.flame_lit_time == NULL_TIME,
            r.child_locations@.len() == 0,
    {
        Self {
            name: name.to_string(),
            discovered_time: NULL_TIME,
            typ,
            parent_location,
            dog_treasure: None,
            dog_treasure_found_time: NULL_TIME,
            challenge: None,
            quest: None,
            started_time: NULL_TIME,
            completed_time: NULL_TIME,
            flame_lit_time: NULL_TIME,
            child_locations: Vec::new(),
        }
    }

    /// The names of the child locations, in the order in which they were
    /// added.
    pub open spec fn child_names(&self) -> Seq<Seq<char>> {
        Seq::new(self.child_locations@.len(), |i: int| self.child_locations@[i]@)
    }

    /// Whether `name` is among the child locations.
    pub fn has_child_location(&self, name: &str) -> (r: bool)
        ensures
            r == self.child_names().contains(name@),
    {
        let wanted = name.to_string();
        let mut i: usize = 0;
        while i < self.child_locations.len()
            invariant
                i <= self.child_locations.len(),
                wanted@ == name@,
                forall|j: int| 0 <= j < i ==> self.child_names()[j] != name@,
            decreases self.child_locations.len() - i,
        {
            if self.child_locations[i] == wanted {
                assert(self.child_names()[i as int] == name@);
                return true;
            }
            i += 1;
        }
        false
    }

    /// Adds the name of a child location, which must be trimmed and new here.
    pub fn add_child_location(&mut self, name: &str)
        requires
            is_trimmed(name@),
            !old(self).child_names().contains(name@),
        ensures
            final(self).child_names() == old(self).child_names().push(name@),
            final(self).same_but_children(*old(self)),
    {
        let name = name.to_string();
        self.child_locations.push(name);
        assert(self.child_names() =~= old(self).child_names().push(name@));
    }

    /// Adds the name of a child location if it is trimmed and new here, and
    /// tells whether it did.
    pub fn try_add_child_location(&mut self, name: &str) -> (r: bool)
        ensures
            r == (is_trimmed(name@) && !old(self).child_names().contains(name@)),
            r ==> final(self).child_names() == old(self).child_names().push(name@),
            !r ==> final(self).child_names() == old(self).child_names(),
            final(self).same_but_children(*old(self)),
    {
        if check_trimmed(name) && !self.has_child_location(name) {
            self.add_child_location(name);
            true
        } else {
            false
        }
    }

    /// Every field but the child locations is as in `other`.
    pub open spec fn same_but_children(&self, other: Self) -> bool {
        &&& self.name == other.name
        &&& self.typ == other.typ
        &&& self.parent_location == other.parent_location
        &&& self.dog_treasure == other.dog_treasure
        &&& self.discovered_time == other.discovered_time
        &&& self.dog_treasure_found_time == other.dog_treasure_found_time
        &&& self.challenge == other.challenge
        &&& self.quest == other.quest
        &&& self.started_time == other.started_time
        &&& self.completed_time == other.completed_time
        &&& self.flame_lit_time == other.flame_lit_time
    }

    /// Whether the location has been discovered.
    pub open spec fn discovered(&self) -> bool {
        self.discovered_time != NULL_TIME
    }

    /// Whether the dog treasure here has been found.
    pub open spec fn dog_treasure_found(&self) -> bool {
        self.dog_treasure_found_time != NULL_TIME
    }

    /// Whether the shrine here has been started.
    pub open spec fn started(&self) -> bool {
        self.started_time != NULL_TIME
    }

    /// Whether the shrine here has been completed.
    pub open spec fn completed(&self) -> bool {
        self.completed_time != NULL_TIME
    }

    /// Whether the flame here has been lit.
    pub open spec fn flame_lit(&self) -> bool {
        self.flame_lit_time != NULL_TIME
    }

    #[verifier::when_used_as_spec(discovered)]
    pub fn is_discovered(&self) -> (r: bool)
        ensures
            r == self.discovered(),
    {
        self.discovered_time != NULL_TIME
    }

    pub fn discovery_label(&self) -> (r: &str)
        ensures
            r@ == (if self.discovered() {
                "discovered"@
            } else {
                "not discovered"@
            }),
    {
        if self.is_discovered() {
            "discovered"
        } else {
            "not discovered"
        }
    }

    pub fn has_dog_treasure(&self) -> (r: bool)
        ensures
            r == self.dog_treasure is Some,
    {
        self.dog_treasure.is_some()
    }

    #[verifier::when_used_as_spec(dog_treasure_found)]
    pub fn is_dog_treasure_found(&self) -> (r: bool)
        ensures
            r == self.dog_treasure_found(),
    {
        self.dog_treasure_found_time != NULL_TIME
    }

    #[verifier::when_used_as_spec(started)]
    pub fn is_started(&self) -> (r: bool)
        ensures
            r == self.started(),
    {
        self.started_time != NULL_TIME
    }

    #[verifier::when_used_as_spec(completed)]
    pub fn is_completed(&self) -> (r: bool)
        ensures
            r == self.completed(),
    {
        self.completed_time != NULL_TIME
    }

    pub fn completion_label(&self) -> (r: &str)
        ensures
            r@ == completion_text(self.started(), self.completed()),
    {
        if self.is_completed() {
            "completed"
        } else if self.is_started() {
            "started"
        } else {
            "not started"
        }
    }

    #[verifier::when_used_as_spec(flame_lit)]
    pub fn is_flame_lit(&self) -> (r: bool)
        ensures
            r == self.flame_lit(),
    {
        self.flame_lit_time != NULL_TIME
    }

    /// The name, followed by the shrine's challenge in brackets where there
    /// is one.
    pub open spec fn name_with_challenge_text(&self) -> Seq<char> {
        match self.challenge {
            Some(challenge) => self.name@ + " ("@ + challenge@ + ")"@,
            None => self.name@,
        }
    }

    pub fn name_with_shrine_challenge(&self) -> (r: String)
        ensures
            r@ == self.name_with_challenge_text(),
    {
        let mut text = self.name.clone();
        match &self.challenge {
            Some(challenge) => {
                text.append(" (");
                text.append(challenge.as_str());
                text.append(")");
            },
            None => {},
        }
        text
    }
}

impl LocationType {
    /// The name of the variant.
    pub open spec fn name(&self) -> Seq<char> {
        match self {
            LocationType::Region => "Region"@,
            LocationType::Area => "Area"@,
            LocationType::Shrine => "Shrine"@,
            LocationType::Tower => "Tower"@,
            LocationType::TechLab => "TechLab"@,
            LocationType::Town => "Town"@,
            LocationType::Stable => "Stable"@,
            LocationType::Normal => "Normal"@,
        }
    }

    pub fn variant_to_string<'a>(&self) -> (r: &'a str)
        ensures
            r@ == self.name(),
    {
        match self {
            LocationType::Region => "Region",
            LocationType::Area => "Area",
            LocationType::Shrine => "Shrine",
            LocationType::Tower => "Tower",
            LocationType::TechLab => "TechLab",
            LocationType::Town => "Town",
            LocationType::Stable => "Stable",
            LocationType::Normal => "Normal",
        }
    }
}

impl Quest {
    fn new(name: &str, typ: QuestType, notes: Option<String>, shrine: Option<String>) -> (r: Self)
        ensures
            r.name@ == name@,
            r.typ == typ,
            r.notes == notes,
            r.shrine == shrine,
            r.started_time == NULL_TIME,
            r.completed_time == NULL_TIME,
    {
        Self { name: name.to_string(), typ, started_time: NULL_TIME, completed_time: NULL_TIME, notes, shrine }
    }

    /// A main quest, not started.
    pub fn new_main(name: &str) -> (r: Self)
        ensures
            r.name@ == name@,
            r.typ == QuestType::Main,
            r.notes is None,
            r.shrine is None,
            r.started_time == NULL_TIME,
            r.completed_time == NULL_TIME,
    {
        Self::new(name, QuestType::Main, None, None)
    }

    /// A side quest with its notes, not started.
    pub fn new_side(name: &str, notes: Option<String>) -> (r: Self)
        ensures
            r.name@ == name@,
            r.typ == QuestType::Side,
            r.notes == notes,
            r.shrine is None,
            r.started_time == NULL_TIME,
            r.completed_time == NULL_TIME,
    {
        Self::new(name, QuestType::Side, notes, None)
    }

    /// The quest that belongs to the shrine of the given name, not started.
    pub fn new_shrine(name: &str, shrine: &str) -> (r: Self)
        ensures
            r.name@ == name@,
            r.typ == QuestType::Shrine,
            r.notes is None,
            r.shrine is Some,
            r.shrine->0@ == shrine@,
            r.started_time == NULL_TIME,
            r.completed_time == NULL_TIME,
    {
        Self::new(name, QuestType::Shrine, None, Some(shrine.to_string()))
    }

    /// Whether the quest has been started.
    pub open spec fn started(&self) -> bool {
        self.started_time != NULL_TIME
    }

    /// Whether the quest has been completed.
    pub open spec fn completed(&self) -> bool {
        self.completed_time != NULL_TIME
    }

    #[verifier::when_used_as_spec(started)]
    pub fn is_started(&self) -> (r: bool)
        ensures
            r == self.started(),
    {
        self.started_time != NULL_TIME
    }

    #[verifier::when_used_as_spec(completed)]
    pub fn is_completed(&self) -> (r: bool)
        ensures
            r == self.completed(),
    {
        self.completed_time != NULL_TIME
    }

    pub fn completion_label(&self) -> (r: &str)
        ensures
            r@ == completion_text(self.started(), self.completed()),
    {
        if self.is_completed() {
            "completed"
        } else if self.is_started() {
            "started"
        } else {
            "not started"
        }
    }
}

impl QuestType {
    /// The name of the variant.
    pub open spec fn name(&self) -> Seq<char> {
        match self {
            QuestType::Main => "Main"@,
            QuestType::Side => "Side"@,
            QuestType::Shrine => "Shrine"@,
        }
    }

    pub fn variant_to_string<'a>(&self) -> (r: &'a str)
        ensures
            r@ == self.name(),
    {
        match self {
            QuestType::Main => "Main",
            QuestType::Side => "Side",
            QuestType::Shrine => "Shrine",
        }
    }
}

/// The model as mathematical data: the counters, and each kind of entity as a
/// map from the lower-case form of its name.
pub struct ModelView {
    pub hearts: usize,
    pub stamina: usize,
    pub weapon_slots: usize,
    pub bow_slots: usize,
    pub shield_slots: usize,
    pub korok_seeds: usize,
    pub chests: usize,
    pub deaths: usize,
    pub blood_moons: usize,
    pub characters: Map<Seq<char>, Character>,
    pub locations: Map<Seq<char>, Location>,
    pub quests: Map<Seq<char>, Quest>,
}

impl ModelView {
    /// Whether a character of this name is known, whatever the case of its
    /// letters.
    pub open spec fn has_character(self, name: Seq<char>) -> bool {
        self.characters.contains_key(lowercase(name))
    }

    /// The character of this name.
    pub open spec fn character(self, name: Seq<char>) -> Character {
        self.characters[lowercase(name)]
    }

    /// Whether a location of this name is known.
    pub open spec fn has_location(self, name: Seq<char>) -> bool {
        self.locations.contains_key(lowercase(name))
    }

    /// The location of this name.
    pub open spec fn location(self, name: Seq<char>) -> Location {
        self.locations[lowercase(name)]
    }

    /// Whether a location of this name is known and is a shrine.
    pub open spec fn has_shrine(self, name: Seq<char>) -> bool {
        self.has_location(name) && self.location(name).typ == LocationType::Shrine
    }

    /// Whether a quest of this name is known.
    pub open spec fn has_quest(self, name: Seq<char>) -> bool {
        self.quests.contains_key(lowercase(name))
    }

    /// The quest of this name.
    pub open spec fn quest(self, name: Seq<char>) -> Quest {
        self.quests[lowercase(name)]
    }

    /// Every entity is filed under the lower-case form of its own name.
    pub open spec fn names_match(self) -> bool {
        &&& forall|k: Seq<char>| #[trigger]
            self.characters.contains_key(k) ==> lowercase(self.characters[k].name@) == k
        &&& forall|k: Seq<char>| #[trigger]
            self.locations.contains_key(k) ==> lowercase(self.locations[k].name@) == k
        &&& forall|k: Seq<char>| #[trigger] self.quests.contains_key(k) ==> lowercase(self.quests[k].name@) == k
    }
}

/// Why an entity was not added to the model.
#[derive(Clone, Copy, Debug, PartialEq, Eq, Structural)]
pub enum AddError {
    /// The lower-case form of the name has white space at an end.
    NotTrimmed,
    /// An entity of that kind is filed under the name already.
    AlreadyPresent,
}

impl View for Model {
    type V = ModelView;

    open spec fn view(&self) -> ModelView {
        ModelView {
            hearts: self.hearts,
            stamina: self.stamina,
            weapon_slots: self.weapon_slots,
            bow_slots: self.bow_slots,
            shield_slots: self.shield_slots,
            korok_seeds: self.korok_seeds,
            chests: self.chests,
            deaths: self.deaths,
            blood_moons: self.blood_moons,
            characters: self.characters@,
            locations: self.locations@,
            quests: self.quests@,
        }
    }
}

impl Model {
    /// The three maps are well formed and file each entity under the
    /// lower-case form of its name.
    pub open spec fn wf(&self) -> bool {
        &&& self.characters.wf()
        &&& self.locations.wf()
        &&& self.quests.wf()
        &&& self@.names_match()
    }

    /// The view of a well-formed model files each entity under the key of
    /// its name and holds finitely many locations.
    pub proof fn lemma_view_of_wf(&self)
        requires
            self.wf(),
        ensures
            self@.names_match(),
            self@.locations.dom().finite(),
            self@.locations.dom().len() == self.locations.keys().len(),
    {
        self.locations.lemma_len();
    }

    /// The model at the start of a game: the counters at their first values,
    /// and no entity yet.
    pub fn new() -> (r: Self)
        ensures
            r.wf(),
            r@ == (ModelView {
                hearts: 3,
                stamina: 5,
                weapon_slots: 8,
                bow_slots: 5,
                shield_slots: 4,
                korok_seeds: 0,
                chests: 0,
                deaths: 0,
                blood_moons: 0,
                characters: Map::empty(),
                locations: Map::empty(),
                quests: Map::empty(),
            }),
    {
        Self {
            hearts: 3,
            stamina: 5,
            weapon_slots: 8,
            bow_slots: 5,
            shield_slots: 4,
            korok_seeds: 0,
            chests: 0,
            deaths: 0,
            blood_moons: 0,
            characters: NameMap::new(),
            locations: NameMap::new(),
            quests: NameMap::new(),
        }
    }

    /// Files a character under the lower-case form of its name, which must be
    /// trimmed and not taken.
    pub fn add_character(&mut self, character: Character)
        requires
            old(self).wf(),
            is_trimmed(lowercase(character.name@)),
            !old(self)@.has_character(character.name@),
        ensures
            final(self).wf(),
            final(self)@ == (ModelView {
                characters: old(self)@.characters.insert(lowercase(character.name@), character),
                ..old(self)@
            }),
    {
        let key = to_lowercase(character.name.as_str());
        self.characters.insert(key, character);
    }

    /// Files a character if its key is trimmed and free; else leaves the
    /// model as it is and says which of the two failed.
    pub fn try_add_character(&mut self, character: Character) -> (r: Result<(), AddError>)
        requires
            old(self).wf(),
        ensures
            final(self).wf(),
            match r {
                Ok(()) => {
                    &&& is_trimmed(lowercase(character.name@))
                    &&& !old(self)@.has_character(character.name@)
                    &&& final(self)@ == (ModelView {
                        characters: old(self)@.characters.insert(lowercase(character.name@), character),
                        ..old(self)@
                    })
                },
                Err(AddError::NotTrimmed) => !is_trimmed(lowercase(character.name@)) && final(self)@ == old(self)@,
                Err(AddError::AlreadyPresent) => {
                    &&& is_trimmed(lowercase(character.name@))
                    &&& old(self)@.has_character(character.name@)
                    &&& final(self)@ == old(self)@
                },
            },
    {
        let key = to_lowercase(character.name.as_str());
        if !check_trimmed(key.as_str()) {
            Err(AddError::NotTrimmed)
        } else if self.characters.contains_key(key.as_str()) {
            Err(AddError::AlreadyPresent)
        } else {
            self.add_character(character);
            Ok(())
        }
    }

    /// The character of this name, if there is one.
    pub fn find_character<'a>(&'a self, name: &str) -> (r: Option<&'a Character>)
        requires
            self.wf(),
        ensures
            match r {
                Some(character) => self@.has_character(name@) && *character == self@.character(name@),
                None => !self@.has_character(name@),
            },
    {
        let key = to_lowercase(name);
        match self.characters.position(key.as_str()) {
            Some(i) => Some(self.characters.value_at(i)),
            None => None,
        }
    }

    /// The character of this name, which must be known.
    pub fn get_character<'a>(&'a self, name: &str) -> (r: &'a Character)
        requires
            self.wf(),
            self@.has_character(name@),
        ensures
            *r == self@.character(name@),
    {
        let key = to_lowercase(name);
        match self.characters.position(key.as_str()) {
            Some(i) => self.characters.value_at(i),
            None => vstd::pervasive::unreached(),
        }
    }

    /// The character of this name, to be changed in place. Nothing else in
    /// the model changes, and the model stays well formed as long as the
    /// character keeps its key.
    pub fn get_character_mut<'a>(&'a mut self, name: &str) -> (r: &'a mut Character)
        requires
            old(self).wf(),
            old(self)@.has_character(name@),
        ensures
            *r == old(self)@.character(name@),
            final(self)@ == (ModelView {
                characters: old(self)@.characters.insert(lowercase(name@), *final(r)),
                ..old(self)@
            }),
            lowercase(final(r).name@) == lowercase(name@) ==> final(self).wf(),
    {
        let key = to_lowercase(name);
        match self.characters.position(key.as_str()) {
            Some(i) => self.characters.value_at_mut(i),
            None => vstd::pervasive::unreached(),
        }
    }

    /// Files a location under the lower-case form of its name, which must be
    /// trimmed and not taken.
    pub fn add_location(&mut self, location: Location)
        requires
            old(self).wf(),
            is_trimmed(lowercase(location.name@)),
            !old(self)@.has_location(location.name@),
        ensures
            final(self).wf(),
            final(self)@ == (ModelView {
                locations: old(self)@.locations.insert(lowercase(location.name@), location),
                ..old(self)@
            }),
    {
        let key = to_lowercase(location.name.as_str());
        self.locations.insert(key, location);
    }

    /// Files a location if its key is trimmed and free; else leaves the
    /// model as it is and says which of the two failed.
    pub fn try_add_location(&mut self, location: Location) -> (r: Result<(), AddError>)
        requires
            old(self).wf(),
        ensures
            final(self).wf(),
            match r {
                Ok(()) => {
                    &&& is_trimmed(lowercase(location.name@))
                    &&& !old(self)@.has_location(location.name@)
                    &&& final(self)@ == (ModelView {
                        locations: old(self)@.locations.insert(lowercase(location.name@), location),
                        ..old(self)@
                    })
                },
                Err(AddError::NotTrimmed) => !is_trimmed(lowercase(location.name@)) && final(self)@ == old(self)@,
                Err(AddError::AlreadyPresent) => {
                    &&& is_trimmed(lowercase(location.name@))
                    &&& old(self)@.has_location(location.name@)
                    &&& final(self)@ == old(self)@
                },
            },
    {
        let key = to_lowercase(location.name.as_str());
        if !check_trimmed(key.as_str()) {
            Err(AddError::NotTrimmed)
        } else if self.locations.contains_key(key.as_str()) {
            Err(AddError::AlreadyPresent)
        } else {
            self.add_location(location);
            Ok(())
        }
    }

    /// The location of this name, if there is one.
    pub fn find_location<'a>(&'a self, name: &str) -> (r: Option<&'a Location>)
        requires
            self.wf(),
        ensures
            match r {
                Some(location) => self@.has_location(name@) && *location == self@.location(name@),
                None => !self@.has_location(name@),
            },
    {
        let key = to_lowercase(name);
        match self.locations.position(key.as_str()) {
            Some(i) => Some(self.locations.value_at(i)),
            None => None,
        }
    }

    /// The location of this name, which must be known.
    pub fn get_location<'a>(&'a self, name: &str) -> (r: &'a Location)
        requires
            self.wf(),
            self@.has_location(name@),
        ensures
            *r == self@.location(name@),
    {
        let key = to_lowercase(name);
        match self.locations.position(key.as_str()) {
            Some(i) => self.locations.value_at(i),
            None => vstd::pervasive::unreached(),
        }
    }

    /// The location of this name, to be changed in place. Nothing else in
    /// the model changes, and the model stays well formed as long as the
    /// location keeps its key.
    pub fn get_location_mut<'a>(&'a mut self, name: &str) -> (r: &'a mut Location)
        requires
            old(self).wf(),
            old(self)@.has_location(name@),
        ensures
            *r == old(self)@.location(name@),
            final(self)@ == (ModelView {
                locations: old(self)@.locations.insert(lowercase(name@), *final(r)),
                ..old(self)@
            }),
            lowercase(final(r).name@) == lowercase(name@) ==> final(self).wf(),
    {
        let key = to_lowercase(name);
        match self.locations.position(key.as_str()) {
            Some(i) => self.locations.value_at_mut(i),
            None => vstd::pervasive::unreached(),
        }
    }

    /// Files a quest under the lower-case form of its name, which must be
    /// trimmed and not taken.
    pub fn add_quest(&mut self, quest: Quest)
        requires
            old(self).wf(),
            is_trimmed(lowercase(quest.name@)),
            !old(self)@.has_quest(quest.name@),
        ensures
            final(self).wf(),
            final(self)@ == (ModelView {
                quests: old(self)@.quests.insert(lowercase(quest.name@), quest),
                ..old(self)@
            }),
    {
        let key = to_lowercase(quest.name.as_str());
        self.quests.insert(key, quest);
    }

    /// Files a quest if its key is trimmed and free; else leaves the
    /// model as it is and says which of the two failed.
    pub fn try_add_quest(&mut self, quest: Quest) -> (r: Result<(), AddError>)
        requires
            old(self).wf(),
        ensures
            final(self).wf(),
            match r {
                Ok(()) => {
                    &&& is_trimmed(lowercase(quest.name@))
                    &&& !old(self)@.has_quest(quest.name@)
                    &&& final(self)@ == (ModelView {
                        quests: old(self)@.quests.insert(lowercase(quest.name@), quest),
                        ..old(self)@
                    })
                },
                Err(AddError::NotTrimmed) => !is_trimmed(lowercase(quest.name@)) && final(self)@ == old(self)@,
                Err(AddError::AlreadyPresent) => {
                    &&& is_trimmed(lowercase(quest.name@))
                    &&& old(self)@.has_quest(quest.name@)
                    &&& final(self)@ == old(self)@
                },
            },
    {
        let key = to_lowercase(quest.name.as_str());
        if !check_trimmed(key.as_str()) {
            Err(AddError::NotTrimmed)
        } else if self.quests.contains_key(key.as_str()) {
            Err(AddError::AlreadyPresent)
        } else {
            self.add_quest(quest);
            Ok(())
        }
    }

    /// The quest of this name, if there is one.
    pub fn find_quest<'a>(&'a self, name: &str) -> (r: Option<&'a Quest>)
        requires
            self.wf(),
        ensures
            match r {
                Some(quest) => self@.has_quest(name@) && *quest == self@.quest(name@),
                None => !self@.has_quest(name@),
            },
    {
        let key = to_lowercase(name);
        match self.quests.position(key.as_str()) {
            Some(i) => Some(self.quests.value_at(i)),
            None => None,
        }
    }

    /// The quest of this name, which must be known.
    pub fn get_quest<'a>(&'a self, name: &str) -> (r: &'a Quest)
        requires
            self.wf(),
            self@.has_quest(name@),
        ensures
            *r == self@.quest(name@),
    {
        let key = to_lowercase(name);
        match self.quests.position(key.as_str()) {
            Some(i) => self.quests.value_at(i),
            None => vstd::pervasive::unreached(),
        }
    }

    /// The quest of this name, to be changed in place. Nothing else in
    /// the model changes, and the model stays well formed as long as the
    /// quest keeps its key.
    pub fn get_quest_mut<'a>(&'a mut self, name: &str) -> (r: &'a mut Quest)
        requires
            old(self).wf(),
            old(self)@.has_quest(name@),
        ensures
            *r == old(self)@.quest(name@),
            final(self)@ == (ModelView {
                quests: old(self)@.quests.insert(lowercase(name@), *final(r)),
                ..old(self)@
            }),
            lowercase(final(r).name@) == lowercase(name@) ==> final(self).wf(),
    {
        let key = to_lowercase(name);
        match self.quests.position(key.as_str()) {
            Some(i) => self.quests.value_at_mut(i),
            None => vstd::pervasive::unreached(),
        }
    }

    /// The parent of the location of this name, where it has one. The
    /// location must be known, and its parent too.
    pub fn get_parent_location<'a>(&'a self, name: &str) -> (r: Option<&'a Location>)
        requires
            self.wf(),
            self@.has_location(name@),
            self@.location(name@).parent_location is Some ==> self@.has_location(
                self@.location(name@).parent_location->0@,
            ),
        ensures
            match r {
                Some(parent) => {
                    &&& self@.location(name@).parent_location is Some
                    &&& *parent == self@.location(self@.location(name@).parent_location->0@)
                },
                None => self@.location(name@).parent_location is None,
            },
    {
        match &self.get_location(name).parent_location {
            Some(parent_name) => Some(self.get_location(parent_name.as_str())),
            None => None,
        }
    }

    /// The shrine of this name, if a location of this name is known and is a
    /// shrine.
    pub fn find_shrine<'a>(&'a self, name: &str) -> (r: Option<&'a Location>)
        requires
            self.wf(),
        ensures
            match r {
                Some(shrine) => self@.has_shrine(name@) && *shrine == self@.location(name@),
                None => !self@.has_shrine(name@),
            },
    {
        match self.find_location(name) {
            Some(location) => match location.typ {
                LocationType::Shrine => Some(location),
                _ => None,
            },
            None => None,
        }
    }

    /// The shrine of this name, which must be known and be a shrine.
    pub fn get_shrine<'a>(&'a self, name: &str) -> (r: &'a Location)
        requires
            self.wf(),
            self@.has_shrine(name@),
        ensures
            *r == self@.location(name@),
    {
        self.get_location(name)
    }

    /// The shrine of this name, to be changed in place.
    pub fn get_shrine_mut<'a>(&'a mut self, name: &str) -> (r: &'a mut Location)
        requires
            old(self).wf(),
            old(self)@.has_shrine(name@),
        ensures
            *r == old(self)@.location(name@),
            final(self)@ == (ModelView {
                locations: old(self)@.locations.insert(lowercase(name@), *final(r)),
                ..old(self)@
            }),
            lowercase(final(r).name@) == lowercase(name@) ==> final(self).wf(),
    {
        self.get_location_mut(name)
    }

    /// The quest that belongs to the shrine of this name, where it has one.
    /// The shrine must be known, and its quest too.
    pub fn get_shrine_quest<'a>(&'a self, name: &str) -> (r: Option<&'a Quest>)
        requires
            self.wf(),
            self@.has_shrine(name@),
            self@.location(name@).quest is Some ==> self@.has_quest(self@.location(name@).quest->0@),
        ensures
            match r {
                Some(quest) => {
                    &&& self@.location(name@).quest is Some
                    &&& *quest == self@.quest(self@.location(name@).quest->0@)
                },
                None => self@.location(name@).quest is None,
            },
    {
        match &self.get_shrine(name).quest {
            Some(quest_name) => Some(self.get_quest(quest_name.as_str())),
            None => None,
        }
    }
}

/// What is said of a location: whether it is discovered, whether a dog
/// treasure waits there, how far a shrine has come, how far the quest that
/// belongs to it, and whether a tech lab's flame is lit.
pub open spec fn location_status_text(location: Location, m: ModelView) -> Seq<char> {
    (if location.discovered() {
        "discovered"@
    } else {
        "not discovered"@
    }) + (if location.dog_treasure is Some && !location.dog_treasure_found() {
        "; has dog treasure"@
    } else {
        Seq::empty()
    }) + (if location.typ == LocationType::Shrine {
        "; shrine is "@ + completion_text(location.started(), location.completed())
    } else {
        Seq::empty()
    }) + (match location.quest {
        Some(quest_name) => "; quest "@ + quest_name@ + " is "@ + completion_text(
            m.quest(quest_name@).started(),
            m.quest(quest_name@).completed(),
        ),
        None => Seq::empty(),
    }) + (if location.typ == LocationType::TechLab {
        if location.flame_lit() {
            "; flame is lit"@
        } else {
            "; flame is not yet lit"@
        }
    } else {
        Seq::empty()
    })
}

/// What is said of a quest: how far it has come and of what kind it is, and
/// for a shrine's quest the shrine and how far that has come.
pub open spec fn quest_status_text(quest: Quest, m: ModelView) -> Seq<char> {
    completion_text(quest.started(), quest.completed()) + ": "@ + (match quest.typ {
        QuestType::Main => "main quest"@,
        QuestType::Side => "side quest"@,
        QuestType::Shrine => "shrine quest for "@ + quest.shrine->0@ + " ("@ + completion_text(
            m.location(quest.shrine->0@).started(),
            m.location(quest.shrine->0@).completed(),
        ) + ")"@,
    })
}

impl ModelView {
    /// Whether the model knows what the status of the location speaks of:
    /// its quest, where it has one.
    pub open spec fn can_describe_location(self, location: Location) -> bool {
        location.quest is Some ==> self.has_quest(location.quest->0@)
    }

    /// Whether the model knows what the status of the quest speaks of: for a
    /// shrine's quest, its shrine.
    pub open spec fn can_describe_quest(self, quest: Quest) -> bool {
        quest.typ == QuestType::Shrine ==> quest.shrine is Some && self.has_shrine(quest.shrine->0@)
    }
}

impl Location {
    /// Tells whether the model knows the quest of this location, where it
    /// has one.
    pub fn can_describe(&self, model: &Model) -> (r: bool)
        requires
            model.wf(),
        ensures
            r == model@.can_describe_location(*self),
    {
        match &self.quest {
            Some(quest_name) => model.find_quest(quest_name.as_str()).is_some(),
            None => true,
        }
    }

    /// The status of the location in words. The model must know the quest of
    /// the location, where it has one.
    pub fn status_description(&self, model: &Model) -> (r: String)
        requires
            model.wf(),
            model@.can_describe_location(*self),
        ensures
            r@ == location_status_text(*self, model@),
    {
        let mut text = self.discovery_label().to_string();
        let ghost empty = Seq::<char>::empty();
        if self.has_dog_treasure() && !self.is_dog_treasure_found() {
            text.append("; has dog treasure");
        } else {
            assert(text@ + empty =~= text@);
        }
        match self.typ {
            LocationType::Shrine => {
                let ghost before = text@;
                text.append("; shrine is ");
                text.append(self.completion_label());
                assert(text@ =~= before + ("; shrine is "@ + completion_text(self.started(), self.completed())));
            },
            _ => {
                assert(text@ + empty =~= text@);
            },
        }
        match &self.quest {
            Some(quest_name) => {
                let ghost before = text@;
                text.append("; quest ");
                text.append(quest_name.as_str());
                text.append(" is ");
                text.append(model.get_quest(quest_name.as_str()).completion_label());
                assert(text@ =~= before + ("; quest "@ + quest_name@ + " is "@ + completion_text(
                    model@.quest(quest_name@).started(),
                    model@.quest(quest_name@).completed(),
                )));
            },
            None => {
                assert(text@ + empty =~= text@);
            },
        }
        match self.typ {
            LocationType::TechLab => {
                if self.is_flame_lit() {
                    text.append("; flame is lit");
                } else {
                    text.append("; flame is not yet lit");
                }
            },
            _ => {
                assert(text@ + empty =~= text@);
            },
        }
        text
    }
}

impl Quest {
    /// Tells whether the model knows the shrine of this quest, where the
    /// quest is a shrine's.
    pub fn can_describe(&self, model: &Model) -> (r: bool)
        requires
            model.wf(),
        ensures
            r == model@.can_describe_quest(*self),
    {
        match self.typ {
            QuestType::Shrine => match &self.shrine {
                Some(shrine_name) => model.find_shrine(shrine_name.as_str()).is_some(),
                None => false,
            },
            _ => true,
        }
    }

    /// The status of the quest in words. For a shrine's quest the model must
    /// know the shrine.
    pub fn status_description(&self, model: &Model) -> (r: String)
        requires
            model.wf(),
            model@.can_describe_quest(*self),
        ensures
            r@ == quest_status_text(*self, model@),
    {
        let mut text = self.completion_label().to_string();
        text.append(": ");
        let ghost before = text@;
        match self.typ {
            QuestType::Main => {
                text.append("main quest");
            },
            QuestType::Side => {
                text.append("side quest");
            },
            QuestType::Shrine => {
                match &self.shrine {
                    Some(shrine_name) => {
                        let shrine_completion = model.get_shrine(shrine_name.as_str()).completion_label();
                        text.append("shrine quest for ");
                        text.append(shrine_name.as_str());
                        text.append(" (");
                        text.append(shrine_completion);
                        text.append(")");
                        assert(text@ =~= before + ("shrine quest for "@ + shrine_name@ + " ("@ + completion_text(
                            model@.location(shrine_name@).started(),
                            model@.location(shrine_name@).completed(),
                        ) + ")"@));
                    },
                    None => {
                        assert(false);
                    },
                }
            },
        }
        text
    }
}

impl Race {
    /// The name of the variant.
    pub open spec fn name(&self) -> Seq<char> {
        match self {
            Race::Amiibo => "Amiibo"@,
            Race::GreatFairy => "GreatFairy"@,
            Race::Deity => "Deity"@,
            Race::Demon => "Demon"@,
            Race::Gerudo => "Gerudo"@,
            Race::Goron => "Goron"@,
            Race::Horse => "Horse"@,
            Race::Hylian => "Hylian"@,
            Race::Korok => "Korok"@,
            Race::Rito => "Rito"@,
            Race::SandSeal => "SandSeal"@,
            Race::Sheikah => "Sheikah"@,
            Race::SheikahMonk => "SheikahMonk"@,
            Race::Yiga => "Yiga"@,
            Race::Zora => "Zora"@,
        }
    }

    /// The race of the given name, if it is the name of one.
    pub open spec fn named(s: Seq<char>) -> Option<Race> {
        if s == "Amiibo"@ {
            Some(Race::Amiibo)
        }         else if s == "GreatFairy"@ {
            Some(Race::GreatFairy)
        }         else if s == "Deity"@ {
            Some(Race::Deity)
        }         else if s == "Demon"@ {
            Some(Race::Demon)
        }         else if s == "Gerudo"@ {
            Some(Race::Gerudo)
        }         else if s == "Goron"@ {
            Some(Race::Goron)
        }         else if s == "Horse"@ {
            Some(Race::Horse)
        }         else if s == "Hylian"@ {
            Some(Race::Hylian)
        }         else if s == "Korok"@ {
            Some(Race::Korok)
        }         else if s == "Rito"@ {
            Some(Race::Rito)
        }         else if s == "SandSeal"@ {
            Some(Race::SandSeal)
        }         else if s == "Sheikah"@ {
            Some(Race::Sheikah)
        }         else if s == "SheikahMonk"@ {
            Some(Race::SheikahMonk)
        }         else if s == "Yiga"@ {
            Some(Race::Yiga)
        }         else if s == "Zora"@ {
            Some(Race::Zora)
        } else {
            None
        }
    }

    /// The name of the race.
    pub fn to_string(&self) -> (r: String)
        ensures
            r@ == self.name(),
    {
        let name = match self {
            Race::Amiibo => "Amiibo",
            Race::GreatFairy => "GreatFairy",
            Race::Deity => "Deity",
            Race::Demon => "Demon",
            Race::Gerudo => "Gerudo",
            Race::Goron => "Goron",
            Race::Horse => "Horse",
            Race::Hylian => "Hylian",
            Race::Korok => "Korok",
            Race::Rito => "Rito",
            Race::SandSeal => "SandSeal",
            Race::Sheikah => "Sheikah",
            Race::SheikahMonk => "SheikahMonk",
            Race::Yiga => "Yiga",
            Race::Zora => "Zora",
        };
        name.to_string()
    }

    /// The race of the given name, if it is the name of one.
    pub fn from_str(s: &str) -> (r: Option<Race>)
        ensures
            r == Self::named(s@),
    {
        if same_text(s, "Amiibo") {
            Some(Race::Amiibo)
        }         else if same_text(s, "GreatFairy") {
            Some(Race::GreatFairy)
        }         else if same_text(s, "Deity") {
            Some(Race::Deity)
        }         else if same_text(s, "Demon") {
            Some(Race::Demon)
        }         else if same_text(s, "Gerudo") {
            Some(Race::Gerudo)
        }         else if same_text(s, "Goron") {
            Some(Race::Goron)
        }         else if same_text(s, "Horse") {
            Some(Race::Horse)
        }         else if same_text(s, "Hylian") {
            Some(Race::Hylian)
        }         else if same_text(s, "Korok") {
            Some(Race::Korok)
        }         else if same_text(s, "Rito") {
            Some(Race::Rito)
        }         else if same_text(s, "SandSeal") {
            Some(Race::SandSeal)
        }         else if same_text(s, "Sheikah") {
            Some(Race::Sheikah)
        }         else if same_text(s, "SheikahMonk") {
            Some(Race::SheikahMonk)
        }         else if same_text(s, "Yiga") {
            Some(Race::Yiga)
        }         else if same_text(s, "Zora") {
            Some(Race::Zora)
        } else {
            None
        }
    }
}

} // verus!
