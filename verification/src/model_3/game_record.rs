//! The log of game events: what an event presupposes, what it does to the
//! model, and the record that keeps the applied events in order.

use crate::model_3::chain::{lemma_applied_events_displayable, lemma_chain_applicable};
pub use crate::model_3::model::NULL_TIME;
use crate::model_3::model::{Character, Location, Model, ModelView, Quest};
use crate::model_3::runtime::{time_text, GameClock};
use crate::text::{around, decimal, line_views, lowercase, number_text, same_text, ReportLine};
use vstd::prelude::*;
use vstd::string::*;

verus! {

/// The kinds of game event.
#[derive(Clone, Copy, Debug, PartialEq, Eq, Structural)]
pub enum GameEventType {
    AddToCompendium,
    BloodMoon,
    CharacterDeath,
    CompleteQuest,
    CompleteShrine,
    DiscoverLocation,
    FindDogTreasure,
    IdentifyItem,
    KorokSeed,
    LightFlame,
    LinkDeath,
    MeetCharacter,
    MeetCharacterFlashback,
    MentionCharacter,
    OpenChest,
    SetArmorLevel,
    SetBowSlots,
    SetHearts,
    SetItemCount,
    SetShieldSlots,
    SetStamina,
    SetWeaponSlots,
    StartQuest,
    StartShrine,
}

/// One game event: when it happened, what kind it is, whom or what it is
/// about, and for a counter the number it sets and the number it replaced.
#[derive(Debug)]
pub struct GameEvent {
    time: usize,
    typ: GameEventType,
    name: String,
    number: Option<usize>,
    previous_number: Option<usize>,
}

/// An event as mathematical data.
pub struct EventView {
    pub time: usize,
    pub typ: GameEventType,
    pub name: Seq<char>,
    pub number: Option<usize>,
    pub previous_number: Option<usize>,
}

impl View for GameEvent {
    type V = EventView;

    closed spec fn view(&self) -> EventView {
        EventView {
            time: self.time,
            typ: self.typ,
            name: self.name@,
            number: self.number,
            previous_number: self.previous_number,
        }
    }
}

impl Clone for GameEvent {
    fn clone(&self) -> (r: Self)
        ensures
            r@ == self@,
    {
        GameEvent {
            time: self.time,
            typ: self.typ,
            name: self.name.clone(),
            number: self.number,
            previous_number: self.previous_number,
        }
    }
}

impl GameEventType {
    /// The name of the variant, which is its tag in the exported log.
    pub open spec fn name(&self) -> Seq<char> {
        match self {
            GameEventType::AddToCompendium => "AddToCompendium"@,
            GameEventType::BloodMoon => "BloodMoon"@,
            GameEventType::CharacterDeath => "CharacterDeath"@,
            GameEventType::CompleteQuest => "CompleteQuest"@,
            GameEventType::CompleteShrine => "CompleteShrine"@,
            GameEventType::DiscoverLocation => "DiscoverLocation"@,
            GameEventType::FindDogTreasure => "FindDogTreasure"@,
            GameEventType::IdentifyItem => "IdentifyItem"@,
            GameEventType::KorokSeed => "KorokSeed"@,
            GameEventType::LightFlame => "LightFlame"@,
            GameEventType::LinkDeath => "LinkDeath"@,
            GameEventType::MeetCharacter => "MeetCharacter"@,
            GameEventType::MeetCharacterFlashback => "MeetCharacterFlashback"@,
            GameEventType::MentionCharacter => "MentionCharacter"@,
            GameEventType::OpenChest => "OpenChest"@,
            GameEventType::SetArmorLevel => "SetArmorLevel"@,
            GameEventType::SetBowSlots => "SetBowSlots"@,
            GameEventType::SetHearts => "SetHearts"@,
            GameEventType::SetItemCount => "SetItemCount"@,
            GameEventType::SetShieldSlots => "SetShieldSlots"@,
            GameEventType::SetStamina => "SetStamina"@,
            GameEventType::SetWeaponSlots => "SetWeaponSlots"@,
            GameEventType::StartQuest => "StartQuest"@,
            GameEventType::StartShrine => "StartShrine"@,
        }
    }

    pub fn variant_to_string(&self) -> (r: &str)
        ensures
            r@ == self.name(),
    {
        match self {
            GameEventType::AddToCompendium => "AddToCompendium",
            GameEventType::BloodMoon => "BloodMoon",
            GameEventType::CharacterDeath => "CharacterDeath",
            GameEventType::CompleteQuest => "CompleteQuest",
            GameEventType::CompleteShrine => "CompleteShrine",
            GameEventType::DiscoverLocation => "DiscoverLocation",
            GameEventType::FindDogTreasure => "FindDogTreasure",
            GameEventType::IdentifyItem => "IdentifyItem",
            GameEventType::KorokSeed => "KorokSeed",
            GameEventType::LightFlame => "LightFlame",
            GameEventType::LinkDeath => "LinkDeath",
            GameEventType::MeetCharacter => "MeetCharacter",
            GameEventType::MeetCharacterFlashback => "MeetCharacterFlashback",
            GameEventType::MentionCharacter => "MentionCharacter",
            GameEventType::OpenChest => "OpenChest",
            GameEventType::SetArmorLevel => "SetArmorLevel",
            GameEventType::SetBowSlots => "SetBowSlots",
            GameEventType::SetHearts => "SetHearts",
            GameEventType::SetItemCount => "SetItemCount",
            GameEventType::SetShieldSlots => "SetShieldSlots",
            GameEventType::SetStamina => "SetStamina",
            GameEventType::SetWeaponSlots => "SetWeaponSlots",
            GameEventType::StartQuest => "StartQuest",
            GameEventType::StartShrine => "StartShrine",
        }
    }

    /// The variant of the given name, if it is the name of one.
    pub open spec fn named(s: Seq<char>) -> Option<GameEventType> {
        if s == "AddToCompendium"@ {
            Some(GameEventType::AddToCompendium)
        }         else if s == "BloodMoon"@ {
            Some(GameEventType::BloodMoon)
        }         else if s == "CharacterDeath"@ {
            Some(GameEventType::CharacterDeath)
        }         else if s == "CompleteQuest"@ {
            Some(GameEventType::CompleteQuest)
        }         else if s == "CompleteShrine"@ {
            Some(GameEventType::CompleteShrine)
        }         else if s == "DiscoverLocation"@ {
            Some(GameEventType::DiscoverLocation)
        }         else if s == "FindDogTreasure"@ {
            Some(GameEventType::FindDogTreasure)
        }         else if s == "IdentifyItem"@ {
            Some(GameEventType::IdentifyItem)
        }         else if s == "KorokSeed"@ {
            Some(GameEventType::KorokSeed)
        }         else if s == "LightFlame"@ {
            Some(GameEventType::LightFlame)
        }         else if s == "LinkDeath"@ {
            Some(GameEventType::LinkDeath)
        }         else if s == "MeetCharacter"@ {
            Some(GameEventType::MeetCharacter)
        }         else if s == "MeetCharacterFlashback"@ {
            Some(GameEventType::MeetCharacterFlashback)
        }         else if s == "MentionCharacter"@ {
            Some(GameEventType::MentionCharacter)
        }         else if s == "OpenChest"@ {
            Some(GameEventType::OpenChest)
        }         else if s == "SetArmorLevel"@ {
            Some(GameEventType::SetArmorLevel)
        }         else if s == "SetBowSlots"@ {
            Some(GameEventType::SetBowSlots)
        }         else if s == "SetHearts"@ {
            Some(GameEventType::SetHearts)
        }         else if s == "SetItemCount"@ {
            Some(GameEventType::SetItemCount)
        }         else if s == "SetShieldSlots"@ {
            Some(GameEventType::SetShieldSlots)
        }         else if s == "SetStamina"@ {
            Some(GameEventType::SetStamina)
        }         else if s == "SetWeaponSlots"@ {
            Some(GameEventType::SetWeaponSlots)
        }         else if s == "StartQuest"@ {
            Some(GameEventType::StartQuest)
        }         else if s == "StartShrine"@ {
            Some(GameEventType::StartShrine)
        } else {
            None
        }
    }

    /// The variant of the given name, if it is the name of one.
    pub fn find_variant(s: &str) -> (r: Option<Self>)
        ensures
            r == Self::named(s@),
    {
        if same_text(s, "AddToCompendium") {
            Some(GameEventType::AddToCompendium)
        }         else if same_text(s, "BloodMoon") {
            Some(GameEventType::BloodMoon)
        }         else if same_text(s, "CharacterDeath") {
            Some(GameEventType::CharacterDeath)
        }         else if same_text(s, "CompleteQuest") {
            Some(GameEventType::CompleteQuest)
        }         else if same_text(s, "CompleteShrine") {
            Some(GameEventType::CompleteShrine)
        }         else if same_text(s, "DiscoverLocation") {
            Some(GameEventType::DiscoverLocation)
        }         else if same_text(s, "FindDogTreasure") {
            Some(GameEventType::FindDogTreasure)
        }         else if same_text(s, "IdentifyItem") {
            Some(GameEventType::IdentifyItem)
        }         else if same_text(s, "KorokSeed") {
            Some(GameEventType::KorokSeed)
        }         else if same_text(s, "LightFlame") {
            Some(GameEventType::LightFlame)
        }         else if same_text(s, "LinkDeath") {
            Some(GameEventType::LinkDeath)
        }         else if same_text(s, "MeetCharacter") {
            Some(GameEventType::MeetCharacter)
        }         else if same_text(s, "MeetCharacterFlashback") {
            Some(GameEventType::MeetCharacterFlashback)
        }         else if same_text(s, "MentionCharacter") {
            Some(GameEventType::MentionCharacter)
        }         else if same_text(s, "OpenChest") {
            Some(GameEventType::OpenChest)
        }         else if same_text(s, "SetArmorLevel") {
            Some(GameEventType::SetArmorLevel)
        }         else if same_text(s, "SetBowSlots") {
            Some(GameEventType::SetBowSlots)
        }         else if same_text(s, "SetHearts") {
            Some(GameEventType::SetHearts)
        }         else if same_text(s, "SetItemCount") {
            Some(GameEventType::SetItemCount)
        }         else if same_text(s, "SetShieldSlots") {
            Some(GameEventType::SetShieldSlots)
        }         else if same_text(s, "SetStamina") {
            Some(GameEventType::SetStamina)
        }         else if same_text(s, "SetWeaponSlots") {
            Some(GameEventType::SetWeaponSlots)
        }         else if same_text(s, "StartQuest") {
            Some(GameEventType::StartQuest)
        }         else if same_text(s, "StartShrine") {
            Some(GameEventType::StartShrine)
        } else {
            None
        }
    }

    /// The variant of the given name, which must be the name of one.
    pub fn string_to_variant(s: &str) -> (r: Self)
        requires
            Self::named(s@) is Some,
        ensures
            Self::named(s@) == Some(r),
    {
        match Self::find_variant(s) {
            Some(typ) => typ,
            None => vstd::pervasive::unreached(),
        }
    }
}

impl GameEvent {
    /// An event that has not been applied: no previous number yet.
    pub fn new(time: usize, typ: GameEventType, name: &str, number: Option<usize>) -> (r: Self)
        ensures
            r@ == (EventView { time, typ, name: name@, number, previous_number: None }),
    {
        Self { time, typ, name: name.to_string(), number, previous_number: None }
    }

    /// An event as a log kept it, with the number that stood before it was
    /// applied.
    pub fn restore(
        time: usize,
        typ: GameEventType,
        name: &str,
        number: Option<usize>,
        previous_number: Option<usize>,
    ) -> (r: Self)
        ensures
            r@ == (EventView { time, typ, name: name@, number, previous_number }),
    {
        Self { time, typ, name: name.to_string(), number, previous_number }
    }

    /// When the event happened.
    pub fn time(&self) -> (r: usize)
        ensures
            r == self@.time,
    {
        self.time
    }

    /// The kind of the event.
    pub fn typ(&self) -> (r: GameEventType)
        ensures
            r == self@.typ,
    {
        self.typ
    }

    /// The name of the entity that the event is about.
    pub fn name(&self) -> (r: &str)
        ensures
            r@ == self@.name,
    {
        self.name.as_str()
    }

    /// The number that a counter event sets.
    pub fn number(&self) -> (r: Option<usize>)
        ensures
            r == self@.number,
    {
        self.number
    }

    /// The number that a counter held before the event was applied.
    pub fn previous_number(&self) -> (r: Option<usize>)
        ensures
            r == self@.previous_number,
    {
        self.previous_number
    }
}

/// Why an event was not derived from or applied.
#[derive(Clone, Copy, Debug, PartialEq, Eq, Structural)]
pub enum EventError {
    /// The model knows no entity of the kind and name that the event needs.
    UnknownEntity,
    /// What the event would record has been recorded already, or a counter
    /// event lacks its number or would overflow the counter.
    PreconditionViolated,
    /// Events of this kind cannot be applied.
    UnsupportedEventType,
    /// The events presupposed by the event do not come to an end.
    EndlessDerivation,
}

/// An event of another kind about another entity, at the same time.
pub open spec fn derived(e: EventView, typ: GameEventType, name: Seq<char>) -> EventView {
    EventView { time: e.time, typ, name, number: None, previous_number: None }
}

/// Whether the model knows the entities that it must consult to tell what
/// the event presupposes.
pub open spec fn derivable(m: ModelView, e: EventView) -> bool {
    match e.typ {
        GameEventType::CompleteQuest => m.has_quest(e.name),
        GameEventType::CompleteShrine => m.has_shrine(e.name),
        GameEventType::DiscoverLocation => {
            &&& m.has_location(e.name)
            &&& m.location(e.name).parent_location is Some ==> m.has_location(
                m.location(e.name).parent_location->0@,
            )
        },
        GameEventType::FindDogTreasure | GameEventType::LightFlame => m.has_location(e.name),
        GameEventType::StartShrine => {
            &&& m.has_location(e.name)
            &&& m.location(e.name).quest is Some ==> m.has_quest(m.location(e.name).quest->0@)
        },
        _ => true,
    }
}

/// The event that an event presupposes and that the model does not show yet:
/// a quest is started before it is completed, a shrine too, a shrine's quest
/// is completed before the shrine is started, a location's parent is
/// discovered before the location, and a location before anything is found
/// or lit there.
pub open spec fn predecessor(m: ModelView, e: EventView) -> Option<EventView> {
    match e.typ {
        GameEventType::CompleteQuest => if !m.quest(e.name).started() {
            Some(derived(e, GameEventType::StartQuest, e.name))
        } else {
            None
        },
        GameEventType::CompleteShrine => if !m.location(e.name).started() {
            Some(derived(e, GameEventType::StartShrine, e.name))
        } else {
            None
        },
        GameEventType::DiscoverLocation => match m.location(e.name).parent_location {
            Some(parent_name) => if !m.location(parent_name@).discovered() {
                Some(derived(e, GameEventType::DiscoverLocation, m.location(parent_name@).name@))
            } else {
                None
            },
            None => None,
        },
        GameEventType::FindDogTreasure | GameEventType::LightFlame => if !m.location(e.name).discovered() {
            Some(derived(e, GameEventType::DiscoverLocation, e.name))
        } else {
            None
        },
        GameEventType::StartShrine => match m.location(e.name).quest {
            Some(quest_name) => if !m.quest(quest_name@).completed() {
                Some(derived(e, GameEventType::CompleteQuest, quest_name@))
            } else {
                None
            },
            None => None,
        },
        _ => None,
    }
}

/// Whether events of this kind can be applied at all.
pub open spec fn supported(typ: GameEventType) -> bool {
    match typ {
        GameEventType::BloodMoon
        | GameEventType::CompleteQuest
        | GameEventType::CompleteShrine
        | GameEventType::DiscoverLocation
        | GameEventType::FindDogTreasure
        | GameEventType::LightFlame
        | GameEventType::MeetCharacter
        | GameEventType::MeetCharacterFlashback
        | GameEventType::MentionCharacter
        | GameEventType::SetHearts
        | GameEventType::SetStamina
        | GameEventType::StartQuest
        | GameEventType::StartShrine => true,
        _ => false,
    }
}

/// Whether the model knows the entity that applying the event would change.
pub open spec fn target_known(m: ModelView, e: EventView) -> bool {
    match e.typ {
        GameEventType::CompleteQuest | GameEventType::StartQuest => m.has_quest(e.name),
        GameEventType::CompleteShrine | GameEventType::StartShrine => m.has_shrine(e.name),
        GameEventType::DiscoverLocation | GameEventType::FindDogTreasure | GameEventType::LightFlame => m.has_location(
            e.name,
        ),
        GameEventType::MeetCharacter
        | GameEventType::MeetCharacterFlashback
        | GameEventType::MentionCharacter => m.has_character(e.name),
        _ => true,
    }
}

/// Whether what the event would record is still open: the time it sets is
/// unset, a quest or shrine to start is not completed either, a counter
/// event has its number, and the count of blood moons can still rise.
pub open spec fn still_open(m: ModelView, e: EventView) -> bool {
    match e.typ {
        GameEventType::BloodMoon => m.blood_moons < usize::MAX,
        GameEventType::CompleteQuest => !m.quest(e.name).completed(),
        GameEventType::CompleteShrine => !m.location(e.name).completed(),
        GameEventType::DiscoverLocation => !m.location(e.name).discovered(),
        GameEventType::FindDogTreasure => !m.location(e.name).dog_treasure_found(),
        GameEventType::LightFlame => !m.location(e.name).flame_lit(),
        GameEventType::MeetCharacter => !m.character(e.name).met(),
        GameEventType::MeetCharacterFlashback => !m.character(e.name).met_in_flashback(),
        GameEventType::MentionCharacter => !m.character(e.name).mentioned(),
        GameEventType::SetHearts | GameEventType::SetStamina => e.number is Some,
        GameEventType::StartQuest => !m.quest(e.name).started() && !m.quest(e.name).completed(),
        GameEventType::StartShrine => !m.location(e.name).started() && !m.location(e.name).completed(),
        _ => true,
    }
}

/// What stands against applying the event to the model, if anything does.
pub open spec fn apply_error(m: ModelView, e: EventView) -> Option<EventError> {
    if !supported(e.typ) {
        Some(EventError::UnsupportedEventType)
    } else if !target_known(m, e) {
        Some(EventError::UnknownEntity)
    } else if !still_open(m, e) {
        Some(EventError::PreconditionViolated)
    } else {
        None
    }
}

/// Whether the event can be applied to the model.
pub open spec fn applicable(m: ModelView, e: EventView) -> bool {
    apply_error(m, e) is None
}

/// The model after the event has been applied: one time of one entity, or
/// one counter, takes the event's value, and nothing else changes.
pub open spec fn applied_model(m: ModelView, e: EventView) -> ModelView {
    let key = lowercase(e.name);
    match e.typ {
        GameEventType::BloodMoon => ModelView { blood_moons: (m.blood_moons + 1) as usize, ..m },
        GameEventType::CompleteQuest => ModelView {
            quests: m.quests.insert(key, Quest { completed_time: e.time, ..m.quests[key] }),
            ..m
        },
        GameEventType::CompleteShrine => ModelView {
            locations: m.locations.insert(key, Location { completed_time: e.time, ..m.locations[key] }),
            ..m
        },
        GameEventType::DiscoverLocation => ModelView {
            locations: m.locations.insert(key, Location { discovered_time: e.time, ..m.locations[key] }),
            ..m
        },
        GameEventType::FindDogTreasure => ModelView {
            locations: m.locations.insert(key, Location { dog_treasure_found_time: e.time, ..m.locations[key] }),
            ..m
        },
        GameEventType::LightFlame => ModelView {
            locations: m.locations.insert(key, Location { flame_lit_time: e.time, ..m.locations[key] }),
            ..m
        },
        GameEventType::MeetCharacter => ModelView {
            characters: m.characters.insert(key, Character { met_time: e.time, ..m.characters[key] }),
            ..m
        },
        GameEventType::MeetCharacterFlashback => ModelView {
            characters: m.characters.insert(key, Character { met_in_flashback_time: e.time, ..m.characters[key] }),
            ..m
        },
        GameEventType::MentionCharacter => ModelView {
            characters: m.characters.insert(key, Character { mentioned_time: e.time, ..m.characters[key] }),
            ..m
        },
        GameEventType::SetHearts => ModelView { hearts: e.number->0, ..m },
        GameEventType::SetStamina => ModelView { stamina: e.number->0, ..m },
        GameEventType::StartQuest => ModelView {
            quests: m.quests.insert(key, Quest { started_time: e.time, ..m.quests[key] }),
            ..m
        },
        GameEventType::StartShrine => ModelView {
            locations: m.locations.insert(key, Location { started_time: e.time, ..m.locations[key] }),
            ..m
        },
        _ => m,
    }
}

/// The event as the log keeps it once it has been applied: an event that
/// sets hearts or stamina notes the number that stood before.
pub open spec fn applied_event(m: ModelView, e: EventView) -> EventView {
    match e.typ {
        GameEventType::SetHearts => EventView { previous_number: Some(m.hearts), ..e },
        GameEventType::SetStamina => EventView { previous_number: Some(m.stamina), ..e },
        _ => e,
    }
}

impl GameEvent {
    /// The event that this one presupposes and the model does not show yet.
    /// The model must know the entities that the rule consults.
    pub fn gen_predecessor(&self, model: &Model) -> (r: Option<GameEvent>)
        requires
            model.wf(),
            derivable(model@, self@),
        ensures
            match r {
                Some(p) => predecessor(model@, self@) == Some(p@),
                None => predecessor(model@, self@) is None,
            },
    {
        let name = self.name.as_str();
        match self.typ {
            GameEventType::CompleteQuest => {
                if !model.get_quest(name).is_started() {
                    Some(GameEvent::new(self.time, GameEventType::StartQuest, name, None))
                } else {
                    None
                }
            },
            GameEventType::CompleteShrine => {
                if !model.get_shrine(name).is_started() {
                    Some(GameEvent::new(self.time, GameEventType::StartShrine, name, None))
                } else {
                    None
                }
            },
            GameEventType::DiscoverLocation => {
                match model.get_parent_location(name) {
                    Some(parent_location) => {
                        if !parent_location.is_discovered() {
                            Some(
                                GameEvent::new(
                                    self.time,
                                    GameEventType::DiscoverLocation,
                                    parent_location.name.as_str(),
                                    None,
                                ),
                            )
                        } else {
                            None
                        }
                    },
                    None => None,
                }
            },
            GameEventType::FindDogTreasure | GameEventType::LightFlame => {
                if !model.get_location(name).is_discovered() {
                    Some(GameEvent::new(self.time, GameEventType::DiscoverLocation, name, None))
                } else {
                    None
                }
            },
            GameEventType::StartShrine => {
                match &model.get_location(name).quest {
                    Some(quest_name) => {
                        if !model.get_quest(quest_name.as_str()).is_completed() {
                            Some(GameEvent::new(self.time, GameEventType::CompleteQuest, quest_name.as_str(), None))
                        } else {
                            None
                        }
                    },
                    None => None,
                }
            },
            _ => None,
        }
    }

    /// Tells whether the model knows the entities that the derivation rule of
    /// this event consults.
    pub fn can_derive(&self, model: &Model) -> (r: bool)
        requires
            model.wf(),
        ensures
            r == derivable(model@, self@),
    {
        let name = self.name.as_str();
        match self.typ {
            GameEventType::CompleteQuest => model.find_quest(name).is_some(),
            GameEventType::CompleteShrine => model.find_shrine(name).is_some(),
            GameEventType::DiscoverLocation => match model.find_location(name) {
                Some(location) => match &location.parent_location {
                    Some(parent_name) => model.find_location(parent_name.as_str()).is_some(),
                    None => true,
                },
                None => false,
            },
            GameEventType::FindDogTreasure | GameEventType::LightFlame => model.find_location(name).is_some(),
            GameEventType::StartShrine => match model.find_location(name) {
                Some(location) => match &location.quest {
                    Some(quest_name) => model.find_quest(quest_name.as_str()).is_some(),
                    None => true,
                },
                None => false,
            },
            _ => true,
        }
    }

    /// The event that this one presupposes, or the error that the model does
    /// not know an entity that has to be consulted.
    pub fn try_gen_predecessor(&self, model: &Model) -> (r: Result<Option<GameEvent>, EventError>)
        requires
            model.wf(),
        ensures
            match r {
                Ok(Some(p)) => derivable(model@, self@) && predecessor(model@, self@) == Some(p@),
                Ok(None) => derivable(model@, self@) && predecessor(model@, self@) is None,
                Err(error) => !derivable(model@, self@) && error == EventError::UnknownEntity,
            },
    {
        if self.can_derive(model) {
            Ok(self.gen_predecessor(model))
        } else {
            Err(EventError::UnknownEntity)
        }
    }

    /// Tells whether the event can be applied to the model, and why not if
    /// it cannot.
    pub fn can_apply(&self, model: &Model) -> (r: Result<(), EventError>)
        requires
            model.wf(),
        ensures
            match r {
                Ok(()) => apply_error(model@, self@) is None,
                Err(error) => apply_error(model@, self@) == Some(error),
            },
    {
        let name = self.name.as_str();
        match self.typ {
            GameEventType::BloodMoon => {
                if model.blood_moons < usize::MAX {
                    Ok(())
                } else {
                    Err(EventError::PreconditionViolated)
                }
            },
            GameEventType::CompleteQuest => match model.find_quest(name) {
                Some(quest) => if !quest.is_completed() {
                    Ok(())
                } else {
                    Err(EventError::PreconditionViolated)
                },
                None => Err(EventError::UnknownEntity),
            },
            GameEventType::StartQuest => match model.find_quest(name) {
                Some(quest) => if !quest.is_started() && !quest.is_completed() {
                    Ok(())
                } else {
                    Err(EventError::PreconditionViolated)
                },
                None => Err(EventError::UnknownEntity),
            },
            GameEventType::CompleteShrine => match model.find_shrine(name) {
                Some(shrine) => if !shrine.is_completed() {
                    Ok(())
                } else {
                    Err(EventError::PreconditionViolated)
                },
                None => Err(EventError::UnknownEntity),
            },
            GameEventType::StartShrine => match model.find_shrine(name) {
                Some(shrine) => if !shrine.is_started() && !shrine.is_completed() {
                    Ok(())
                } else {
                    Err(EventError::PreconditionViolated)
                },
                None => Err(EventError::UnknownEntity),
            },
            GameEventType::DiscoverLocation => match model.find_location(name) {
                Some(location) => if !location.is_discovered() {
                    Ok(())
                } else {
                    Err(EventError::PreconditionViolated)
                },
                None => Err(EventError::UnknownEntity),
            },
            GameEventType::FindDogTreasure => match model.find_location(name) {
                Some(location) => if !location.is_dog_treasure_found() {
                    Ok(())
                } else {
                    Err(EventError::PreconditionViolated)
                },
                None => Err(EventError::UnknownEntity),
            },
            GameEventType::LightFlame => match model.find_location(name) {
                Some(location) => if !location.is_flame_lit() {
                    Ok(())
                } else {
                    Err(EventError::PreconditionViolated)
                },
                None => Err(EventError::UnknownEntity),
            },
            GameEventType::MeetCharacter => match model.find_character(name) {
                Some(character) => if !character.is_met() {
                    Ok(())
                } else {
                    Err(EventError::PreconditionViolated)
                },
                None => Err(EventError::UnknownEntity),
            },
            GameEventType::MeetCharacterFlashback => match model.find_character(name) {
                Some(character) => if !character.is_met_in_flashback() {
                    Ok(())
                } else {
                    Err(EventError::PreconditionViolated)
                },
                None => Err(EventError::UnknownEntity),
            },
            GameEventType::MentionCharacter => match model.find_character(name) {
                Some(character) => if !character.is_mentioned() {
                    Ok(())
                } else {
                    Err(EventError::PreconditionViolated)
                },
                None => Err(EventError::UnknownEntity),
            },
            GameEventType::SetHearts | GameEventType::SetStamina => {
                if self.number.is_some() {
                    Ok(())
                } else {
                    Err(EventError::PreconditionViolated)
                }
            },
            _ => Err(EventError::UnsupportedEventType),
        }
    }

    /// Applies the event if it can be applied, and else says why not and
    /// leaves the event and the model as they are.
    pub fn try_apply(&mut self, model: &mut Model) -> (r: Result<(), EventError>)
        requires
            old(model).wf(),
        ensures
            final(model).wf(),
            match r {
                Ok(()) => {
                    &&& apply_error(old(model)@, old(self)@) is None
                    &&& final(model)@ == applied_model(old(model)@, old(self)@)
                    &&& final(self)@ == applied_event(old(model)@, old(self)@)
                },
                Err(error) => {
                    &&& apply_error(old(model)@, old(self)@) == Some(error)
                    &&& final(model)@ == old(model)@
                    &&& final(self)@ == old(self)@
                },
            },
    {
        match self.can_apply(model) {
            Ok(()) => {
                self.apply(model);
                Ok(())
            },
            Err(error) => Err(error),
        }
    }

    /// Applies the event: sets the one time or counter that the event is
    /// about, and notes in the event the number that a counter held before.
    pub fn apply(&mut self, model: &mut Model)
        requires
            old(model).wf(),
            applicable(old(model)@, old(self)@),
        ensures
            final(model).wf(),
            final(model)@ == applied_model(old(model)@, old(self)@),
            final(self)@ == applied_event(old(model)@, old(self)@),
    {
        let time = self.time;
        match self.typ {
            GameEventType::BloodMoon => {
                model.blood_moons += 1;
            },
            GameEventType::CompleteQuest => {
                model.get_quest_mut(self.name.as_str()).completed_time = time;
            },
            GameEventType::CompleteShrine => {
                model.get_shrine_mut(self.name.as_str()).completed_time = time;
            },
            GameEventType::DiscoverLocation => {
                model.get_location_mut(self.name.as_str()).discovered_time = time;
            },
            GameEventType::FindDogTreasure => {
                model.get_location_mut(self.name.as_str()).dog_treasure_found_time = time;
            },
            GameEventType::LightFlame => {
                model.get_location_mut(self.name.as_str()).flame_lit_time = time;
            },
            GameEventType::MeetCharacter => {
                model.get_character_mut(self.name.as_str()).met_time = time;
            },
            GameEventType::MeetCharacterFlashback => {
                model.get_character_mut(self.name.as_str()).met_in_flashback_time = time;
            },
            GameEventType::MentionCharacter => {
                model.get_character_mut(self.name.as_str()).mentioned_time = time;
            },
            GameEventType::SetHearts => {
                self.previous_number = Some(model.hearts);
                model.hearts = self.number.unwrap();
            },
            GameEventType::SetStamina => {
                self.previous_number = Some(model.stamina);
                model.stamina = self.number.unwrap();
            },
            GameEventType::StartQuest => {
                model.get_quest_mut(self.name.as_str()).started_time = time;
            },
            GameEventType::StartShrine => {
                model.get_shrine_mut(self.name.as_str()).started_time = time;
            },
            _ => {
                assert(false);
            },
        }
    }
}

/// The most derivation steps that are followed from one event: one for
/// each location, and three for a shrine with its quest.
pub open spec fn chain_limit(m: ModelView) -> nat {
    m.locations.dom().len() + 3
}

/// The event and what it presupposes, what that presupposes, and so on, the
/// event itself first: followed for at most `fuel` steps. The derivation
/// fails where the model does not know an entity that it must consult, or
/// where it has not ended after `fuel` steps.
pub open spec fn chain_back(m: ModelView, e: EventView, fuel: nat) -> Result<Seq<EventView>, EventError>
    decreases fuel,
{
    if !derivable(m, e) {
        Err(EventError::UnknownEntity)
    } else {
        match predecessor(m, e) {
            None => Ok(seq![e]),
            Some(p) => if fuel == 0 {
                Err(EventError::EndlessDerivation)
            } else {
                match chain_back(m, p, (fuel - 1) as nat) {
                    Ok(rest) => Ok(seq![e] + rest),
                    Err(error) => Err(error),
                }
            },
        }
    }
}

/// The chain of events that one event brings with it, in causal order: what
/// is presupposed stands before what presupposes it, and the event itself
/// stands last.
pub open spec fn derivation(m: ModelView, e: EventView) -> Result<Seq<EventView>, EventError> {
    match chain_back(m, e, chain_limit(m)) {
        Ok(chain) => Ok(chain.reverse()),
        Err(error) => Err(error),
    }
}

/// Whether the events can be applied one after the other, each to the model
/// that the ones before it have left.
pub open spec fn chain_applicable(m: ModelView, chain: Seq<EventView>) -> bool
    decreases chain.len(),
{
    chain.len() == 0 || (applicable(m, chain[0]) && chain_applicable(applied_model(m, chain[0]), chain.drop_first()))
}

/// The model after the events have been applied one after the other.
pub open spec fn applied_all(m: ModelView, chain: Seq<EventView>) -> ModelView
    decreases chain.len(),
{
    if chain.len() == 0 {
        m
    } else {
        applied_all(applied_model(m, chain[0]), chain.drop_first())
    }
}

/// The events as the log keeps them once they have been applied one after
/// the other.
pub open spec fn applied_events(m: ModelView, chain: Seq<EventView>) -> Seq<EventView>
    decreases chain.len(),
{
    if chain.len() == 0 {
        Seq::empty()
    } else {
        seq![applied_event(m, chain[0])] + applied_events(applied_model(m, chain[0]), chain.drop_first())
    }
}

/// What stands against adding the event to the log, if anything does: its
/// derivation fails, or the event itself cannot be applied.
pub open spec fn add_event_error(m: ModelView, e: EventView) -> Option<EventError> {
    match derivation(m, e) {
        Err(error) => Some(error),
        Ok(_) => apply_error(m, e),
    }
}

/// The views of the events of a list, in its order.
pub open spec fn event_views(events: Seq<GameEvent>) -> Seq<EventView> {
    Seq::new(events.len(), |i: int| events[i]@)
}

/// The log of the events of one game, in the order in which they were
/// applied.
#[derive(Debug)]
pub struct GameRecord {
    pub name: String,
    pub events: Vec<GameEvent>,
}

impl View for GameRecord {
    type V = Seq<EventView>;

    /// The logged events, oldest first.
    open spec fn view(&self) -> Seq<EventView> {
        event_views(self.events@)
    }
}

impl GameRecord {
    /// An empty log under the given name.
    pub fn new(name: &str) -> (r: Self)
        ensures
            r.name@ == name@,
            r@ == Seq::<EventView>::empty(),
    {
        let r = Self { name: name.to_string(), events: Vec::new() };
        assert(r@ =~= Seq::<EventView>::empty());
        r
    }

    /// The event with the events it presupposes, the event itself first, or
    /// the reason why the derivation fails.
    fn derive_chain(model: &Model, event: GameEvent) -> (r: Result<Vec<GameEvent>, EventError>)
        requires
            model.wf(),
        ensures
            match r {
                Ok(events) => chain_back(model@, event@, chain_limit(model@)) == Ok::<Seq<EventView>, EventError>(
                    event_views(events@),
                ),
                Err(error) => chain_back(model@, event@, chain_limit(model@)) == Err::<Seq<EventView>, EventError>(
                    error,
                ),
            },
    {
        let ghost m0 = model@;
        let ghost e0 = event@;
        let ghost limit = chain_limit(m0);
        let count = model.locations.len();
        let mut events: Vec<GameEvent> = Vec::new();
        events.push(event.clone());
        let mut current_event = event;
        let mut steps: usize = 0;
        loop
            invariant
                model.wf(),
                model@ == m0,
                e0 == event@,
                limit == chain_limit(m0),
                limit == count + 3,
                events@.len() == steps + 1,
                steps <= limit,
                current_event@ == events@[steps as int]@,
                match chain_back(m0, current_event@, (limit - steps) as nat) {
                    Ok(rest) => chain_back(m0, e0, limit) == Ok::<Seq<EventView>, EventError>(
                        event_views(events@).drop_last() + rest,
                    ),
                    Err(error) => chain_back(m0, e0, limit) == Err::<Seq<EventView>, EventError>(error),
                },
            decreases limit - steps,
        {
            let ghost before = event_views(events@);
            match current_event.try_gen_predecessor(model) {
                Err(error) => {
                    return Err(error);
                },
                Ok(None) => {
                    proof {
                        assert(before =~= before.drop_last() + seq![current_event@]);
                    }
                    return Ok(events);
                },
                Ok(Some(this_event)) => {
                    if count <= usize::MAX - 3 && steps >= count + 3 {
                        return Err(EventError::EndlessDerivation);
                    }
                    events.push(this_event.clone());
                    current_event = this_event;
                    steps = events.len() - 1;
                    proof {
                        let after = event_views(events@);
                        assert(after.drop_last() =~= before);
                        assert(before =~= before.drop_last() + seq![before.last()]);
                        match chain_back(m0, current_event@, (limit - steps) as nat) {
                            Ok(rest) => {
                                assert(before.drop_last() + (seq![before.last()] + rest) =~= before + rest);
                            },
                            Err(_) => {},
                        }
                    }
                },
            }
        }
    }

    /// Applies the events from the last to the first and appends each to the
    /// log as it is applied; hands back the applied events in that order.
    fn apply_chain(&mut self, model: &mut Model, events: Vec<GameEvent>) -> (r: Vec<GameEvent>)
        requires
            old(model).wf(),
            chain_applicable(old(model)@, event_views(events@).reverse()),
        ensures
            final(model).wf(),
            final(model)@ == applied_all(old(model)@, event_views(events@).reverse()),
            final(self)@ == old(self)@ + event_views(r@),
            event_views(r@) == applied_events(old(model)@, event_views(events@).reverse()),
            final(self).name == old(self).name,
            all_displayable(old(self)@) ==> all_displayable(final(self)@),
    {
        let ghost m0 = model@;
        let ghost chain = event_views(events@).reverse();
        proof {
            lemma_applied_events_displayable(m0, chain);
        }
        let mut events = events;
        let mut applied: Vec<GameEvent> = Vec::new();
        assert(event_views(applied@) =~= Seq::<EventView>::empty());
        assert(self@ + Seq::<EventView>::empty() =~= self@);
        while events.len() > 0
            invariant
                model.wf(),
                self.name == old(self).name,
                self@ == old(self)@ + event_views(applied@),
                chain_applicable(model@, event_views(events@).reverse()),
                applied_all(model@, event_views(events@).reverse()) == applied_all(m0, chain),
                self@ + applied_events(model@, event_views(events@).reverse()) == old(self)@ + applied_events(
                    m0,
                    chain,
                ),
            decreases events.len(),
        {
            let ghost rest_before = event_views(events@).reverse();
            let ghost log_before = self@;
            let ghost applied_before = event_views(applied@);
            let ghost model_before = model@;
            let mut one_event = events.pop().unwrap();
            proof {
                assert(rest_before[0] == one_event@);
                assert(event_views(events@).reverse() =~= rest_before.drop_first());
            }
            one_event.apply(model);
            applied.push(one_event.clone());
            self.events.push(one_event);
            proof {
                let entry = applied_event(model_before, rest_before[0]);
                assert(self@ =~= log_before + seq![entry]);
                assert(event_views(applied@) =~= applied_before + seq![entry]);
                assert(old(self)@ + (applied_before + seq![entry]) =~= log_before + seq![entry]);
                let tail = applied_events(model@, rest_before.drop_first());
                assert(log_before + (seq![entry] + tail) =~= self@ + tail);
            }
        }
        proof {
            assert(event_views(events@).reverse() =~= Seq::<EventView>::empty());
            assert(self@ + Seq::<EventView>::empty() =~= self@);
            let gained = applied_events(m0, chain);
            assert(old(self)@ + event_views(applied@) == old(self)@ + gained);
            assert(event_views(applied@) =~= gained) by {
                let a = old(self)@ + event_views(applied@);
                let b = old(self)@ + gained;
                assert(a.len() == b.len());
                assert forall|i: int| 0 <= i < gained.len() implies event_views(applied@)[i] == gained[i] by {
                    assert(a[old(self)@.len() + i] == b[old(self)@.len() + i]);
                }
            }
        }
        applied
    }

    /// Derives what the event presupposes, applies the whole chain to the
    /// model in causal order, appends it to the log in that order, and hands
    /// back the applied events. The derivation must end, and the event
    /// itself must be one that can be applied to the model as it stands: the
    /// events that it brings with it then can be applied too.
    pub fn add_event(&mut self, model: &mut Model, event: GameEvent) -> (r: Vec<GameEvent>)
        requires
            old(model).wf(),
            derivation(old(model)@, event@) is Ok,
            applicable(old(model)@, event@),
        ensures
            final(model).wf(),
            final(model)@ == applied_all(old(model)@, derivation(old(model)@, event@)->Ok_0),
            event_views(r@) == applied_events(old(model)@, derivation(old(model)@, event@)->Ok_0),
            final(self)@ == old(self)@ + event_views(r@),
            final(self).name == old(self).name,
            all_displayable(old(self)@) ==> all_displayable(final(self)@),
    {
        proof {
            lemma_chain_applicable(model@, event@, chain_limit(model@));
        }
        match Self::derive_chain(model, event) {
            Ok(events) => self.apply_chain(model, events),
            Err(_) => vstd::pervasive::unreached(),
        }
    }

    /// Adds the event with what it presupposes if that can be done, and else
    /// says why not and leaves the model and the log as they are.
    pub fn try_add_event(&mut self, model: &mut Model, event: GameEvent) -> (r: Result<Vec<GameEvent>, EventError>)
        requires
            old(model).wf(),
        ensures
            final(model).wf(),
            final(self).name == old(self).name,
            all_displayable(old(self)@) ==> all_displayable(final(self)@),
            match r {
                Ok(applied) => {
                    &&& add_event_error(old(model)@, event@) is None
                    &&& final(model)@ == applied_all(old(model)@, derivation(old(model)@, event@)->Ok_0)
                    &&& event_views(applied@) == applied_events(
                        old(model)@,
                        derivation(old(model)@, event@)->Ok_0,
                    )
                    &&& final(self)@ == old(self)@ + event_views(applied@)
                },
                Err(error) => {
                    &&& add_event_error(old(model)@, event@) == Some(error)
                    &&& final(model)@ == old(model)@
                    &&& final(self)@ == old(self)@
                },
            },
    {
        let own = event.can_apply(model);
        proof {
            if applicable(model@, event@) && derivation(model@, event@) is Ok {
                lemma_chain_applicable(model@, event@, chain_limit(model@));
            }
        }
        match Self::derive_chain(model, event) {
            Err(error) => Err(error),
            Ok(events) => match own {
                Err(error) => Err(error),
                Ok(()) => Ok(self.apply_chain(model, events)),
            },
        }
    }
}

/// A number as the exported log writes it, or `None` where there is none.
pub open spec fn optional_number_text(number: Option<usize>) -> Seq<char> {
    match number {
        Some(n) => decimal(n as nat),
        None => "None"@,
    }
}

/// A change of a counter in words: what changed, from which number, to
/// which.
pub open spec fn change_text(what: Seq<char>, previous: usize, number: usize) -> Seq<char> {
    what + decimal(previous as nat) + " to "@ + decimal(number as nat) + "."@
}

impl EventView {
    /// The event as one line of the exported log: time, kind, name, number
    /// and previous number, with a tab between them.
    pub open spec fn simple_text(self) -> Seq<char> {
        decimal(self.time as nat) + "\t"@ + self.typ.name() + "\t"@ + self.name + "\t"@ + optional_number_text(
            self.number,
        ) + "\t"@ + optional_number_text(self.previous_number)
    }

    /// Whether the event holds the numbers that its wording needs.
    pub open spec fn displayable(self) -> bool {
        match self.typ {
            GameEventType::KorokSeed
            | GameEventType::LinkDeath
            | GameEventType::OpenChest
            | GameEventType::SetBowSlots
            | GameEventType::SetShieldSlots
            | GameEventType::SetWeaponSlots => self.number is Some,
            GameEventType::SetArmorLevel
            | GameEventType::SetHearts
            | GameEventType::SetItemCount
            | GameEventType::SetStamina => self.number is Some && self.previous_number is Some,
            _ => true,
        }
    }

    /// What happened, in words.
    pub open spec fn details(self) -> Seq<char> {
        match self.typ {
            GameEventType::AddToCompendium => "Added "@ + self.name + " to compendium."@,
            GameEventType::BloodMoon => "Blood moon."@,
            GameEventType::CharacterDeath => self.name + " died."@,
            GameEventType::CompleteQuest | GameEventType::CompleteShrine => "Completed "@ + self.name + "."@,
            GameEventType::DiscoverLocation => "Discovered "@ + self.name + "."@,
            GameEventType::FindDogTreasure => "Found dog treasure at "@ + self.name + "."@,
            GameEventType::IdentifyItem => "Identified "@ + self.name + "."@,
            GameEventType::KorokSeed => "Korok seeds to "@ + decimal(self.number->0 as nat) + "."@,
            GameEventType::LightFlame => "Lit flame at "@ + self.name + "."@,
            GameEventType::LinkDeath => "Link deaths to "@ + decimal(self.number->0 as nat) + "."@,
            GameEventType::MeetCharacter => "Met "@ + self.name + "."@,
            GameEventType::MeetCharacterFlashback => "Met "@ + self.name + " in a flashback."@,
            GameEventType::MentionCharacter => "Mentioned "@ + self.name + "."@,
            GameEventType::OpenChest => "Opened chests to "@ + decimal(self.number->0 as nat) + "."@,
            GameEventType::SetArmorLevel => change_text(
                "Changed "@ + self.name + " from "@,
                self.previous_number->0,
                self.number->0,
            ),
            GameEventType::SetBowSlots => "Bow slots to "@ + decimal(self.number->0 as nat) + "."@,
            GameEventType::SetHearts => change_text(
                "Changed hearts from "@,
                self.previous_number->0,
                self.number->0,
            ),
            GameEventType::SetItemCount => change_text(
                "Changed the count for "@ + self.name + " from "@,
                self.previous_number->0,
                self.number->0,
            ),
            GameEventType::SetShieldSlots => "Shield slots to "@ + decimal(self.number->0 as nat) + "."@,
            GameEventType::SetStamina => change_text(
                "Changed stamina from "@,
                self.previous_number->0,
                self.number->0,
            ),
            GameEventType::SetWeaponSlots => "Weapon slots to "@ + decimal(self.number->0 as nat) + "."@,
            GameEventType::StartQuest | GameEventType::StartShrine => "Started "@ + self.name + "."@,
        }
    }

    /// The event as `review` lists it: the time between quotation marks,
    /// then what happened.
    pub open spec fn display_text(self) -> Seq<char> {
        seq!['"'] + time_text(self.time as nat) + seq!['"'] + ": "@ + self.details()
    }
}

/// A number as the exported log writes it.
fn optional_number(number: Option<usize>) -> (r: String)
    ensures
        r@ == optional_number_text(number),
{
    match number {
        Some(n) => number_text(n),
        None => "None".to_string(),
    }
}

/// A change of a counter in words.
fn change(what: String, previous: usize, number: usize) -> (r: String)
    ensures
        r@ == change_text(what@, previous, number),
{
    let mut text = what;
    text.append(number_text(previous).as_str());
    text.append(" to ");
    text.append(number_text(number).as_str());
    text.append(".");
    text
}

impl GameEvent {
    /// The event as one line of the exported log.
    pub fn to_simple_text(&self) -> (r: String)
        ensures
            r@ == self@.simple_text(),
    {
        let mut text = number_text(self.time);
        text.append("\t");
        text.append(self.typ.variant_to_string());
        text.append("\t");
        text.append(self.name.as_str());
        text.append("\t");
        text.append(optional_number(self.number).as_str());
        text.append("\t");
        text.append(optional_number(self.previous_number).as_str());
        text
    }

    /// What happened, in words.
    fn details(&self) -> (r: String)
        requires
            self@.displayable(),
        ensures
            r@ == self@.details(),
    {
        let name = self.name.as_str();
        proof {
            reveal_strlit("");
            assert(""@ + name@ =~= name@);
        }
        match self.typ {
            GameEventType::AddToCompendium => around("Added ", name, " to compendium."),
            GameEventType::BloodMoon => "Blood moon.".to_string(),
            GameEventType::CharacterDeath => around("", name, " died."),
            GameEventType::CompleteQuest | GameEventType::CompleteShrine => around("Completed ", name, "."),
            GameEventType::DiscoverLocation => around("Discovered ", name, "."),
            GameEventType::FindDogTreasure => around("Found dog treasure at ", name, "."),
            GameEventType::IdentifyItem => around("Identified ", name, "."),
            GameEventType::KorokSeed => around("Korok seeds to ", number_text(self.number.unwrap()).as_str(), "."),
            GameEventType::LightFlame => around("Lit flame at ", name, "."),
            GameEventType::LinkDeath => around("Link deaths to ", number_text(self.number.unwrap()).as_str(), "."),
            GameEventType::MeetCharacter => around("Met ", name, "."),
            GameEventType::MeetCharacterFlashback => around("Met ", name, " in a flashback."),
            GameEventType::MentionCharacter => around("Mentioned ", name, "."),
            GameEventType::OpenChest => around("Opened chests to ", number_text(self.number.unwrap()).as_str(), "."),
            GameEventType::SetArmorLevel => change(
                around("Changed ", name, " from "),
                self.previous_number.unwrap(),
                self.number.unwrap(),
            ),
            GameEventType::SetBowSlots => around("Bow slots to ", number_text(self.number.unwrap()).as_str(), "."),
            GameEventType::SetHearts => change(
                "Changed hearts from ".to_string(),
                self.previous_number.unwrap(),
                self.number.unwrap(),
            ),
            GameEventType::SetItemCount => change(
                around("Changed the count for ", name, " from "),
                self.previous_number.unwrap(),
                self.number.unwrap(),
            ),
            GameEventType::SetShieldSlots => around(
                "Shield slots to ",
                number_text(self.number.unwrap()).as_str(),
                ".",
            ),
            GameEventType::SetStamina => change(
                "Changed stamina from ".to_string(),
                self.previous_number.unwrap(),
                self.number.unwrap(),
            ),
            GameEventType::SetWeaponSlots => around(
                "Weapon slots to ",
                number_text(self.number.unwrap()).as_str(),
                ".",
            ),
            GameEventType::StartQuest | GameEventType::StartShrine => around("Started ", name, "."),
        }
    }

    /// The event as `review` lists it. The event must hold the numbers
    /// that its wording needs.
    pub fn to_string(&self) -> (r: String)
        requires
            self@.displayable(),
        ensures
            r@ == self@.display_text(),
    {
        proof {
            reveal_strlit("\"");
        }
        let mut text = around("\"", GameClock::format_time(self.time).as_str(), "\"");
        text.append(": ");
        text.append(self.details().as_str());
        proof {
            assert("\""@ =~= seq!['"']);
        }
        text
    }
}

/// Whether every event of a log holds the numbers that its wording needs.
pub open spec fn all_displayable(log: Seq<EventView>) -> bool {
    forall|i: int| 0 <= i < log.len() ==> (#[trigger] log[i]).displayable()
}

/// The last `count` events of a log, or all of them where there are no
/// more.
pub open spec fn last_events(log: Seq<EventView>, count: nat) -> Seq<EventView> {
    if count >= log.len() {
        log
    } else {
        log.skip(log.len() - count)
    }
}

impl GameRecord {
    /// The last `event_count` events as lines of text, in the order
    /// of the log; all of them where the log holds no more.
    pub fn review(&self, event_count: usize) -> (r: Vec<String>)
        requires
            all_displayable(self@),
        ensures
            r@.len() == last_events(self@, event_count as nat).len(),
            forall|i: int|
                0 <= i < r@.len() ==> (#[trigger] r@[i])@ == last_events(self@, event_count as nat)[i].display_text(),
    {
        let first_index = if event_count >= self.events.len() {
            0
        } else {
            self.events.len() - event_count
        };
        let ghost shown = last_events(self@, event_count as nat);
        assert(shown =~= self@.skip(first_index as int));
        let mut lines: Vec<String> = Vec::new();
        let mut i: usize = first_index;
        while i < self.events.len()
            invariant
                first_index <= i <= self.events.len(),
                all_displayable(self@),
                shown == self@.skip(first_index as int),
                lines@.len() == i - first_index,
                forall|j: int| 0 <= j < lines@.len() ==> (#[trigger] lines@[j])@ == shown[j].display_text(),
            decreases self.events.len() - i,
        {
            assert(self@[i as int].displayable());
            lines.push(self.events[i].to_string());
            i += 1;
        }
        lines
    }

    /// The log as lines for export: the name of the log, and one level
    /// below it each event as its simple text.
    pub fn print_events_serialized(&self) -> (r: Vec<ReportLine>)
        ensures
            line_views(r@) == seq![(0usize, self.name@)] + Seq::new(
                self@.len(),
                |i: int| (1usize, self@[i].simple_text()),
            ),
    {
        let mut lines: Vec<ReportLine> = Vec::new();
        lines.push(ReportLine { depth: 0, text: self.name.clone() });
        assert(line_views(lines@) =~= seq![(0usize, self.name@)] + Seq::new(
            0nat,
            |k: int| (1usize, self@[k].simple_text()),
        ));
        let mut i: usize = 0;
        while i < self.events.len()
            invariant
                i <= self.events.len(),
                line_views(lines@) == seq![(0usize, self.name@)] + Seq::new(
                    i as nat,
                    |k: int| (1usize, self@[k].simple_text()),
                ),
            decreases self.events.len() - i,
        {
            let ghost before = line_views(lines@);
            lines.push(ReportLine { depth: 1, text: self.events[i].to_simple_text() });
            assert(line_views(lines@) =~= before.push((1usize, self@[i as int].simple_text())));
            i += 1;
        }
        lines
    }
}

} // verus!
