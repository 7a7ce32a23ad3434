//! Suggested commands: from a few letters and perhaps a number, the
//! entities meant and the events that could be recorded about them.

use crate::model_3::game_record::{
    add_event_error, applied_all, applied_events, derivation, EventError, EventView, GameEvent, GameEventType,
    GameRecord,
};
use crate::model_3::model::{
    character_status_text, location_status_text, quest_status_text, Character, Location, LocationType, Model,
    ModelView, Quest,
};
use crate::text::{
    decimal, line_views, lowercase, number_text, pad_left, padded, same_text, str_contains, text_contains,
    to_lowercase, ReportLine,
};
use vstd::prelude::*;
use vstd::string::*;

verus! {

/// The most commands that are numbered one by one; above that the targets
/// are numbered instead.
pub const MAX_SUGGESTIONS: usize = 20;

/// The commands suggested for some letters, and how they were asked for.
#[derive(Debug)]
pub struct CommandSet {
    pub partial_name: String,
    pub number: Option<usize>,
    pub include_empty_targets: bool,
    pub force_number_events: bool,
    pub add_to_special_commands: bool,
    pub number_targets: bool,
    pub targets: Vec<CommandTarget>,
}

/// One entity that the letters may mean, with the events that could be
/// recorded about it.
#[derive(Debug)]
pub struct CommandTarget {
    pub model_list: ModelList,
    pub target_type: TargetType,
    pub name: String,
    pub status: String,
    pub command_number: Option<usize>,
    pub events: Vec<CommandEvent>,
}

/// One event that could be recorded.
#[derive(Clone, Copy, Debug, PartialEq, Eq, Structural)]
pub struct CommandEvent {
    pub typ: GameEventType,
    pub number: Option<usize>,
    pub command_number: Option<usize>,
}

#[derive(Clone, Copy, Debug, PartialEq, Eq, Structural)]
pub enum ModelList {
    /// No list: the target is a counter of the player.
    NoList,
    Character,
    Location,
    Quest,
    Item,
}

#[derive(Clone, Copy, Debug, PartialEq, Eq, Structural)]
pub enum TargetType {
    /// No entity: the target is a counter of the player.
    NoTarget,
    Armor,
    Bow,
    Character,
    Creature,
    Hearts,
    Location,
    Material,
    Monster,
    Quest,
    Shield,
    Special,
    Stamina,
}

/// A target as mathematical data.
pub struct TargetView {
    pub model_list: ModelList,
    pub target_type: TargetType,
    pub name: Seq<char>,
    pub status: Seq<char>,
    pub command_number: Option<usize>,
    pub events: Seq<CommandEvent>,
}

impl View for CommandTarget {
    type V = TargetView;

    open spec fn view(&self) -> TargetView {
        TargetView {
            model_list: self.model_list,
            target_type: self.target_type,
            name: self.name@,
            status: self.status@,
            command_number: self.command_number,
            events: self.events@,
        }
    }
}

/// The views of the targets of a list, in its order.
pub open spec fn target_views(targets: Seq<CommandTarget>) -> Seq<TargetView> {
    Seq::new(targets.len(), |i: int| targets[i]@)
}

/// The number of events of all the targets together.
pub open spec fn event_count(targets: Seq<TargetView>) -> nat
    decreases targets.len(),
{
    if targets.len() == 0 {
        0
    } else {
        event_count(targets.drop_last()) + targets.last().events.len()
    }
}

impl CommandTarget {
    /// A target without a number and without events.
    pub fn new(model_list: ModelList, target_type: TargetType, name: &str, status: &str) -> (r: Self)
        ensures
            r@ == (TargetView {
                model_list,
                target_type,
                name: name@,
                status: status@,
                command_number: None,
                events: Seq::empty(),
            }),
    {
        Self {
            model_list,
            target_type,
            name: name.to_string(),
            status: status.to_string(),
            command_number: None,
            events: Vec::new(),
        }
    }
}

impl CommandEvent {
    /// An event without a number in the list of commands.
    pub fn new(typ: GameEventType, number: Option<usize>) -> (r: Self)
        ensures
            r == (CommandEvent { typ, number, command_number: None }),
    {
        Self { typ, number, command_number: None }
    }
}

impl TargetType {
    /// The name of the variant.
    pub open spec fn name(&self) -> Seq<char> {
        match self {
            TargetType::NoTarget => "None"@,
            TargetType::Armor => "Armor"@,
            TargetType::Bow => "Bow"@,
            TargetType::Character => "Character"@,
            TargetType::Creature => "Creature"@,
            TargetType::Hearts => "Hearts"@,
            TargetType::Location => "Location"@,
            TargetType::Material => "Material"@,
            TargetType::Monster => "Monster"@,
            TargetType::Quest => "Quest"@,
            TargetType::Shield => "Shield"@,
            TargetType::Special => "Special"@,
            TargetType::Stamina => "Stamina"@,
        }
    }

    pub fn variant_to_string(&self) -> (r: &str)
        ensures
            r@ == self.name(),
    {
        match self {
            TargetType::NoTarget => "None",
            TargetType::Armor => "Armor",
            TargetType::Bow => "Bow",
            TargetType::Character => "Character",
            TargetType::Creature => "Creature",
            TargetType::Hearts => "Hearts",
            TargetType::Location => "Location",
            TargetType::Material => "Material",
            TargetType::Monster => "Monster",
            TargetType::Quest => "Quest",
            TargetType::Shield => "Shield",
            TargetType::Special => "Special",
            TargetType::Stamina => "Stamina",
        }
    }
}

impl CommandSet {
    /// The views of the targets, in their order.
    pub open spec fn target_views(&self) -> Seq<TargetView> {
        target_views(self.targets@)
    }

    /// A set for the given letters, taken in lower case, with no targets
    /// yet.
    pub fn new(partial_name: &str, number: Option<usize>) -> (r: Self)
        ensures
            r.partial_name@ == lowercase(partial_name@),
            r.number == number,
            r.include_empty_targets,
            !r.force_number_events,
            !r.add_to_special_commands,
            !r.number_targets,
            r.targets@.len() == 0,
    {
        Self {
            partial_name: to_lowercase(partial_name),
            number,
            include_empty_targets: true,
            force_number_events: false,
            add_to_special_commands: false,
            number_targets: false,
            targets: Vec::new(),
        }
    }

    /// A set for other letters that is asked for in the same way.
    fn clone_empty(&self, partial_name: &str) -> (r: Self)
        ensures
            r.partial_name@ == lowercase(partial_name@),
            r.number == self.number,
            r.include_empty_targets == self.include_empty_targets,
            r.force_number_events == self.force_number_events,
            r.add_to_special_commands == self.add_to_special_commands,
            !r.number_targets,
            r.targets@.len() == 0,
    {
        let mut command_set = Self::new(partial_name, self.number);
        command_set.add_to_special_commands = self.add_to_special_commands;
        command_set.force_number_events = self.force_number_events;
        command_set.include_empty_targets = self.include_empty_targets;
        command_set
    }

    /// The number of commands: the events of all the targets together. The
    /// number must fit.
    pub fn command_count(&self) -> (r: usize)
        requires
            event_count(self.target_views()) <= usize::MAX,
        ensures
            r == event_count(self.target_views()),
    {
        let mut count: usize = 0;
        let mut i: usize = 0;
        let ghost views = self.target_views();
        while i < self.targets.len()
            invariant
                i <= self.targets.len(),
                views == self.target_views(),
                event_count(views) <= usize::MAX,
                count == event_count(views.take(i as int)),
            decreases self.targets.len() - i,
        {
            proof {
                assert(views.take(i + 1).drop_last() =~= views.take(i as int));
                lemma_event_count_grows(views, i + 1);
            }
            count = count + self.targets[i].events.len();
            i += 1;
        }
        assert(views.take(i as int) =~= views);
        count
    }
}

/// The events of the first targets are no more than the events of all.
pub proof fn lemma_event_count_grows(targets: Seq<TargetView>, n: int)
    requires
        0 <= n <= targets.len(),
    ensures
        event_count(targets.take(n)) <= event_count(targets),
    decreases targets.len() - n,
{
    if n < targets.len() {
        lemma_event_count_grows(targets, n + 1);
        assert(targets.take(n + 1).drop_last() =~= targets.take(n));
    } else {
        assert(targets.take(n) =~= targets);
    }
}

/// An event of a kind, without numbers.
pub open spec fn plain_event(typ: GameEventType) -> CommandEvent {
    CommandEvent { typ, number: None, command_number: None }
}

/// One event if the condition holds, none if not.
pub open spec fn event_if(condition: bool, typ: GameEventType) -> Seq<CommandEvent> {
    if condition {
        seq![plain_event(typ)]
    } else {
        Seq::empty()
    }
}

/// What could be recorded about a character: that it is mentioned, met if
/// it lives, met in a flashback, each as far as it has not happened.
pub open spec fn character_events(c: Character) -> Seq<CommandEvent> {
    event_if(!c.mentioned(), GameEventType::MentionCharacter) + event_if(
        !c.met() && c.alive,
        GameEventType::MeetCharacter,
    ) + event_if(!c.met_in_flashback(), GameEventType::MeetCharacterFlashback)
}

/// What could be recorded about a location: its discovery, the find of its
/// dog treasure, for a shrine its start and completion, for a tech lab the
/// lighting of its flame, each as far as it has not happened.
pub open spec fn location_events(l: Location) -> Seq<CommandEvent> {
    event_if(!l.discovered(), GameEventType::DiscoverLocation) + event_if(
        l.dog_treasure is Some && !l.dog_treasure_found(),
        GameEventType::FindDogTreasure,
    ) + event_if(l.typ == LocationType::Shrine && !l.started(), GameEventType::StartShrine) + event_if(
        l.typ == LocationType::Shrine && !l.completed(),
        GameEventType::CompleteShrine,
    ) + event_if(l.typ == LocationType::TechLab && !l.flame_lit(), GameEventType::LightFlame)
}

/// What could be recorded about a quest: its start and its completion, each
/// as far as it has not happened.
pub open spec fn quest_events(q: Quest) -> Seq<CommandEvent> {
    event_if(!q.started(), GameEventType::StartQuest) + event_if(!q.completed(), GameEventType::CompleteQuest)
}

/// The target that stands for a character.
pub open spec fn character_target(c: Character) -> TargetView {
    TargetView {
        model_list: ModelList::Character,
        target_type: TargetType::Character,
        name: c.name@,
        status: character_status_text(c.alive, c.mentioned(), c.met_in_flashback(), c.met()),
        command_number: None,
        events: character_events(c),
    }
}

/// The target that stands for a location.
pub open spec fn location_target(l: Location, model: Model) -> TargetView {
    TargetView {
        model_list: ModelList::Location,
        target_type: TargetType::Location,
        name: l.name@,
        status: location_status_text(l, model@),
        command_number: None,
        events: location_events(l),
    }
}

/// The target that stands for a quest.
pub open spec fn quest_target(q: Quest, model: Model) -> TargetView {
    TargetView {
        model_list: ModelList::Quest,
        target_type: TargetType::Quest,
        name: q.name@,
        status: quest_status_text(q, model@),
        command_number: None,
        events: quest_events(q),
    }
}

/// Whether the letters mean a location: they occur in its key, or in the
/// lower-case form of its shrine's challenge.
pub open spec fn location_matches(key: Seq<char>, l: Location, partial: Seq<char>) -> bool {
    text_contains(key, partial) || (l.challenge is Some && text_contains(lowercase(l.challenge->0@), partial))
}

/// The targets for the first `n` characters of the model, in the order of
/// their keys: those whose key holds the letters, and without those that
/// have no event left unless empty targets are wanted.
pub open spec fn character_targets(model: Model, partial: Seq<char>, include_empty: bool, n: nat) -> Seq<
    TargetView,
>
    decreases n,
{
    if n == 0 {
        Seq::empty()
    } else {
        let before = character_targets(model, partial, include_empty, (n - 1) as nat);
        let target = character_target(model.characters.values()[n - 1]);
        if text_contains(model.characters.keys()[n - 1], partial) && (include_empty || target.events.len() > 0) {
            before.push(target)
        } else {
            before
        }
    }
}

/// The targets for the first `n` locations of the model, chosen in the same
/// way.
pub open spec fn location_targets(model: Model, partial: Seq<char>, include_empty: bool, n: nat) -> Seq<TargetView>
    decreases n,
{
    if n == 0 {
        Seq::empty()
    } else {
        let before = location_targets(model, partial, include_empty, (n - 1) as nat);
        let location = model.locations.values()[n - 1];
        let target = location_target(location, model);
        if location_matches(model.locations.keys()[n - 1], location, partial) && (include_empty
            || target.events.len() > 0) {
            before.push(target)
        } else {
            before
        }
    }
}

/// The targets for the first `n` quests of the model, chosen in the same
/// way.
pub open spec fn quest_targets(model: Model, partial: Seq<char>, include_empty: bool, n: nat) -> Seq<TargetView>
    decreases n,
{
    if n == 0 {
        Seq::empty()
    } else {
        let before = quest_targets(model, partial, include_empty, (n - 1) as nat);
        let target = quest_target(model.quests.values()[n - 1], model);
        if text_contains(model.quests.keys()[n - 1], partial) && (include_empty || target.events.len() > 0) {
            before.push(target)
        } else {
            before
        }
    }
}

/// Whether the model knows what the status of each location speaks of that
/// the letters mean.
pub open spec fn locations_describable(model: Model, partial: Seq<char>) -> bool {
    forall|i: int|
        0 <= i < model.locations.keys().len() && location_matches(
            #[trigger] model.locations.keys()[i],
            model.locations.values()[i],
            partial,
        ) ==> model@.can_describe_location(model.locations.values()[i])
}

/// Whether the model knows what the status of each quest speaks of that the
/// letters mean.
pub open spec fn quests_describable(model: Model, partial: Seq<char>) -> bool {
    forall|i: int|
        0 <= i < model.quests.keys().len() && text_contains(#[trigger] model.quests.keys()[i], partial)
            ==> model@.can_describe_quest(model.quests.values()[i])
}

impl CommandSet {
    /// Everything but the targets is as in `other`.
    pub open spec fn same_request(&self, other: Self) -> bool {
        &&& self.partial_name == other.partial_name
        &&& self.number == other.number
        &&& self.include_empty_targets == other.include_empty_targets
        &&& self.force_number_events == other.force_number_events
        &&& self.add_to_special_commands == other.add_to_special_commands
        &&& self.number_targets == other.number_targets
    }

    fn gen_characters(&mut self, model: &Model)
        requires
            model.wf(),
        ensures
            final(self).same_request(*old(self)),
            final(self).target_views() == old(self).target_views() + character_targets(
                *model,
                old(self).partial_name@,
                old(self).include_empty_targets,
                model.characters.keys().len(),
            ),
    {
        let ghost start = self.target_views();
        let mut i: usize = 0;
        while i < model.characters.len()
            invariant
                model.wf(),
                i <= model.characters.keys().len(),
                self.same_request(*old(self)),
                self.target_views() == start + character_targets(
                    *model,
                    self.partial_name@,
                    self.include_empty_targets,
                    i as nat,
                ),
            decreases model.characters.keys().len() - i,
        {
            let ghost before = self.target_views();
            let character = model.characters.value_at(i);
            let mut added = false;
            if str_contains(model.characters.key_at(i).as_str(), self.partial_name.as_str()) {
                let status = character.status_description(model);
                let mut target = CommandTarget::new(
                    ModelList::Character,
                    TargetType::Character,
                    character.name.as_str(),
                    status.as_str(),
                );
                if !character.is_mentioned() {
                    target.events.push(CommandEvent::new(GameEventType::MentionCharacter, None));
                }
                if !character.is_met() && character.alive {
                    target.events.push(CommandEvent::new(GameEventType::MeetCharacter, None));
                }
                if !character.is_met_in_flashback() {
                    target.events.push(CommandEvent::new(GameEventType::MeetCharacterFlashback, None));
                }
                assert(target.events@ =~= character_events(*character));
                if self.include_empty_targets || !target.events.is_empty() {
                    self.targets.push(target);
                    added = true;
                    assert(self.target_views() =~= before.push(character_target(*character)));
                }
            }
            proof {
                let grown = character_targets(
                    *model,
                    self.partial_name@,
                    self.include_empty_targets,
                    (i + 1) as nat,
                );
                let so_far = character_targets(*model, self.partial_name@, self.include_empty_targets, i as nat);
                if added {
                    assert(grown == so_far.push(character_target(*character)));
                    assert(self.target_views() =~= start + grown);
                } else {
                    assert(self.target_views() =~= before);
                    assert(grown == so_far);
                }
            }
            i += 1;
        }
    }

    fn gen_locations(&mut self, model: &Model)
        requires
            model.wf(),
            locations_describable(*model, old(self).partial_name@),
        ensures
            final(self).same_request(*old(self)),
            final(self).target_views() == old(self).target_views() + location_targets(
                *model,
                old(self).partial_name@,
                old(self).include_empty_targets,
                model.locations.keys().len(),
            ),
    {
        let ghost start = self.target_views();
        let mut i: usize = 0;
        while i < model.locations.len()
            invariant
                model.wf(),
                locations_describable(*model, self.partial_name@),
                i <= model.locations.keys().len(),
                self.same_request(*old(self)),
                self.target_views() == start + location_targets(
                    *model,
                    self.partial_name@,
                    self.include_empty_targets,
                    i as nat,
                ),
            decreases model.locations.keys().len() - i,
        {
            let ghost before = self.target_views();
            let location = model.locations.value_at(i);
            let mut added = false;
            let in_key = str_contains(model.locations.key_at(i).as_str(), self.partial_name.as_str());
            let in_challenge = match &location.challenge {
                Some(challenge) => str_contains(
                    to_lowercase(challenge.as_str()).as_str(),
                    self.partial_name.as_str(),
                ),
                None => false,
            };
            if in_key || in_challenge {
                assert(location_matches(model.locations.keys()[i as int], *location, self.partial_name@));
                let status = location.status_description(model);
                let mut target = CommandTarget::new(
                    ModelList::Location,
                    TargetType::Location,
                    location.name.as_str(),
                    status.as_str(),
                );
                if !location.is_discovered() {
                    target.events.push(CommandEvent::new(GameEventType::DiscoverLocation, None));
                }
                if location.has_dog_treasure() && !location.is_dog_treasure_found() {
                    target.events.push(CommandEvent::new(GameEventType::FindDogTreasure, None));
                }
                match location.typ {
                    LocationType::Shrine => {
                        if !location.is_started() {
                            target.events.push(CommandEvent::new(GameEventType::StartShrine, None));
                        }
                        if !location.is_completed() {
                            target.events.push(CommandEvent::new(GameEventType::CompleteShrine, None));
                        }
                    },
                    LocationType::TechLab => {
                        if !location.is_flame_lit() {
                            target.events.push(CommandEvent::new(GameEventType::LightFlame, None));
                        }
                    },
                    _ => {},
                }
                assert(target.events@ =~= location_events(*location));
                if self.include_empty_targets || !target.events.is_empty() {
                    self.targets.push(target);
                    added = true;
                    assert(self.target_views() =~= before.push(location_target(*location, *model)));
                }
            }
            proof {
                let grown = location_targets(
                    *model,
                    self.partial_name@,
                    self.include_empty_targets,
                    (i + 1) as nat,
                );
                let so_far = location_targets(*model, self.partial_name@, self.include_empty_targets, i as nat);
                if added {
                    assert(grown == so_far.push(location_target(*location, *model)));
                    assert(self.target_views() =~= start + grown);
                } else {
                    assert(self.target_views() =~= before);
                    assert(grown == so_far);
                }
            }
            i += 1;
        }
    }

    fn gen_quests(&mut self, model: &Model)
        requires
            model.wf(),
            quests_describable(*model, old(self).partial_name@),
        ensures
            final(self).same_request(*old(self)),
            final(self).target_views() == old(self).target_views() + quest_targets(
                *model,
                old(self).partial_name@,
                old(self).include_empty_targets,
                model.quests.keys().len(),
            ),
    {
        let ghost start = self.target_views();
        let mut i: usize = 0;
        while i < model.quests.len()
            invariant
                model.wf(),
                quests_describable(*model, self.partial_name@),
                i <= model.quests.keys().len(),
                self.same_request(*old(self)),
                self.target_views() == start + quest_targets(
                    *model,
                    self.partial_name@,
                    self.include_empty_targets,
                    i as nat,
                ),
            decreases model.quests.keys().len() - i,
        {
            let ghost before = self.target_views();
            let quest = model.quests.value_at(i);
            let mut added = false;
            if str_contains(model.quests.key_at(i).as_str(), self.partial_name.as_str()) {
                assert(text_contains(model.quests.keys()[i as int], self.partial_name@));
                let status = quest.status_description(model);
                let mut target = CommandTarget::new(
                    ModelList::Quest,
                    TargetType::Quest,
                    quest.name.as_str(),
                    status.as_str(),
                );
                if !quest.is_started() {
                    target.events.push(CommandEvent::new(GameEventType::StartQuest, None));
                }
                if !quest.is_completed() {
                    target.events.push(CommandEvent::new(GameEventType::CompleteQuest, None));
                }
                assert(target.events@ =~= quest_events(*quest));
                if self.include_empty_targets || !target.events.is_empty() {
                    self.targets.push(target);
                    added = true;
                    assert(self.target_views() =~= before.push(quest_target(*quest, *model)));
                }
            }
            proof {
                let grown = quest_targets(*model, self.partial_name@, self.include_empty_targets, (i + 1) as nat);
                let so_far = quest_targets(*model, self.partial_name@, self.include_empty_targets, i as nat);
                if added {
                    assert(grown == so_far.push(quest_target(*quest, *model)));
                    assert(self.target_views() =~= start + grown);
                } else {
                    assert(self.target_views() =~= before);
                    assert(grown == so_far);
                }
            }
            i += 1;
        }
    }
}

/// The kind of counter event that letters stand for, where they stand for
/// one.
pub open spec fn special_type(partial: Seq<char>) -> Option<GameEventType> {
    if partial == "k"@ {
        Some(GameEventType::KorokSeed)
    } else if partial == "c"@ {
        Some(GameEventType::OpenChest)
    } else if partial == "bl"@ {
        Some(GameEventType::BloodMoon)
    } else if partial == "we"@ {
        Some(GameEventType::SetWeaponSlots)
    } else if partial == "sh"@ {
        Some(GameEventType::SetBowSlots)
    } else if partial == "bo"@ {
        Some(GameEventType::SetShieldSlots)
    } else if partial == "he"@ {
        Some(GameEventType::SetHearts)
    } else if partial == "st"@ {
        Some(GameEventType::SetStamina)
    } else if partial == "die"@ {
        Some(GameEventType::LinkDeath)
    } else {
        None
    }
}

/// Whether a kind of event is about one of the player's counters.
pub open spec fn is_counter_type(typ: GameEventType) -> bool {
    match typ {
        GameEventType::BloodMoon
        | GameEventType::KorokSeed
        | GameEventType::LinkDeath
        | GameEventType::OpenChest
        | GameEventType::SetBowSlots
        | GameEventType::SetHearts
        | GameEventType::SetShieldSlots
        | GameEventType::SetStamina
        | GameEventType::SetWeaponSlots => true,
        _ => false,
    }
}

/// The counter of the model that a kind of counter event is about.
pub open spec fn current_count(m: ModelView, typ: GameEventType) -> usize {
    match typ {
        GameEventType::BloodMoon => m.blood_moons,
        GameEventType::KorokSeed => m.korok_seeds,
        GameEventType::LinkDeath => m.deaths,
        GameEventType::OpenChest => m.chests,
        GameEventType::SetBowSlots => m.bow_slots,
        GameEventType::SetHearts => m.hearts,
        GameEventType::SetShieldSlots => m.shield_slots,
        GameEventType::SetStamina => m.stamina,
        GameEventType::SetWeaponSlots => m.weapon_slots,
        _ => 0,
    }
}

/// An event of a kind with its number.
pub open spec fn counted_event(typ: GameEventType, number: usize) -> CommandEvent {
    CommandEvent { typ, number: Some(number), command_number: None }
}

/// The target for a counter: the event that raises the counter by the given
/// number, or by one where none is given, and for hearts and stamina also
/// the event that sets the counter to that number.
pub open spec fn special_target(m: ModelView, typ: GameEventType, number: Option<usize>) -> TargetView {
    let given = match number {
        Some(n) => n,
        None => 1usize,
    };
    let raised = (current_count(m, typ) + given) as usize;
    TargetView {
        model_list: ModelList::NoList,
        target_type: TargetType::NoTarget,
        name: ""@,
        status: ""@,
        command_number: None,
        events: if typ == GameEventType::SetHearts || typ == GameEventType::SetStamina {
            seq![counted_event(typ, raised), counted_event(typ, given)]
        } else {
            seq![counted_event(typ, raised)]
        },
    }
}

/// Whether the raised counter fits.
pub open spec fn special_fits(m: ModelView, typ: GameEventType, number: Option<usize>) -> bool {
    current_count(m, typ) + (match number {
        Some(n) => n,
        None => 1usize,
    }) <= usize::MAX
}

/// The targets for a counter: one where the letters stand for a counter,
/// none where they do not.
pub open spec fn special_targets(m: ModelView, partial: Seq<char>, number: Option<usize>) -> Seq<TargetView> {
    match special_type(partial) {
        Some(typ) => seq![special_target(m, typ, number)],
        None => Seq::empty(),
    }
}

/// Whether the entities are searched too: where no number is given, and the
/// letters stand for no counter or the entities are wanted beside it.
pub open spec fn entities_searched(partial: Seq<char>, number: Option<usize>, add_to_special: bool) -> bool {
    (add_to_special || special_type(partial) is None) && number is None
}

/// The targets that are suggested, without their numbers: the counter's
/// target, then where the entities are searched the characters, the
/// locations and the quests, each in the order of their keys.
pub open spec fn suggested(
    model: Model,
    partial: Seq<char>,
    number: Option<usize>,
    include_empty: bool,
    add_to_special: bool,
) -> Seq<TargetView> {
    if entities_searched(partial, number, add_to_special) {
        special_targets(model@, partial, number) + character_targets(
            model,
            partial,
            include_empty,
            model.characters.keys().len(),
        ) + location_targets(model, partial, include_empty, model.locations.keys().len()) + quest_targets(
            model,
            partial,
            include_empty,
            model.quests.keys().len(),
        )
    } else {
        special_targets(model@, partial, number)
    }
}

/// The targets with their events numbered from one on, through all the
/// targets.
pub open spec fn numbered_events(targets: Seq<TargetView>) -> Seq<TargetView> {
    Seq::new(
        targets.len(),
        |i: int|
            TargetView {
                events: Seq::new(
                    targets[i].events.len(),
                    |j: int|
                        CommandEvent {
                            command_number: Some((event_count(targets.take(i)) + j + 1) as usize),
                            ..targets[i].events[j]
                        },
                ),
                ..targets[i]
            },
    )
}

/// The targets numbered from one on.
pub open spec fn numbered_targets(targets: Seq<TargetView>) -> Seq<TargetView> {
    Seq::new(targets.len(), |i: int| TargetView { command_number: Some((i + 1) as usize), ..targets[i] })
}

/// Whether the events are numbered rather than the targets: where there are
/// few enough, or where it is asked for.
pub open spec fn events_get_numbers(targets: Seq<TargetView>, force: bool) -> bool {
    event_count(targets) <= MAX_SUGGESTIONS || force
}

/// Whether the model is small enough for its commands to be counted: four
/// for each entity and for the counter stay below the greatest number.
pub open spec fn model_fits(model: Model) -> bool {
    4 * (model.characters.keys().len() + model.locations.keys().len() + model.quests.keys().len() + 1)
        < usize::MAX
}

/// The events of two lists of targets together.
pub proof fn lemma_event_count_add(a: Seq<TargetView>, b: Seq<TargetView>)
    ensures
        event_count(a + b) == event_count(a) + event_count(b),
    decreases b.len(),
{
    if b.len() == 0 {
        assert(a + b =~= a);
    } else {
        lemma_event_count_add(a, b.drop_last());
        assert((a + b).drop_last() =~= a + b.drop_last());
        assert((a + b).last() == b.last());
    }
}

/// A list of targets grown by one has the events of the one more.
pub proof fn lemma_event_count_push(a: Seq<TargetView>, t: TargetView)
    ensures
        event_count(a.push(t)) == event_count(a) + t.events.len(),
{
    assert(a.push(t).drop_last() =~= a);
}

/// No more than four commands are suggested for an entity, and no more than
/// two for a counter.
pub proof fn lemma_suggested_count(
    model: Model,
    partial: Seq<char>,
    number: Option<usize>,
    include_empty: bool,
    add_to_special: bool,
)
    ensures
        event_count(suggested(model, partial, number, include_empty, add_to_special)) <= 4 * (
        model.characters.keys().len() + model.locations.keys().len() + model.quests.keys().len() + 1),
{
    let special = special_targets(model@, partial, number);
    let characters = character_targets(model, partial, include_empty, model.characters.keys().len());
    let locations = location_targets(model, partial, include_empty, model.locations.keys().len());
    let quests = quest_targets(model, partial, include_empty, model.quests.keys().len());
    assert(event_count(special) <= 2) by {
        if special.len() > 0 {
            lemma_event_count_push(Seq::<TargetView>::empty(), special[0]);
            assert(Seq::<TargetView>::empty().push(special[0]) =~= special);
        }
    }
    lemma_character_count(model, partial, include_empty, model.characters.keys().len());
    lemma_location_count(model, partial, include_empty, model.locations.keys().len());
    lemma_quest_count(model, partial, include_empty, model.quests.keys().len());
    lemma_event_count_add(special, characters);
    lemma_event_count_add(special + characters, locations);
    lemma_event_count_add(special + characters + locations, quests);
}

/// No more than three commands are suggested for a character.
pub proof fn lemma_character_count(model: Model, partial: Seq<char>, include_empty: bool, n: nat)
    ensures
        event_count(character_targets(model, partial, include_empty, n)) <= 4 * n,
    decreases n,
{
    if n > 0 {
        lemma_character_count(model, partial, include_empty, (n - 1) as nat);
        lemma_event_count_push(
            character_targets(model, partial, include_empty, (n - 1) as nat),
            character_target(model.characters.values()[n - 1]),
        );
    }
}

/// No more than four commands are suggested for a location.
pub proof fn lemma_location_count(model: Model, partial: Seq<char>, include_empty: bool, n: nat)
    ensures
        event_count(location_targets(model, partial, include_empty, n)) <= 4 * n,
    decreases n,
{
    if n > 0 {
        lemma_location_count(model, partial, include_empty, (n - 1) as nat);
        lemma_event_count_push(
            location_targets(model, partial, include_empty, (n - 1) as nat),
            location_target(model.locations.values()[n - 1], model),
        );
    }
}

/// No more than two commands are suggested for a quest.
pub proof fn lemma_quest_count(model: Model, partial: Seq<char>, include_empty: bool, n: nat)
    ensures
        event_count(quest_targets(model, partial, include_empty, n)) <= 4 * n,
    decreases n,
{
    if n > 0 {
        lemma_quest_count(model, partial, include_empty, (n - 1) as nat);
        lemma_event_count_push(
            quest_targets(model, partial, include_empty, (n - 1) as nat),
            quest_target(model.quests.values()[n - 1], model),
        );
    }
}

/// Whether a set can be generated for the letters: the model knows what the
/// statuses speak of, and the numbers fit.
pub open spec fn can_generate(
    model: Model,
    partial: Seq<char>,
    number: Option<usize>,
    include_empty: bool,
    add_to_special: bool,
) -> bool {
    &&& special_type(partial) is Some ==> special_fits(model@, special_type(partial)->0, number)
    &&& entities_searched(partial, number, add_to_special) ==> locations_describable(model, partial)
        && quests_describable(model, partial)
    &&& model_fits(model)
}

impl CommandSet {
    /// The targets are those that are suggested for the letters of the set,
    /// numbered as their number asks for.
    pub open spec fn is_generated(&self, model: Model) -> bool {
        let plain = suggested(
            model,
            self.partial_name@,
            self.number,
            self.include_empty_targets,
            self.add_to_special_commands,
        );
        &&& self.number_targets == !events_get_numbers(plain, self.force_number_events)
        &&& self.target_views() == (if self.number_targets {
            numbered_targets(plain)
        } else {
            numbered_events(plain)
        })
    }

    /// The kind of counter event that the letters stand for, where they
    /// stand for one.
    fn special_event_type(&self) -> (r: Option<GameEventType>)
        ensures
            r == special_type(self.partial_name@),
    {
        let partial = self.partial_name.as_str();
        if same_text(partial, "k") {
            Some(GameEventType::KorokSeed)
        } else if same_text(partial, "c") {
            Some(GameEventType::OpenChest)
        } else if same_text(partial, "bl") {
            Some(GameEventType::BloodMoon)
        } else if same_text(partial, "we") {
            Some(GameEventType::SetWeaponSlots)
        } else if same_text(partial, "sh") {
            Some(GameEventType::SetBowSlots)
        } else if same_text(partial, "bo") {
            Some(GameEventType::SetShieldSlots)
        } else if same_text(partial, "he") {
            Some(GameEventType::SetHearts)
        } else if same_text(partial, "st") {
            Some(GameEventType::SetStamina)
        } else if same_text(partial, "die") {
            Some(GameEventType::LinkDeath)
        } else {
            None
        }
    }

    fn get_current_count_no_target(model: &Model, event_type: &GameEventType) -> (r: usize)
        requires
            is_counter_type(*event_type),
        ensures
            r == current_count(model@, *event_type),
    {
        match event_type {
            GameEventType::BloodMoon => model.blood_moons,
            GameEventType::KorokSeed => model.korok_seeds,
            GameEventType::LinkDeath => model.deaths,
            GameEventType::OpenChest => model.chests,
            GameEventType::SetBowSlots => model.bow_slots,
            GameEventType::SetHearts => model.hearts,
            GameEventType::SetShieldSlots => model.shield_slots,
            GameEventType::SetStamina => model.stamina,
            GameEventType::SetWeaponSlots => model.weapon_slots,
            _ => vstd::pervasive::unreached(),
        }
    }

    fn gen_no_target(&mut self, model: &Model, event_type: GameEventType)
        requires
            is_counter_type(event_type),
            special_fits(model@, event_type, old(self).number),
        ensures
            final(self).same_request(*old(self)),
            final(self).target_views() == old(self).target_views().push(
                special_target(model@, event_type, old(self).number),
            ),
    {
        let ghost before = self.target_views();
        let mut target = CommandTarget::new(ModelList::NoList, TargetType::NoTarget, "", "");
        let current_count = Self::get_current_count_no_target(model, &event_type);
        let number_given = match self.number {
            Some(n) => n,
            None => 1,
        };
        let number = current_count + number_given;
        match event_type {
            GameEventType::SetHearts | GameEventType::SetStamina => {
                target.events.push(CommandEvent::new(event_type, Some(number)));
                target.events.push(CommandEvent::new(event_type, Some(number_given)));
            },
            _ => {
                target.events.push(CommandEvent::new(event_type, Some(number)));
            },
        }
        assert(target.events@ =~= special_target(model@, event_type, self.number).events);
        self.targets.push(target);
        assert(self.target_views() =~= before.push(special_target(model@, event_type, self.number)));
    }

    /// Fills the set with the targets that the letters mean. Few commands
    /// get a number each; where there are more than a screen holds, the
    /// targets are numbered instead, unless numbers for the events are
    /// asked for.
    pub fn generate(&mut self, model: &Model)
        requires
            model.wf(),
            can_generate(
                *model,
                old(self).partial_name@,
                old(self).number,
                old(self).include_empty_targets,
                old(self).add_to_special_commands,
            ),
        ensures
            final(self).partial_name == old(self).partial_name,
            final(self).number == old(self).number,
            final(self).include_empty_targets == old(self).include_empty_targets,
            final(self).force_number_events == old(self).force_number_events,
            final(self).add_to_special_commands == old(self).add_to_special_commands,
            final(self).is_generated(*model),
    {
        let ghost plain = suggested(
            *model,
            self.partial_name@,
            self.number,
            self.include_empty_targets,
            self.add_to_special_commands,
        );
        self.number_targets = false;
        self.targets.clear();
        assert(self.target_views() =~= Seq::<TargetView>::empty());
        let has_number = self.number.is_some();
        match self.special_event_type() {
            Some(event_type) => {
                self.gen_no_target(model, event_type);
                assert(self.target_views() =~= special_targets(model@, self.partial_name@, self.number));
            },
            None => {},
        }
        if self.add_to_special_commands || self.targets.is_empty() {
            if !has_number {
                self.gen_characters(model);
                self.gen_locations(model);
                self.gen_quests(model);
            }
        }
        assert(self.target_views() =~= plain);
        proof {
            lemma_suggested_count(
                *model,
                self.partial_name@,
                self.number,
                self.include_empty_targets,
                self.add_to_special_commands,
            );
        }
        let command_count = self.command_count();
        if command_count <= MAX_SUGGESTIONS || self.force_number_events {
            self.number_targets = false;
            self.number_the_events();
        } else {
            self.number_targets = true;
            self.number_the_targets();
        }
    }

    /// Numbers the events from one on, through all the targets.
    fn number_the_events(&mut self)
        requires
            event_count(old(self).target_views()) < usize::MAX,
        ensures
            final(self).same_request(*old(self)),
            final(self).target_views() == numbered_events(old(self).target_views()),
    {
        let ghost plain = self.target_views();
        let mut command_number: usize = 1;
        let mut i: usize = 0;
        while i < self.targets.len()
            invariant
                self.same_request(*old(self)),
                i <= self.targets@.len(),
                self.targets@.len() == plain.len(),
                event_count(plain) < usize::MAX,
                command_number == event_count(plain.take(i as int)) + 1,
                forall|k: int| 0 <= k < i ==> (#[trigger] self.target_views()[k]) == numbered_events(plain)[k],
                forall|k: int| i <= k < plain.len() ==> (#[trigger] self.target_views()[k]) == plain[k],
            decreases self.targets@.len() - i,
        {
            proof {
                assert(plain.take(i + 1).drop_last() =~= plain.take(i as int));
                lemma_event_count_grows(plain, i + 1);
                assert(self.target_views()[i as int] == plain[i as int]);
            }
            let ghost first = command_number;
            let mut j: usize = 0;
            while j < self.targets[i].events.len()
                invariant
                    self.same_request(*old(self)),
                    i < self.targets@.len(),
                    self.targets@.len() == plain.len(),
                    first == event_count(plain.take(i as int)) + 1,
                    first + plain[i as int].events.len() <= usize::MAX,
                    j <= self.targets@[i as int].events@.len(),
                    self.targets@[i as int].events@.len() == plain[i as int].events.len(),
                    command_number == first + j,
                    self.targets@[i as int]@ == (TargetView { events: self.targets@[i as int].events@, ..plain[i as int] }),
                    forall|k: int|
                        0 <= k < j ==> (#[trigger] self.targets@[i as int].events@[k]) == (CommandEvent {
                            command_number: Some((first + k) as usize),
                            ..plain[i as int].events[k]
                        }),
                    forall|k: int|
                        j <= k < plain[i as int].events.len() ==> (#[trigger] self.targets@[i as int].events@[k])
                            == plain[i as int].events[k],
                    forall|k: int| 0 <= k < i ==> (#[trigger] self.target_views()[k]) == numbered_events(plain)[k],
                    forall|k: int| i < k < plain.len() ==> (#[trigger] self.target_views()[k]) == plain[k],
                decreases self.targets@[i as int].events@.len() - j,
            {
                let ghost targets_before = self.target_views();
                let ghost events_before = self.targets@[i as int].events@;
                self.targets[i].events[j].command_number = Some(command_number);
                proof {
                    assert forall|k: int| 0 <= k < plain.len() && k != i implies (
                    #[trigger] self.target_views()[k]) == targets_before[k] by {}
                }
                command_number += 1;
                j += 1;
            }
            proof {
                assert(self.target_views()[i as int].events =~= numbered_events(plain)[i as int].events);
            }
            i += 1;
        }
        assert(self.target_views() =~= numbered_events(plain));
    }

    /// Numbers the targets from one on.
    fn number_the_targets(&mut self)
        ensures
            final(self).same_request(*old(self)),
            final(self).target_views() == numbered_targets(old(self).target_views()),
    {
        let ghost plain = self.target_views();
        let mut i: usize = 0;
        while i < self.targets.len()
            invariant
                self.same_request(*old(self)),
                i <= self.targets@.len(),
                self.targets@.len() == plain.len(),
                forall|k: int| 0 <= k < i ==> (#[trigger] self.target_views()[k]) == numbered_targets(plain)[k],
                forall|k: int| i <= k < plain.len() ==> (#[trigger] self.target_views()[k]) == plain[k],
            decreases self.targets@.len() - i,
        {
            let ghost targets_before = self.target_views();
            self.targets[i].command_number = Some(i + 1);
            proof {
                assert forall|k: int| 0 <= k < plain.len() && k != i implies (#[trigger] self.target_views()[k])
                    == targets_before[k] by {}
                assert(targets_before[i as int] == plain[i as int]);
            }
            i += 1;
        }
        assert(self.target_views() =~= numbered_targets(plain));
    }
}

/// Whether the target at place `i` is the first that bears the number, and
/// every target before it bears another.
pub open spec fn is_chosen_target(targets: Seq<TargetView>, command_number: usize, i: int) -> bool {
    &&& 0 <= i < targets.len()
    &&& targets[i].command_number == Some(command_number)
    &&& forall|k: int|
        0 <= k < i ==> (#[trigger] targets[k]).command_number is Some && targets[k].command_number != Some(
            command_number,
        )
}

/// Only one target is the first that bears a number.
pub proof fn lemma_chosen_target_unique(targets: Seq<TargetView>, command_number: usize, i: int)
    requires
        is_chosen_target(targets, command_number, i),
    ensures
        chosen_target(targets, command_number) == i,
{
    let c = chosen_target(targets, command_number);
    if c < i {
        assert(targets[c].command_number != Some(command_number));
    } else if c > i {
        assert(targets[i].command_number != Some(command_number));
    }
}

/// The place of the first target that bears the number.
pub open spec fn chosen_target(targets: Seq<TargetView>, command_number: usize) -> int {
    choose|i: int| is_chosen_target(targets, command_number, i)
}

/// The event that a command stands for: of the command's kind and number,
/// about the target, at the given time.
pub open spec fn command_event(target: TargetView, event: CommandEvent, time: usize) -> EventView {
    EventView { time, typ: event.typ, name: target.name, number: event.number, previous_number: None }
}

/// The events of the first `upto` commands of a target that bear the number.
pub open spec fn target_candidates(target: TargetView, time: usize, command_number: usize, upto: nat) -> Seq<
    EventView,
>
    decreases upto,
{
    if upto == 0 {
        Seq::empty()
    } else {
        let before = target_candidates(target, time, command_number, (upto - 1) as nat);
        if target.events[upto - 1].command_number == Some(command_number) {
            before.push(command_event(target, target.events[upto - 1], time))
        } else {
            before
        }
    }
}

/// The events of the commands that bear the number, through the first
/// `upto` targets.
pub open spec fn candidates(targets: Seq<TargetView>, time: usize, command_number: usize, upto: nat) -> Seq<
    EventView,
>
    decreases upto,
{
    if upto == 0 {
        Seq::empty()
    } else {
        candidates(targets, time, command_number, (upto - 1) as nat) + target_candidates(
            targets[upto - 1],
            time,
            command_number,
            targets[upto - 1].events.len(),
        )
    }
}

/// Whether every command of every target bears a number.
pub open spec fn all_events_numbered(targets: Seq<TargetView>) -> bool {
    forall|i: int, j: int|
        0 <= i < targets.len() && 0 <= j < targets[i].events.len() ==> (#[trigger] targets[i].events[j]).command_number
            is Some
}

/// The model after the events have been added one after the other, each
/// with what it presupposes.
pub open spec fn after_adds(m: ModelView, events: Seq<EventView>) -> ModelView
    decreases events.len(),
{
    if events.len() == 0 {
        m
    } else {
        let before = after_adds(m, events.drop_last());
        applied_all(before, derivation(before, events.last())->Ok_0)
    }
}

/// What the log gains when the events are added one after the other.
pub open spec fn log_of_adds(m: ModelView, events: Seq<EventView>) -> Seq<EventView>
    decreases events.len(),
{
    if events.len() == 0 {
        Seq::empty()
    } else {
        let before = after_adds(m, events.drop_last());
        log_of_adds(m, events.drop_last()) + applied_events(before, derivation(before, events.last())->Ok_0)
    }
}

/// How many of the events can be added one after the other before one
/// cannot.
pub open spec fn addable_count(m: ModelView, events: Seq<EventView>) -> nat
    decreases events.len(),
{
    if events.len() == 0 {
        0
    } else {
        let before = addable_count(m, events.drop_last());
        if before == events.len() - 1 && add_event_error(after_adds(m, events.drop_last()), events.last()) is None {
            events.len()
        } else {
            before
        }
    }
}

/// Whether all the events can be added one after the other.
pub open spec fn all_addable(m: ModelView, events: Seq<EventView>) -> bool {
    addable_count(m, events) == events.len()
}

/// The first events of a list can be added as far as the whole list can.
pub proof fn lemma_addable_prefix(m: ModelView, events: Seq<EventView>, n: int)
    requires
        0 <= n <= events.len(),
    ensures
        addable_count(m, events) <= events.len(),
        addable_count(m, events.take(n)) == (if addable_count(m, events) < n {
            addable_count(m, events)
        } else {
            n as nat
        }),
    decreases events.len(),
{
    if events.len() == 0 {
        assert(events.take(n) =~= events);
    } else if n == events.len() {
        assert(events.take(n) =~= events);
        lemma_addable_prefix(m, events.drop_last(), n - 1);
    } else {
        lemma_addable_prefix(m, events.drop_last(), n);
        assert(events.drop_last().take(n) =~= events.take(n));
    }
}

/// A command's number before a line: at least two wide, then a colon and a
/// space; nothing where there is no number.
pub open spec fn number_prefix(command_number: Option<usize>) -> Seq<char> {
    match command_number {
        Some(n) => padded(decimal(n as nat), 2, ' ') + ": "@,
        None => Seq::empty(),
    }
}

/// The line that shows a target: its number, its type, its name between
/// quotation marks, and its status.
pub open spec fn target_line(target: TargetView, shown_name: Seq<char>) -> Seq<char> {
    number_prefix(target.command_number) + target.target_type.name() + " \""@ + shown_name + "\": "@
        + target.status
}

/// The line that shows a command: its number, its kind, and the number of
/// the event where it has one.
pub open spec fn event_line(event: CommandEvent) -> Seq<char> {
    number_prefix(event.command_number) + event.typ.name() + (match event.number {
        Some(n) => ": "@ + decimal(n as nat),
        None => Seq::empty(),
    })
}

/// The name under which a target is shown: a location with the challenge of
/// its shrine.
pub open spec fn shown_name(target: TargetView, m: ModelView) -> Seq<char> {
    if target.target_type == TargetType::Location {
        m.location(target.name).name_with_challenge_text()
    } else {
        target.name
    }
}

/// Whether the model knows every location among the targets.
pub open spec fn locations_known(targets: Seq<TargetView>, m: ModelView) -> bool {
    forall|i: int|
        0 <= i < targets.len() && (#[trigger] targets[i]).target_type == TargetType::Location ==> m.has_location(
            targets[i].name,
        )
}

/// The lines of the report for the first `upto` targets: each target, and
/// below it its commands unless the targets are the ones numbered.
pub open spec fn report_lines(targets: Seq<TargetView>, m: ModelView, number_targets: bool, upto: nat) -> Seq<
    (usize, Seq<char>),
>
    decreases upto,
{
    if upto == 0 {
        seq![(0usize, Seq::<char>::empty())]
    } else {
        let target = targets[upto - 1];
        let before = report_lines(targets, m, number_targets, (upto - 1) as nat).push(
            (0usize, target_line(target, shown_name(target, m))),
        );
        if number_targets {
            before
        } else {
            before + Seq::new(target.events.len(), |j: int| (1usize, event_line(target.events[j])))
        }
    }
}

/// A command's number before a line.
fn number_prefix_text(command_number: Option<usize>) -> (r: String)
    ensures
        r@ == number_prefix(command_number),
{
    match command_number {
        Some(n) => {
            proof {
                reveal_strlit(" ");
            }
            let mut text = pad_left(number_text(n).as_str(), 2, " ");
            text.append(": ");
            text
        },
        None => String::new(),
    }
}

impl CommandSet {
    /// A set for the letters, filled with the targets they mean.
    pub fn new_gen(model: &Model, partial_name: &str, number: Option<usize>) -> (r: Self)
        requires
            model.wf(),
            can_generate(*model, lowercase(partial_name@), number, true, false),
        ensures
            r.partial_name@ == lowercase(partial_name@),
            r.number == number,
            r.include_empty_targets,
            !r.force_number_events,
            !r.add_to_special_commands,
            r.is_generated(*model),
    {
        let mut command_set = Self::new(partial_name, number);
        command_set.generate(model);
        command_set
    }

    /// The set for the target that was chosen by its number: generated from
    /// the name of that target, with a number for each command.
    pub fn regen_with_chosen_target(&self, model: &Model, command_number: usize) -> (r: Self)
        requires
            self.number_targets,
            exists|i: int| is_chosen_target(self.target_views(), command_number, i),
            model.wf(),
            can_generate(
                *model,
                lowercase(self.target_views()[chosen_target(self.target_views(), command_number)].name),
                self.number,
                self.include_empty_targets,
                self.add_to_special_commands,
            ),
        ensures
            r.partial_name@ == lowercase(
                self.target_views()[chosen_target(self.target_views(), command_number)].name,
            ),
            r.number == self.number,
            r.include_empty_targets == self.include_empty_targets,
            r.add_to_special_commands == self.add_to_special_commands,
            r.force_number_events,
            !r.number_targets,
            r.is_generated(*model),
    {
        let name = match self.find_chosen_target(command_number) {
            Some(i) => {
                assert(self.target_views()[i as int] == self.targets@[i as int]@);
                self.targets[i].name.clone()
            },
            None => vstd::pervasive::unreached(),
        };
        let mut command_set = self.clone_empty(name.as_str());
        command_set.force_number_events = true;
        command_set.generate(model);
        command_set
    }

    /// The events of the commands that bear the number, in the order of the
    /// targets and of their commands.
    pub fn chosen_events(&self, time: usize, command_number: usize) -> (r: Vec<GameEvent>)
        requires
            all_events_numbered(self.target_views()),
        ensures
            crate::model_3::game_record::event_views(r@) == candidates(
                self.target_views(),
                time,
                command_number,
                self.target_views().len(),
            ),
    {
        let ghost views = self.target_views();
        let mut chosen: Vec<GameEvent> = Vec::new();
        let mut i: usize = 0;
        while i < self.targets.len()
            invariant
                views == self.target_views(),
                all_events_numbered(views),
                i <= self.targets@.len(),
                crate::model_3::game_record::event_views(chosen@) == candidates(views, time, command_number, i as nat),
            decreases self.targets@.len() - i,
        {
            let ghost start = crate::model_3::game_record::event_views(chosen@);
            let target = &self.targets[i];
            assert(views[i as int] == target@);
            let mut j: usize = 0;
            while j < target.events.len()
                invariant
                    views == self.target_views(),
                    all_events_numbered(views),
                    i < self.targets@.len(),
                    views[i as int] == target@,
                    j <= target.events@.len(),
                    crate::model_3::game_record::event_views(chosen@) == start + target_candidates(
                        target@,
                        time,
                        command_number,
                        j as nat,
                    ),
                decreases target.events@.len() - j,
            {
                let ghost before = crate::model_3::game_record::event_views(chosen@);
                let event = &target.events[j];
                assert(views[i as int].events[j as int].command_number is Some);
                if event.command_number.unwrap() == command_number {
                    chosen.push(GameEvent::new(time, event.typ, target.name.as_str(), event.number));
                    assert(crate::model_3::game_record::event_views(chosen@) =~= before.push(
                        command_event(target@, *event, time),
                    ));
                    assert(before.push(command_event(target@, *event, time)) =~= start + target_candidates(
                        target@,
                        time,
                        command_number,
                        (j + 1) as nat,
                    ));
                } else {
                    assert(crate::model_3::game_record::event_views(chosen@) =~= before);
                }
                j += 1;
            }
            i += 1;
        }
        chosen
    }

    /// Records the commands that bear the number: adds the event of each to
    /// the log, with what it presupposes. Every command must bear a number,
    /// and each event must be one that can be added when its turn comes.
    pub fn apply_command(&self, model: &mut Model, game_record: &mut GameRecord, time: usize, command_number: usize)
        requires
            !self.number_targets,
            all_events_numbered(self.target_views()),
            old(model).wf(),
            all_addable(
                old(model)@,
                candidates(self.target_views(), time, command_number, self.target_views().len()),
            ),
        ensures
            final(model).wf(),
            final(model)@ == after_adds(
                old(model)@,
                candidates(self.target_views(), time, command_number, self.target_views().len()),
            ),
            final(game_record)@ == old(game_record)@ + log_of_adds(
                old(model)@,
                candidates(self.target_views(), time, command_number, self.target_views().len()),
            ),
            final(game_record).name == old(game_record).name,
    {
        let ghost m0 = model@;
        let ghost log0 = game_record@;
        let mut chosen = self.chosen_events(time, command_number);
        let ghost all = crate::model_3::game_record::event_views(chosen@);
        let mut i: usize = 0;
        while i < chosen.len()
            invariant
                model.wf(),
                game_record.name == old(game_record).name,
                i <= chosen@.len(),
                all == crate::model_3::game_record::event_views(chosen@),
                all_addable(m0, all),
                model@ == after_adds(m0, all.take(i as int)),
                game_record@ == log0 + log_of_adds(m0, all.take(i as int)),
            decreases chosen@.len() - i,
        {
            proof {
                lemma_addable_prefix(m0, all, i + 1);
                lemma_addable_prefix(m0, all, i as int);
                assert(all.take(i + 1).drop_last() =~= all.take(i as int));
                assert(all.take(i + 1).last() == all[i as int]);
            }
            let ghost log_before = game_record@;
            let ghost model_before = model@;
            game_record.add_event(model, chosen[i].clone());
            proof {
                let gained = applied_events(model_before, derivation(model_before, all[i as int])->Ok_0);
                assert(log0 + (log_of_adds(m0, all.take(i as int)) + gained) =~= log_before + gained);
            }
            i += 1;
        }
        proof {
            assert(all.take(i as int) =~= all);
            assert(log0 + Seq::<EventView>::empty() =~= log0);
        }
    }

    /// Records the commands that bear the number as far as their events can
    /// be added, and stops at the first that cannot: what has been added by
    /// then stays. A command without a number stands against all of it.
    pub fn try_apply_command(
        &self,
        model: &mut Model,
        game_record: &mut GameRecord,
        time: usize,
        command_number: usize,
    ) -> (r: Result<(), EventError>)
        requires
            old(model).wf(),
        ensures
            final(model).wf(),
            final(game_record).name == old(game_record).name,
            !all_events_numbered(self.target_views()) ==> r == Err::<(), EventError>(
                EventError::PreconditionViolated,
            ) && final(model)@ == old(model)@ && final(game_record)@ == old(game_record)@,
            all_events_numbered(self.target_views()) ==> ({
                let all = candidates(self.target_views(), time, command_number, self.target_views().len());
                let done = addable_count(old(model)@, all);
                &&& done <= all.len()
                &&& final(model)@ == after_adds(old(model)@, all.take(done as int))
                &&& final(game_record)@ == old(game_record)@ + log_of_adds(old(model)@, all.take(done as int))
                &&& match r {
                    Ok(()) => done == all.len(),
                    Err(error) => done < all.len() && add_event_error(final(model)@, all[done as int]) == Some(
                        error,
                    ),
                }
            }),
    {
        if !self.events_numbered() {
            return Err(EventError::PreconditionViolated);
        }
        let ghost m0 = model@;
        let ghost log0 = game_record@;
        let mut chosen = self.chosen_events(time, command_number);
        let ghost all = crate::model_3::game_record::event_views(chosen@);
        proof {
            lemma_addable_prefix(m0, all, 0);
            assert(log0 + Seq::<EventView>::empty() =~= log0);
        }
        let mut i: usize = 0;
        while i < chosen.len()
            invariant
                model.wf(),
                game_record.name == old(game_record).name,
                i <= chosen@.len(),
                m0 == old(model)@,
                log0 == old(game_record)@,
                all_events_numbered(self.target_views()),
                all == candidates(self.target_views(), time, command_number, self.target_views().len()),
                all == crate::model_3::game_record::event_views(chosen@),
                addable_count(m0, all.take(i as int)) == i,
                model@ == after_adds(m0, all.take(i as int)),
                game_record@ == log0 + log_of_adds(m0, all.take(i as int)),
            decreases chosen@.len() - i,
        {
            proof {
                lemma_addable_prefix(m0, all, i + 1);
                lemma_addable_prefix(m0, all, i as int);
                assert(all.take(i + 1).drop_last() =~= all.take(i as int));
                assert(all.take(i + 1).last() == all[i as int]);
            }
            let ghost log_before = game_record@;
            let ghost model_before = model@;
            match game_record.try_add_event(model, chosen[i].clone()) {
                Ok(_) => {
                    proof {
                        let gained = applied_events(model_before, derivation(model_before, all[i as int])->Ok_0);
                        assert(log0 + (log_of_adds(m0, all.take(i as int)) + gained) =~= log_before + gained);
                    }
                },
                Err(error) => {
                    return Err(error);
                },
            }
            i += 1;
        }
        proof {
            assert(all.take(i as int) =~= all);
        }
        Ok(())
    }

    /// Tells whether every command of every target bears a number.
    pub fn events_numbered(&self) -> (r: bool)
        ensures
            r == all_events_numbered(self.target_views()),
    {
        let ghost views = self.target_views();
        let mut i: usize = 0;
        while i < self.targets.len()
            invariant
                views == self.target_views(),
                i <= self.targets@.len(),
                forall|a: int, b: int|
                    0 <= a < i && 0 <= b < views[a].events.len() ==> (#[trigger] views[a].events[b]).command_number
                        is Some,
            decreases self.targets@.len() - i,
        {
            let target = &self.targets[i];
            assert(views[i as int] == target@);
            let mut j: usize = 0;
            while j < target.events.len()
                invariant
                    views == self.target_views(),
                    i < self.targets@.len(),
                    views[i as int] == target@,
                    j <= target.events@.len(),
                    forall|b: int| 0 <= b < j ==> (#[trigger] target.events@[b]).command_number is Some,
                decreases target.events@.len() - j,
            {
                if target.events[j].command_number.is_none() {
                    assert(views[i as int].events[j as int].command_number is None);
                    return false;
                }
                j += 1;
            }
            i += 1;
        }
        true
    }
}

impl CommandSet {
    /// The report of the set as lines: an empty line, then each target, and
    /// below it its commands unless the targets are the ones numbered. The
    /// model must know the locations among the targets.
    pub fn print_numbered(&self, model: &Model) -> (r: Vec<ReportLine>)
        requires
            model.wf(),
            locations_known(self.target_views(), model@),
        ensures
            line_views(r@) == report_lines(
                self.target_views(),
                model@,
                self.number_targets,
                self.target_views().len(),
            ),
    {
        let ghost views = self.target_views();
        let mut lines: Vec<ReportLine> = Vec::new();
        lines.push(ReportLine { depth: 0, text: String::new() });
        assert(line_views(lines@) =~= report_lines(views, model@, self.number_targets, 0));
        let mut i: usize = 0;
        while i < self.targets.len()
            invariant
                model.wf(),
                views == self.target_views(),
                locations_known(views, model@),
                i <= self.targets@.len(),
                line_views(lines@) == report_lines(views, model@, self.number_targets, i as nat),
            decreases self.targets@.len() - i,
        {
            let target = &self.targets[i];
            assert(views[i as int] == target@);
            let ghost before = line_views(lines@);
            let name_with_shrine_challenge = match target.target_type {
                TargetType::Location => model.get_location(target.name.as_str()).name_with_shrine_challenge(),
                _ => target.name.clone(),
            };
            let mut text = number_prefix_text(target.command_number);
            text.append(target.target_type.variant_to_string());
            text.append(" \"");
            text.append(name_with_shrine_challenge.as_str());
            text.append("\": ");
            text.append(target.status.as_str());
            lines.push(ReportLine { depth: 0, text });
            let ghost with_target = before.push((0usize, target_line(target@, shown_name(target@, model@))));
            assert(line_views(lines@) =~= with_target);
            if !self.number_targets {
                let mut j: usize = 0;
                while j < target.events.len()
                    invariant
                        j <= target.events@.len(),
                        line_views(lines@) == with_target + Seq::new(
                            j as nat,
                            |k: int| (1usize, event_line(target@.events[k])),
                        ),
                    decreases target.events@.len() - j,
                {
                    let ghost lines_before = line_views(lines@);
                    let event = &target.events[j];
                    let mut text = number_prefix_text(event.command_number);
                    text.append(event.typ.variant_to_string());
                    match event.number {
                        Some(n) => {
                            let ghost head = text@;
                            text.append(": ");
                            text.append(number_text(n).as_str());
                            assert(text@ =~= head + (": "@ + decimal(n as nat)));
                        },
                        None => {
                            assert(text@ + Seq::<char>::empty() =~= text@);
                        },
                    }
                    lines.push(ReportLine { depth: 1, text });
                    assert(line_views(lines@) =~= lines_before.push((1usize, event_line(target@.events[j as int]))));
                    assert(lines_before.push((1usize, event_line(target@.events[j as int]))) =~= with_target
                        + Seq::new((j + 1) as nat, |k: int| (1usize, event_line(target@.events[k]))));
                    j += 1;
                }
            } else {
                assert(with_target + Seq::new(0nat, |k: int| (1usize, event_line(target@.events[k])))
                    =~= with_target);
            }
            i += 1;
        }
        lines
    }
}

/// Whether every target that stands for a location bears the name of a
/// location of the model.
pub open spec fn location_targets_named(targets: Seq<TargetView>, m: ModelView) -> bool {
    forall|i: int|
        0 <= i < targets.len() ==> ((#[trigger] targets[i]).target_type == TargetType::Location ==> m.has_location(
            targets[i].name,
        ))
}

/// The targets that are suggested for locations bear the names of locations
/// of the model.
pub proof fn lemma_location_targets_known(model: Model, partial: Seq<char>, include_empty: bool, n: nat)
    requires
        model.wf(),
        n <= model.locations.keys().len(),
    ensures
        location_targets_named(location_targets(model, partial, include_empty, n), model@),
    decreases n,
{
    if n > 0 {
        lemma_location_targets_known(model, partial, include_empty, (n - 1) as nat);
        model.locations.lemma_entry_at(n - 1);
    }
}

/// The targets that are suggested for characters stand for no location.
pub proof fn lemma_character_targets_known(model: Model, partial: Seq<char>, include_empty: bool, n: nat)
    ensures
        location_targets_named(character_targets(model, partial, include_empty, n), model@),
    decreases n,
{
    if n > 0 {
        lemma_character_targets_known(model, partial, include_empty, (n - 1) as nat);
    }
}

/// The targets that are suggested for quests stand for no location.
pub proof fn lemma_quest_targets_known(model: Model, partial: Seq<char>, include_empty: bool, n: nat)
    ensures
        location_targets_named(quest_targets(model, partial, include_empty, n), model@),
    decreases n,
{
    if n > 0 {
        lemma_quest_targets_known(model, partial, include_empty, (n - 1) as nat);
    }
}

/// The model knows every location among the targets of a set that was
/// generated from it, so the report of such a set can always be written.
pub proof fn lemma_generated_locations_known(set: CommandSet, model: Model)
    requires
        model.wf(),
        set.is_generated(model),
    ensures
        locations_known(set.target_views(), model@),
{
    let partial = set.partial_name@;
    let plain = suggested(model, partial, set.number, set.include_empty_targets, set.add_to_special_commands);
    lemma_character_targets_known(model, partial, set.include_empty_targets, model.characters.keys().len());
    lemma_location_targets_known(model, partial, set.include_empty_targets, model.locations.keys().len());
    lemma_quest_targets_known(model, partial, set.include_empty_targets, model.quests.keys().len());
    assert(location_targets_named(plain, model@));
    let views = set.target_views();
    assert forall|i: int|
        0 <= i < views.len() && (#[trigger] views[i]).target_type == TargetType::Location implies model@.has_location(
        views[i].name,
    ) by {
        assert(plain[i].target_type == views[i].target_type);
        assert(plain[i].name == views[i].name);
    }
}

/// The report of the commands that the model suggests for the letters
/// `test`, or nothing where no set can be generated for them.
pub fn try_suggest_commands(model: &Model) -> (r: Option<Vec<ReportLine>>)
    requires
        model.wf(),
    ensures
        r is Some == can_generate(*model, lowercase("test"@), None, true, false),
        match r {
            Some(lines) => exists|set: CommandSet|
                {
                    &&& set.partial_name@ == lowercase("test"@)
                    &&& set.number is None
                    &&& set.include_empty_targets
                    &&& !set.force_number_events
                    &&& !set.add_to_special_commands
                    &&& #[trigger] set.is_generated(*model)
                    &&& line_views(lines@) == report_lines(
                        set.target_views(),
                        model@,
                        set.number_targets,
                        set.target_views().len(),
                    )
                },
            None => true,
        },
{
    match CommandSet::try_new_gen(model, "test", None) {
        Some(set) => {
            proof {
                lemma_generated_locations_known(set, *model);
            }
            Some(set.print_numbered(model))
        },
        None => None,
    }
}

impl CommandSet {
    /// Tells whether the set can be generated from the model: whether the
    /// model knows what the statuses speak of, and the numbers fit.
    pub fn can_generate_from(&self, model: &Model) -> (r: bool)
        requires
            model.wf(),
        ensures
            r == can_generate(
                *model,
                self.partial_name@,
                self.number,
                self.include_empty_targets,
                self.add_to_special_commands,
            ),
    {
        let special = self.special_event_type();
        match special {
            Some(event_type) => {
                let current = Self::get_current_count_no_target(model, &event_type);
                let given = match self.number {
                    Some(n) => n,
                    None => 1,
                };
                if given > usize::MAX - current {
                    return false;
                }
            },
            None => {},
        }
        if (self.add_to_special_commands || special.is_none()) && self.number.is_none() {
            if !self.locations_can_be_described(model) || !self.quests_can_be_described(model) {
                return false;
            }
        }
        let quarter: usize = (usize::MAX - 1) / 4;
        let characters = model.characters.len();
        let locations = model.locations.len();
        let quests = model.quests.len();
        if characters >= quarter {
            return false;
        }
        if locations >= quarter - characters {
            return false;
        }
        quests < quarter - characters - locations
    }

    fn locations_can_be_described(&self, model: &Model) -> (r: bool)
        requires
            model.wf(),
        ensures
            r == locations_describable(*model, self.partial_name@),
    {
        let mut i: usize = 0;
        while i < model.locations.len()
            invariant
                model.wf(),
                i <= model.locations.keys().len(),
                forall|k: int|
                    0 <= k < i && location_matches(
                        #[trigger] model.locations.keys()[k],
                        model.locations.values()[k],
                        self.partial_name@,
                    ) ==> model@.can_describe_location(model.locations.values()[k]),
            decreases model.locations.keys().len() - i,
        {
            let location = model.locations.value_at(i);
            let in_key = str_contains(model.locations.key_at(i).as_str(), self.partial_name.as_str());
            let in_challenge = match &location.challenge {
                Some(challenge) => str_contains(
                    to_lowercase(challenge.as_str()).as_str(),
                    self.partial_name.as_str(),
                ),
                None => false,
            };
            if (in_key || in_challenge) && !location.can_describe(model) {
                assert(location_matches(model.locations.keys()[i as int], *location, self.partial_name@));
                return false;
            }
            i += 1;
        }
        true
    }

    fn quests_can_be_described(&self, model: &Model) -> (r: bool)
        requires
            model.wf(),
        ensures
            r == quests_describable(*model, self.partial_name@),
    {
        let mut i: usize = 0;
        while i < model.quests.len()
            invariant
                model.wf(),
                i <= model.quests.keys().len(),
                forall|k: int|
                    0 <= k < i && text_contains(#[trigger] model.quests.keys()[k], self.partial_name@)
                        ==> model@.can_describe_quest(model.quests.values()[k]),
            decreases model.quests.keys().len() - i,
        {
            let quest = model.quests.value_at(i);
            if str_contains(model.quests.key_at(i).as_str(), self.partial_name.as_str()) && !quest.can_describe(
                model,
            ) {
                assert(text_contains(model.quests.keys()[i as int], self.partial_name@));
                return false;
            }
            i += 1;
        }
        true
    }

    /// Fills the set with the targets that the letters mean if that can be
    /// done, and tells whether it did; the set stays as it is where not.
    pub fn try_generate(&mut self, model: &Model) -> (r: bool)
        requires
            model.wf(),
        ensures
            r == can_generate(
                *model,
                old(self).partial_name@,
                old(self).number,
                old(self).include_empty_targets,
                old(self).add_to_special_commands,
            ),
            final(self).partial_name == old(self).partial_name,
            final(self).number == old(self).number,
            final(self).include_empty_targets == old(self).include_empty_targets,
            final(self).force_number_events == old(self).force_number_events,
            final(self).add_to_special_commands == old(self).add_to_special_commands,
            r ==> final(self).is_generated(*model),
            !r ==> final(self).number_targets == old(self).number_targets && final(self).target_views() == old(
                self,
            ).target_views(),
    {
        if self.can_generate_from(model) {
            self.generate(model);
            true
        } else {
            false
        }
    }

    /// A set for the letters, filled with the targets they mean, or nothing
    /// where that cannot be done.
    pub fn try_new_gen(model: &Model, partial_name: &str, number: Option<usize>) -> (r: Option<Self>)
        requires
            model.wf(),
        ensures
            r is Some == can_generate(*model, lowercase(partial_name@), number, true, false),
            match r {
                Some(set) => {
                    &&& set.partial_name@ == lowercase(partial_name@)
                    &&& set.number == number
                    &&& set.include_empty_targets
                    &&& !set.force_number_events
                    &&& !set.add_to_special_commands
                    &&& set.is_generated(*model)
                },
                None => true,
            },
    {
        let probe = Self::new(partial_name, number);
        if probe.can_generate_from(model) {
            Some(Self::new_gen(model, partial_name, number))
        } else {
            None
        }
    }

    /// The place of the first target that bears the number, if there is one
    /// and every target before it bears a number.
    fn find_chosen_target(&self, command_number: usize) -> (r: Option<usize>)
        ensures
            match r {
                Some(i) => is_chosen_target(self.target_views(), command_number, i as int) && i
                    == chosen_target(self.target_views(), command_number),
                None => !exists|i: int| is_chosen_target(self.target_views(), command_number, i),
            },
    {
        let ghost views = self.target_views();
        let mut i: usize = 0;
        while i < self.targets.len()
            invariant
                views == self.target_views(),
                i <= self.targets@.len(),
                forall|k: int|
                    0 <= k < i ==> (#[trigger] views[k]).command_number is Some && views[k].command_number != Some(
                        command_number,
                    ),
            decreases self.targets@.len() - i,
        {
            assert(views[i as int] == self.targets@[i as int]@);
            match self.targets[i].command_number {
                Some(n) => {
                    if n == command_number {
                        proof {
                            lemma_chosen_target_unique(views, command_number, i as int);
                        }
                        return Some(i);
                    }
                },
                None => {
                    assert forall|c: int| !is_chosen_target(views, command_number, c) by {
                        if is_chosen_target(views, command_number, c) {
                            if c < i {
                                assert(views[c].command_number != Some(command_number));
                            } else if c > i {
                                assert(views[i as int].command_number is Some);
                            }
                        }
                    }
                    return None;
                },
            }
            i += 1;
        }
        assert forall|c: int| !is_chosen_target(views, command_number, c) by {
            if is_chosen_target(views, command_number, c) {
                assert(views[c].command_number != Some(command_number));
            }
        }
        None
    }

    /// The set for the target that was chosen by its number, or nothing
    /// where the targets are not the ones numbered, no target bears the
    /// number, or the set cannot be generated.
    pub fn try_regen_with_chosen_target(&self, model: &Model, command_number: usize) -> (r: Option<Self>)
        requires
            model.wf(),
        ensures
            r is Some == (self.number_targets && (exists|i: int|
                is_chosen_target(self.target_views(), command_number, i)) && can_generate(
                *model,
                lowercase(self.target_views()[chosen_target(self.target_views(), command_number)].name),
                self.number,
                self.include_empty_targets,
                self.add_to_special_commands,
            )),
            match r {
                Some(set) => {
                    &&& set.partial_name@ == lowercase(
                        self.target_views()[chosen_target(self.target_views(), command_number)].name,
                    )
                    &&& set.number == self.number
                    &&& set.include_empty_targets == self.include_empty_targets
                    &&& set.add_to_special_commands == self.add_to_special_commands
                    &&& set.force_number_events
                    &&& !set.number_targets
                    &&& set.is_generated(*model)
                },
                None => true,
            },
    {
        if !self.number_targets {
            return None;
        }
        match self.find_chosen_target(command_number) {
            Some(i) => {
                assert(self.target_views()[i as int] == self.targets@[i as int]@);
                let probe = self.clone_empty(self.targets[i].name.as_str());
                if probe.can_generate_from(model) {
                    Some(self.regen_with_chosen_target(model, command_number))
                } else {
                    None
                }
            },
            None => None,
        }
    }

    /// Tells whether the model knows every location among the targets.
    pub fn knows_locations(&self, model: &Model) -> (r: bool)
        requires
            model.wf(),
        ensures
            r == locations_known(self.target_views(), model@),
    {
        let ghost views = self.target_views();
        let mut i: usize = 0;
        while i < self.targets.len()
            invariant
                model.wf(),
                views == self.target_views(),
                i <= self.targets@.len(),
                forall|k: int|
                    0 <= k < i && (#[trigger] views[k]).target_type == TargetType::Location ==> model@.has_location(
                        views[k].name,
                    ),
            decreases self.targets@.len() - i,
        {
            let target = &self.targets[i];
            assert(views[i as int] == target@);
            match target.target_type {
                TargetType::Location => {
                    if model.find_location(target.name.as_str()).is_none() {
                        return false;
                    }
                },
                _ => {},
            }
            i += 1;
        }
        true
    }
}

} // verus!
