//! What holds of every model and every event: times once set stay, a chain
//! stands in causal order, and a derivation depends on nothing but the model
//! and the event.

use crate::model_3::chain::{
    lemma_applied_push, lemma_chain_applicable, lemma_chain_head, lemma_chain_more_fuel, lemma_chain_suffix,
    lemma_chain_times, lemma_discovery_keys_distinct,
};
use crate::model_3::game_record::{
    applicable, applied_all, applied_event, applied_events, applied_model, chain_applicable, chain_back,
    add_event_error, chain_limit, derivable, derivation, predecessor, target_known, EventView, GameEvent,
    GameEventType,
};
use crate::model_3::model::{Model, ModelView, NULL_TIME};
use crate::text::lowercase;
use vstd::prelude::*;

verus! {

/// Whether the second model keeps every entity of the first, and every time
/// that is set in the first.
pub open spec fn times_kept(m: ModelView, after: ModelView) -> bool {
    &&& forall|k: Seq<char>| #[trigger]
        m.characters.contains_key(k) ==> {
            &&& after.characters.contains_key(k)
            &&& m.characters[k].mentioned_time != NULL_TIME ==> after.characters[k].mentioned_time
                == m.characters[k].mentioned_time
            &&& m.characters[k].met_time != NULL_TIME ==> after.characters[k].met_time == m.characters[k].met_time
            &&& m.characters[k].met_in_flashback_time != NULL_TIME ==> after.characters[k].met_in_flashback_time
                == m.characters[k].met_in_flashback_time
        }
    &&& forall|k: Seq<char>| #[trigger]
        m.locations.contains_key(k) ==> {
            &&& after.locations.contains_key(k)
            &&& m.locations[k].discovered_time != NULL_TIME ==> after.locations[k].discovered_time
                == m.locations[k].discovered_time
            &&& m.locations[k].dog_treasure_found_time != NULL_TIME ==> after.locations[k].dog_treasure_found_time
                == m.locations[k].dog_treasure_found_time
            &&& m.locations[k].started_time != NULL_TIME ==> after.locations[k].started_time
                == m.locations[k].started_time
            &&& m.locations[k].completed_time != NULL_TIME ==> after.locations[k].completed_time
                == m.locations[k].completed_time
            &&& m.locations[k].flame_lit_time != NULL_TIME ==> after.locations[k].flame_lit_time
                == m.locations[k].flame_lit_time
        }
    &&& forall|k: Seq<char>| #[trigger]
        m.quests.contains_key(k) ==> {
            &&& after.quests.contains_key(k)
            &&& m.quests[k].started_time != NULL_TIME ==> after.quests[k].started_time == m.quests[k].started_time
            &&& m.quests[k].completed_time != NULL_TIME ==> after.quests[k].completed_time
                == m.quests[k].completed_time
        }
}

/// Whether events of this kind set a time of an entity.
pub open spec fn sets_time(typ: GameEventType) -> bool {
    match typ {
        GameEventType::CompleteQuest
        | GameEventType::CompleteShrine
        | GameEventType::DiscoverLocation
        | GameEventType::FindDogTreasure
        | GameEventType::LightFlame
        | GameEventType::MeetCharacter
        | GameEventType::MeetCharacterFlashback
        | GameEventType::MentionCharacter
        | GameEventType::StartQuest
        | GameEventType::StartShrine => true,
        _ => false,
    }
}

/// Whether the model shows the time of the event at the place where events
/// of its kind set it.
pub open spec fn recorded(m: ModelView, e: EventView) -> bool {
    match e.typ {
        GameEventType::CompleteQuest => m.has_quest(e.name) && m.quest(e.name).completed_time == e.time,
        GameEventType::StartQuest => m.has_quest(e.name) && m.quest(e.name).started_time == e.time,
        GameEventType::CompleteShrine => m.has_location(e.name) && m.location(e.name).completed_time == e.time,
        GameEventType::StartShrine => m.has_location(e.name) && m.location(e.name).started_time == e.time,
        GameEventType::DiscoverLocation => m.has_location(e.name) && m.location(e.name).discovered_time == e.time,
        GameEventType::FindDogTreasure => m.has_location(e.name) && m.location(e.name).dog_treasure_found_time
            == e.time,
        GameEventType::LightFlame => m.has_location(e.name) && m.location(e.name).flame_lit_time == e.time,
        GameEventType::MeetCharacter => m.has_character(e.name) && m.character(e.name).met_time == e.time,
        GameEventType::MeetCharacterFlashback => m.has_character(e.name) && m.character(
            e.name,
        ).met_in_flashback_time == e.time,
        GameEventType::MentionCharacter => m.has_character(e.name) && m.character(e.name).mentioned_time == e.time,
        _ => true,
    }
}

/// Applying an event that can be applied changes no time that is set: a
/// time goes from unset to set once and stays.
pub proof fn law_apply_keeps_set_times(m: ModelView, e: EventView)
    requires
        applicable(m, e),
    ensures
        times_kept(m, applied_model(m, e)),
{
}

/// Keeping the set times carries over from one step to the next.
pub proof fn lemma_times_kept_transitive(a: ModelView, b: ModelView, c: ModelView)
    requires
        times_kept(a, b),
        times_kept(b, c),
    ensures
        times_kept(a, c),
{
}

/// Applying a chain that can be applied changes no time that is set.
pub proof fn law_chain_keeps_set_times(m: ModelView, chain: Seq<EventView>)
    requires
        chain_applicable(m, chain),
    ensures
        times_kept(m, applied_all(m, chain)),
    decreases chain.len(),
{
    if chain.len() > 0 {
        let next = applied_model(m, chain[0]);
        law_apply_keeps_set_times(m, chain[0]);
        law_chain_keeps_set_times(next, chain.drop_first());
        lemma_times_kept_transitive(m, next, applied_all(next, chain.drop_first()));
    }
}

/// Once an event has set a time, an event of the same kind about the same
/// entity cannot be applied again: the second discovery of a location
/// fails, and so for every other time.
pub proof fn law_second_record_fails(m: ModelView, e: EventView, again: EventView)
    requires
        applicable(m, e),
        sets_time(e.typ),
        e.time != NULL_TIME,
        again.typ == e.typ,
        lowercase(again.name) == lowercase(e.name),
    ensures
        !applicable(applied_model(m, e), again),
{
}

/// An event that has been applied is recorded in the model.
pub proof fn lemma_recorded_after_apply(m: ModelView, e: EventView)
    requires
        applicable(m, e),
    ensures
        recorded(applied_model(m, e), e),
{
}

/// What is recorded stays recorded when another event of the same time is
/// applied.
pub proof fn lemma_recorded_stays(m: ModelView, e: EventView, next: EventView)
    requires
        recorded(m, e),
        next.time == e.time,
    ensures
        recorded(applied_model(m, next), e),
{
}

/// What is recorded stays recorded when a chain of events of the same time
/// is applied.
pub proof fn lemma_recorded_through_chain(m: ModelView, e: EventView, chain: Seq<EventView>)
    requires
        recorded(m, e),
        forall|i: int| 0 <= i < chain.len() ==> (#[trigger] chain[i]).time == e.time,
    ensures
        recorded(applied_all(m, chain), e),
    decreases chain.len(),
{
    if chain.len() > 0 {
        lemma_recorded_stays(m, e, chain[0]);
        let rest = chain.drop_first();
        assert forall|i: int| 0 <= i < rest.len() implies (#[trigger] rest[i]).time == e.time by {
            assert(rest[i] == chain[i + 1]);
        }
        lemma_recorded_through_chain(applied_model(m, chain[0]), e, rest);
    }
}

/// The first events of a chain that can be applied can be applied, and the
/// next one can be applied to what they leave.
pub proof fn lemma_applicable_prefix(m: ModelView, chain: Seq<EventView>, n: int)
    requires
        chain_applicable(m, chain),
        0 <= n <= chain.len(),
    ensures
        chain_applicable(m, chain.take(n)),
        n < chain.len() ==> applicable(applied_all(m, chain.take(n)), chain[n]),
        applied_all(m, chain) == applied_all(applied_all(m, chain.take(n)), chain.skip(n)),
    decreases chain.len() - n,
{
    if n == chain.len() {
        assert(chain.take(n) =~= chain);
        assert(chain.skip(n) =~= Seq::<EventView>::empty());
    } else {
        lemma_applicable_prefix(m, chain, n + 1);
        assert(chain.take(n + 1) =~= chain.take(n).push(chain[n]));
        lemma_applied_push(m, chain.take(n), chain[n]);
        assert(chain.skip(n).drop_first() =~= chain.skip(n + 1));
        assert(chain.skip(n)[0] == chain[n]);
    }
}

/// The chain that an event brings with it stands in causal order. It ends
/// with the event itself; each event before is what the one after it
/// presupposes; all bear the time of the event; each is recorded in the
/// model before the one after it is applied, and all are recorded when the
/// chain has been applied. The log gains one entry for each, in this order:
/// the event as it was applied to what the events before it had left.
pub proof fn law_causal_order(m: ModelView, e: EventView)
    requires
        m.names_match(),
        derivation(m, e) is Ok,
        applicable(m, e),
    ensures
        ({
            let chain = derivation(m, e)->Ok_0;
            &&& chain.len() >= 1
            &&& chain.last() == e
            &&& chain_applicable(m, chain)
            &&& applied_events(m, chain).len() == chain.len()
            &&& forall|i: int|
                0 <= i < chain.len() ==> (#[trigger] applied_events(m, chain)[i]) == applied_event(
                    applied_all(m, chain.take(i)),
                    chain[i],
                )
            &&& forall|i: int| 0 <= i < chain.len() ==> (#[trigger] chain[i]).time == e.time
            &&& forall|i: int| 0 <= i < chain.len() - 1 ==> predecessor(m, chain[i + 1]) == Some(#[trigger] chain[i])
            &&& forall|i: int|
                0 <= i < chain.len() - 1 ==> recorded(applied_all(m, chain.take(i + 1)), #[trigger] chain[i])
            &&& forall|i: int| 0 <= i < chain.len() ==> recorded(applied_all(m, chain), #[trigger] chain[i])
        }),
{
    let n = chain_limit(m);
    let back = chain_back(m, e, n)->Ok_0;
    let chain = derivation(m, e)->Ok_0;
    let len = chain.len() as int;
    lemma_chain_applicable(m, e, n);
    lemma_applied_events_len(m, chain);
    assert forall|i: int| 0 <= i < len implies (#[trigger] applied_events(m, chain)[i]) == applied_event(
        applied_all(m, chain.take(i)),
        chain[i],
    ) by {
        lemma_applied_events_at(m, chain, i);
    }
    assert forall|i: int| 0 <= i < len implies (#[trigger] chain[i]).time == e.time by {
        lemma_chain_times(m, e, n, len - 1 - i);
    }
    assert forall|i: int| 0 <= i < len - 1 implies predecessor(m, chain[i + 1]) == Some(#[trigger] chain[i]) by {
        let j = len - 2 - i;
        lemma_chain_suffix(m, e, n, j);
        assert(back.skip(j)[1] == back[j + 1]);
        assert(back.skip(j).len() >= 2);
        let p = predecessor(m, back[j])->0;
        lemma_chain_head(m, p, (n - j - 1) as nat);
        assert(chain[i + 1] == back[j]);
        assert(chain[i] == back[j + 1]);
    }
    assert forall|i: int| 0 <= i < len implies recorded(applied_all(m, chain.take(i + 1)), #[trigger] chain[i]) by {
        lemma_applicable_prefix(m, chain, i);
        assert(chain.take(i + 1) =~= chain.take(i).push(chain[i]));
        lemma_applied_push(m, chain.take(i), chain[i]);
        lemma_recorded_after_apply(applied_all(m, chain.take(i)), chain[i]);
    }
    assert forall|i: int| 0 <= i < len implies recorded(applied_all(m, chain), #[trigger] chain[i]) by {
        lemma_applicable_prefix(m, chain, i + 1);
        let rest = chain.skip(i + 1);
        assert forall|k: int| 0 <= k < rest.len() implies (#[trigger] rest[k]).time == chain[i].time by {
            assert(rest[k] == chain[i + 1 + k]);
        }
        lemma_recorded_through_chain(applied_all(m, chain.take(i + 1)), chain[i], rest);
    }
}

/// The entry that the log gains for an event of a chain is the event as it
/// was applied to what the events before it had left.
pub proof fn lemma_applied_events_at(m: ModelView, chain: Seq<EventView>, i: int)
    requires
        0 <= i < chain.len(),
    ensures
        applied_events(m, chain).len() == chain.len(),
        applied_events(m, chain)[i] == applied_event(applied_all(m, chain.take(i)), chain[i]),
    decreases chain.len(),
{
    lemma_applied_events_len(m, chain);
    let next = applied_model(m, chain[0]);
    let rest = chain.drop_first();
    lemma_applied_events_len(next, rest);
    if i == 0 {
        assert(chain.take(0) =~= Seq::<EventView>::empty());
    } else {
        lemma_applied_events_at(next, rest, i - 1);
        assert(chain.take(i).drop_first() =~= rest.take(i - 1));
        assert(chain.take(i)[0] == chain[0]);
        assert(rest[i - 1] == chain[i]);
    }
}

/// The log gains one entry for each event of a chain.
pub proof fn lemma_applied_events_len(m: ModelView, chain: Seq<EventView>)
    ensures
        applied_events(m, chain).len() == chain.len(),
    decreases chain.len(),
{
    if chain.len() > 0 {
        lemma_applied_events_len(applied_model(m, chain[0]), chain.drop_first());
    }
}

/// What an event presupposes, and the whole chain it brings with it, depend
/// on nothing but the state of the model and the event: the same state and
/// the same event give the same chain, whenever they are asked.
pub proof fn law_derivation_is_a_function(a: Model, b: Model, x: GameEvent, y: GameEvent)
    requires
        a@ == b@,
        x@ == y@,
    ensures
        predecessor(a@, x@) == predecessor(b@, y@),
        derivation(a@, x@) == derivation(b@, y@),
{
}

/// A derivation that ends needs no more steps than its chain has events
/// after the first.
pub proof fn lemma_chain_least_fuel(m: ModelView, e: EventView, n: nat)
    requires
        chain_back(m, e, n) is Ok,
    ensures
        chain_back(m, e, n)->Ok_0.len() >= 1,
        chain_back(m, e, (chain_back(m, e, n)->Ok_0.len() - 1) as nat) == chain_back(m, e, n),
    decreases n,
{
    match predecessor(m, e) {
        None => {},
        Some(p) => {
            lemma_chain_least_fuel(m, p, (n - 1) as nat);
        },
    }
}

/// The chain of a discovery has no more events than the model has
/// locations: each event is about a location of the model, and none about
/// the same as another.
pub proof fn lemma_discovery_chain_short(m: ModelView, e: EventView, n: nat)
    requires
        m.locations.dom().finite(),
        e.typ == GameEventType::DiscoverLocation,
        chain_back(m, e, n) is Ok,
    ensures
        chain_back(m, e, n)->Ok_0.len() <= m.locations.dom().len(),
{
    let chain = chain_back(m, e, n)->Ok_0;
    let keys = Seq::new(chain.len(), |i: int| lowercase(chain[i].name));
    assert forall|i: int, j: int| 0 <= i < keys.len() && 0 <= j < keys.len() && i != j implies keys[i]
        != keys[j] by {
        let (low, high) = if i < j {
            (i, j)
        } else {
            (j, i)
        };
        lemma_chain_suffix(m, e, n, low);
        lemma_chain_times(m, e, n, low);
        lemma_discovery_keys_distinct(m, chain[low], (n - low) as nat, high - low);
        assert(chain.skip(low)[high - low] == chain[high]);
    }
    assert(keys.to_set().subset_of(m.locations.dom())) by {
        assert forall|k: Seq<char>| keys.to_set().contains(k) implies m.locations.dom().contains(k) by {
            let i = keys.index_of(k);
            lemma_chain_suffix(m, e, n, i);
            lemma_chain_times(m, e, n, i);
            assert(derivable(m, chain[i]));
        }
    }
    keys.unique_seq_to_set();
    vstd::set_lib::lemma_len_subset(keys.to_set(), m.locations.dom());
}

/// No chain has more events than the model has locations, and four.
pub proof fn lemma_chain_short(m: ModelView, e: EventView, n: nat)
    requires
        m.locations.dom().finite(),
        chain_back(m, e, n) is Ok,
    ensures
        chain_back(m, e, n)->Ok_0.len() <= match e.typ {
            GameEventType::DiscoverLocation => m.locations.dom().len(),
            GameEventType::FindDogTreasure | GameEventType::LightFlame => m.locations.dom().len() + 1,
            GameEventType::CompleteQuest => 2,
            GameEventType::StartShrine => 3,
            GameEventType::CompleteShrine => 4,
            _ => 1,
        },
        chain_back(m, e, n)->Ok_0.len() <= m.locations.dom().len() + 4,
    decreases n,
{
    match e.typ {
        GameEventType::DiscoverLocation => {
            lemma_discovery_chain_short(m, e, n);
        },
        _ => {
            match predecessor(m, e) {
                None => {},
                Some(p) => {
                    lemma_chain_short(m, p, (n - 1) as nat);
                },
            }
        },
    }
}

/// A derivation that ends at all ends within the steps that are followed:
/// it is called endless only where it never ends.
pub proof fn law_endless_means_endless(m: ModelView, e: EventView, n: nat)
    requires
        m.locations.dom().finite(),
        chain_back(m, e, n) is Ok,
    ensures
        chain_back(m, e, chain_limit(m)) == chain_back(m, e, n),
        derivation(m, e) is Ok,
{
    lemma_chain_short(m, e, n);
    lemma_chain_least_fuel(m, e, n);
    let least = (chain_back(m, e, n)->Ok_0.len() - 1) as nat;
    lemma_chain_more_fuel(m, e, least, chain_limit(m));
}

/// Whether the ranks fall from every location to its parent, which the
/// model knows: the hierarchy of the locations then has no cycle.
pub open spec fn hierarchy_ranked(m: ModelView, rank: spec_fn(Seq<char>) -> nat) -> bool {
    forall|k: Seq<char>| #[trigger]
        m.locations.contains_key(k) && m.locations[k].parent_location is Some ==> {
            let parent = lowercase(m.locations[k].parent_location->0@);
            m.locations.contains_key(parent) && rank(parent) < rank(k)
        }
}

/// Whether the model knows the quest of every location that has one.
pub open spec fn shrine_quests_known(m: ModelView) -> bool {
    forall|k: Seq<char>| #[trigger]
        m.locations.contains_key(k) && m.locations[k].quest is Some ==> m.has_quest(m.locations[k].quest->0@)
}

/// The discoveries that one discovery brings with it end after no more
/// steps than the rank of its location.
pub proof fn lemma_ranked_discovery_ends(m: ModelView, e: EventView, rank: spec_fn(Seq<char>) -> nat)
    requires
        m.names_match(),
        hierarchy_ranked(m, rank),
        e.typ == GameEventType::DiscoverLocation,
        m.has_location(e.name),
    ensures
        chain_back(m, e, rank(lowercase(e.name))) is Ok,
        chain_back(m, e, rank(lowercase(e.name)))->Ok_0.len() <= rank(lowercase(e.name)) + 1,
    decreases rank(lowercase(e.name)),
{
    let key = lowercase(e.name);
    assert(m.locations.contains_key(key));
    match predecessor(m, e) {
        None => {},
        Some(p) => {
            let parent = lowercase(m.locations[key].parent_location->0@);
            assert(m.locations.contains_key(parent));
            assert(lowercase(p.name) == parent);
            lemma_ranked_discovery_ends(m, p, rank);
            lemma_chain_more_fuel(m, p, rank(parent), (rank(key) - 1) as nat);
        },
    }
}

/// In a model whose hierarchy of locations has no cycle and which knows the
/// quests of its shrines, the derivation from an event about a known entity
/// always ends: after no more steps than the location stands deep in the
/// hierarchy, and three for a shrine with its quest.
pub proof fn law_derivation_ends(m: ModelView, e: EventView, rank: spec_fn(Seq<char>) -> nat)
    requires
        m.names_match(),
        m.locations.dom().finite(),
        hierarchy_ranked(m, rank),
        shrine_quests_known(m),
        target_known(m, e),
    ensures
        chain_back(m, e, rank(lowercase(e.name)) + 3) is Ok,
        chain_back(m, e, rank(lowercase(e.name)) + 3)->Ok_0.len() <= rank(lowercase(e.name)) + 4,
        derivation(m, e) is Ok,
        derivation(m, e)->Ok_0 == chain_back(m, e, rank(lowercase(e.name)) + 3)->Ok_0.reverse(),
{
    let key = lowercase(e.name);
    let fuel = rank(key) + 3;
    match e.typ {
        GameEventType::DiscoverLocation => {
            lemma_ranked_discovery_ends(m, e, rank);
            lemma_chain_more_fuel(m, e, rank(key), fuel);
        },
        GameEventType::FindDogTreasure | GameEventType::LightFlame => {
            match predecessor(m, e) {
                None => {},
                Some(p) => {
                    lemma_ranked_discovery_ends(m, p, rank);
                    lemma_chain_more_fuel(m, p, rank(key), (fuel - 1) as nat);
                },
            }
        },
        GameEventType::CompleteShrine => {
            lemma_quest_chain_ends(m, e, fuel);
        },
        GameEventType::StartShrine => {
            lemma_quest_chain_ends(m, e, fuel);
        },
        GameEventType::CompleteQuest => {
            lemma_quest_chain_ends(m, e, fuel);
        },
        _ => {},
    }
    law_endless_means_endless(m, e, fuel);
}

/// The chain of a shrine or of a quest ends within three steps where the
/// model knows the quests of its shrines.
pub proof fn lemma_quest_chain_ends(m: ModelView, e: EventView, n: nat)
    requires
        shrine_quests_known(m),
        target_known(m, e),
        n >= match e.typ {
            GameEventType::CompleteShrine => 3nat,
            GameEventType::StartShrine => 2nat,
            GameEventType::CompleteQuest => 1nat,
            _ => 0nat,
        },
        e.typ == GameEventType::CompleteShrine || e.typ == GameEventType::StartShrine || e.typ
            == GameEventType::CompleteQuest || e.typ == GameEventType::StartQuest,
    ensures
        chain_back(m, e, n) is Ok,
        chain_back(m, e, n)->Ok_0.len() <= 4,
    decreases n,
{
    assert(m.locations.contains_key(lowercase(e.name)) || e.typ == GameEventType::CompleteQuest || e.typ
        == GameEventType::StartQuest);
    match predecessor(m, e) {
        None => {},
        Some(p) => {
            lemma_quest_chain_ends(m, p, (n - 1) as nat);
            lemma_quest_chain_len(m, e, n);
        },
    }
}

/// The chain of a shrine's completion has at most four events, that of its
/// start three, that of a quest's completion two.
pub proof fn lemma_quest_chain_len(m: ModelView, e: EventView, n: nat)
    requires
        chain_back(m, e, n) is Ok,
        e.typ == GameEventType::CompleteShrine || e.typ == GameEventType::StartShrine || e.typ
            == GameEventType::CompleteQuest || e.typ == GameEventType::StartQuest,
    ensures
        chain_back(m, e, n)->Ok_0.len() <= match e.typ {
            GameEventType::CompleteShrine => 4nat,
            GameEventType::StartShrine => 3nat,
            GameEventType::CompleteQuest => 2nat,
            _ => 1nat,
        },
    decreases n,
{
    match predecessor(m, e) {
        None => {},
        Some(p) => {
            lemma_quest_chain_len(m, p, (n - 1) as nat);
        },
    }
}

/// The kinds of event have different names, so the name of a kind leads back
/// to the kind: a log that writes the names can be read again.
pub proof fn law_type_tag_round_trip(typ: GameEventType)
    ensures
        GameEventType::named(typ.name()) == Some(typ),
{
    reveal_strlit("AddToCompendium");
    reveal_strlit("BloodMoon");
    reveal_strlit("CharacterDeath");
    reveal_strlit("CompleteQuest");
    reveal_strlit("CompleteShrine");
    reveal_strlit("DiscoverLocation");
    reveal_strlit("FindDogTreasure");
    reveal_strlit("IdentifyItem");
    reveal_strlit("KorokSeed");
    reveal_strlit("LightFlame");
    reveal_strlit("LinkDeath");
    reveal_strlit("MeetCharacter");
    reveal_strlit("MeetCharacterFlashback");
    reveal_strlit("MentionCharacter");
    reveal_strlit("OpenChest");
    reveal_strlit("SetArmorLevel");
    reveal_strlit("SetBowSlots");
    reveal_strlit("SetHearts");
    reveal_strlit("SetItemCount");
    reveal_strlit("SetShieldSlots");
    reveal_strlit("SetStamina");
    reveal_strlit("SetWeaponSlots");
    reveal_strlit("StartQuest");
    reveal_strlit("StartShrine");
    // The lengths tell most names apart.
    assert("AddToCompendium"@.len() == 15);
    assert("BloodMoon"@.len() == 9);
    assert("CharacterDeath"@.len() == 14);
    assert("CompleteQuest"@.len() == 13);
    assert("CompleteShrine"@.len() == 14);
    assert("DiscoverLocation"@.len() == 16);
    assert("FindDogTreasure"@.len() == 15);
    assert("IdentifyItem"@.len() == 12);
    assert("KorokSeed"@.len() == 9);
    assert("LightFlame"@.len() == 10);
    assert("LinkDeath"@.len() == 9);
    assert("MeetCharacter"@.len() == 13);
    assert("MeetCharacterFlashback"@.len() == 22);
    assert("MentionCharacter"@.len() == 16);
    assert("OpenChest"@.len() == 9);
    assert("SetArmorLevel"@.len() == 13);
    assert("SetBowSlots"@.len() == 11);
    assert("SetHearts"@.len() == 9);
    assert("SetItemCount"@.len() == 12);
    assert("SetShieldSlots"@.len() == 14);
    assert("SetStamina"@.len() == 10);
    assert("SetWeaponSlots"@.len() == 14);
    assert("StartQuest"@.len() == 10);
    assert("StartShrine"@.len() == 11);
    // Names of one length differ in a letter.
    assert("CompleteShrine"@[1] != "CharacterDeath"@[1]);
    assert("FindDogTreasure"@[0] != "AddToCompendium"@[0]);
    assert("KorokSeed"@[0] != "BloodMoon"@[0]);
    assert("LinkDeath"@[0] != "BloodMoon"@[0]);
    assert("LinkDeath"@[0] != "KorokSeed"@[0]);
    assert("MeetCharacter"@[0] != "CompleteQuest"@[0]);
    assert("MentionCharacter"@[0] != "DiscoverLocation"@[0]);
    assert("OpenChest"@[0] != "BloodMoon"@[0]);
    assert("OpenChest"@[0] != "KorokSeed"@[0]);
    assert("OpenChest"@[0] != "LinkDeath"@[0]);
    assert("SetArmorLevel"@[0] != "CompleteQuest"@[0]);
    assert("SetArmorLevel"@[0] != "MeetCharacter"@[0]);
    assert("SetHearts"@[0] != "BloodMoon"@[0]);
    assert("SetHearts"@[0] != "KorokSeed"@[0]);
    assert("SetHearts"@[0] != "LinkDeath"@[0]);
    assert("SetHearts"@[0] != "OpenChest"@[0]);
    assert("SetItemCount"@[0] != "IdentifyItem"@[0]);
    assert("SetShieldSlots"@[0] != "CharacterDeath"@[0]);
    assert("SetShieldSlots"@[0] != "CompleteShrine"@[0]);
    assert("SetStamina"@[0] != "LightFlame"@[0]);
    assert("SetWeaponSlots"@[0] != "CharacterDeath"@[0]);
    assert("SetWeaponSlots"@[0] != "CompleteShrine"@[0]);
    assert("SetWeaponSlots"@[3] != "SetShieldSlots"@[3]);
    assert("StartQuest"@[0] != "LightFlame"@[0]);
    assert("StartQuest"@[1] != "SetStamina"@[1]);
    assert("StartShrine"@[1] != "SetBowSlots"@[1]);
}

/// An event that is restored from what a log shows of it, field by field, is
/// the event that was logged.
pub proof fn law_record_round_trip(e: EventView, tag: Seq<char>)
    requires
        tag == e.typ.name(),
    ensures
        GameEventType::named(tag) is Some,
        (EventView {
            time: e.time,
            typ: GameEventType::named(tag)->0,
            name: e.name,
            number: e.number,
            previous_number: e.previous_number,
        }) == e,
{
    law_type_tag_round_trip(e.typ);
}

/// In a well-formed model whose hierarchy of locations has no cycle and
/// which knows the quests of its shrines, every event that can be applied
/// can be added: its derivation ends, and the chain it brings can be
/// applied in causal order.
pub proof fn law_applicable_events_can_be_added(model: Model, e: GameEvent, rank: spec_fn(Seq<char>) -> nat)
    requires
        model.wf(),
        hierarchy_ranked(model@, rank),
        shrine_quests_known(model@),
        applicable(model@, e@),
    ensures
        add_event_error(model@, e@) is None,
        chain_applicable(model@, derivation(model@, e@)->Ok_0),
{
    model.lemma_view_of_wf();
    law_derivation_ends(model@, e@, rank);
    lemma_chain_applicable(model@, e@, chain_limit(model@));
}

} // verus!
