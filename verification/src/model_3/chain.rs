//! Why a derived chain can always be applied: the facts about derivation
//! chains that the log relies on, and the laws that follow from them.

use crate::model_3::game_record::{
    all_displayable, applicable, applied_all, applied_event, applied_events, applied_model, chain_applicable, chain_back, 
    derivable, derivation, derived, predecessor, EventError, EventView, GameEventType,
};
use crate::model_3::model::{Location, ModelView};
use crate::text::lowercase;
use vstd::prelude::*;

verus! {

/// Applying a chain and then one more event is applying the longer chain.
pub proof fn lemma_applied_push(m: ModelView, chain: Seq<EventView>, e: EventView)
    ensures
        applied_all(m, chain.push(e)) == applied_model(applied_all(m, chain), e),
        chain_applicable(m, chain.push(e)) == (chain_applicable(m, chain) && applicable(applied_all(m, chain), e)),
        applied_events(m, chain.push(e)) == applied_events(m, chain).push(applied_event(applied_all(m, chain), e)),
    decreases chain.len(),
{
    if chain.len() == 0 {
        let next = applied_model(m, e);
        let none = Seq::<EventView>::empty();
        assert(chain.push(e).drop_first() =~= none);
        assert(chain.push(e)[0] == e);
        assert(applied_all(next, none) == next);
        assert(chain_applicable(next, none));
        assert(applied_events(next, none) =~= none);
        assert(seq![applied_event(m, e)] + none =~= applied_events(m, chain).push(applied_event(m, e)));
    } else {
        let next = applied_model(m, chain[0]);
        assert(chain.push(e).drop_first() =~= chain.drop_first().push(e));
        assert(chain.push(e)[0] == chain[0]);
        lemma_applied_push(next, chain.drop_first(), e);
        assert(applied_events(m, chain.push(e)) =~= applied_events(m, chain).push(
            applied_event(applied_all(m, chain), e),
        ));
    }
}

/// The reverse of a chain that starts with `e` ends with `e`.
pub proof fn lemma_reverse_front(e: EventView, rest: Seq<EventView>)
    ensures
        (seq![e] + rest).reverse() == rest.reverse().push(e),
{
    assert((seq![e] + rest).reverse() =~= rest.reverse().push(e));
}

/// A chain of one event can be applied where the event can, and applying it
/// is applying the event.
pub proof fn lemma_single(m: ModelView, e: EventView)
    ensures
        seq![e].reverse() == seq![e],
        chain_applicable(m, seq![e]) == applicable(m, e),
        applied_all(m, seq![e]) == applied_model(m, e),
        applied_events(m, seq![e]) == seq![applied_event(m, e)],
{
    let none = Seq::<EventView>::empty();
    lemma_applied_push(m, none, e);
    assert(none.push(e) =~= seq![e]);
    assert(seq![e].reverse() =~= seq![e]);
    assert(applied_events(m, none).push(applied_event(m, e)) =~= seq![applied_event(m, e)]);
}

/// Where the chain below an event can be applied and leaves a model to which
/// the event can be applied, the chain with the event can be applied.
pub proof fn lemma_step(m: ModelView, e: EventView, rest: Seq<EventView>)
    requires
        chain_applicable(m, rest.reverse()),
        applicable(applied_all(m, rest.reverse()), e),
    ensures
        chain_applicable(m, (seq![e] + rest).reverse()),
        applied_all(m, (seq![e] + rest).reverse()) == applied_model(applied_all(m, rest.reverse()), e),
{
    lemma_reverse_front(e, rest);
    lemma_applied_push(m, rest.reverse(), e);
}

/// The chain of a quest's completion can be applied, and leaves the
/// locations as they are.
pub proof fn lemma_complete_quest(m: ModelView, e: EventView, n: nat)
    requires
        e.typ == GameEventType::CompleteQuest,
        chain_back(m, e, n) is Ok,
        applicable(m, e),
    ensures
        chain_applicable(m, chain_back(m, e, n)->Ok_0.reverse()),
        applied_all(m, chain_back(m, e, n)->Ok_0.reverse()).locations == m.locations,
{
    match predecessor(m, e) {
        None => {
            lemma_single(m, e);
        },
        Some(p) => {
            assert(chain_back(m, p, (n - 1) as nat) == Ok::<Seq<EventView>, EventError>(seq![p]));
            lemma_single(m, p);
            lemma_step(m, e, seq![p]);
        },
    }
}

/// The chain of a shrine's start can be applied, and changes no location but
/// the shrine, of which it sets the time of the start.
pub proof fn lemma_start_shrine(m: ModelView, e: EventView, n: nat)
    requires
        e.typ == GameEventType::StartShrine,
        chain_back(m, e, n) is Ok,
        applicable(m, e),
    ensures
        chain_applicable(m, chain_back(m, e, n)->Ok_0.reverse()),
        applied_all(m, chain_back(m, e, n)->Ok_0.reverse()).locations == m.locations.insert(
            lowercase(e.name),
            Location { started_time: e.time, ..m.locations[lowercase(e.name)] },
        ),
{
    match predecessor(m, e) {
        None => {
            lemma_single(m, e);
        },
        Some(p) => {
            let rest = chain_back(m, p, (n - 1) as nat)->Ok_0;
            lemma_complete_quest(m, p, (n - 1) as nat);
            lemma_step(m, e, rest);
        },
    }
}

/// The chain of a shrine's completion can be applied.
pub proof fn lemma_complete_shrine(m: ModelView, e: EventView, n: nat)
    requires
        e.typ == GameEventType::CompleteShrine,
        chain_back(m, e, n) is Ok,
        applicable(m, e),
    ensures
        chain_applicable(m, chain_back(m, e, n)->Ok_0.reverse()),
{
    match predecessor(m, e) {
        None => {
            lemma_single(m, e);
        },
        Some(p) => {
            let rest = chain_back(m, p, (n - 1) as nat)->Ok_0;
            lemma_start_shrine(m, p, (n - 1) as nat);
            lemma_step(m, e, rest);
        },
    }
}

/// A chain begins with the event it was derived from.
pub proof fn lemma_chain_head(m: ModelView, e: EventView, n: nat)
    requires
        chain_back(m, e, n) is Ok,
    ensures
        chain_back(m, e, n)->Ok_0.len() >= 1,
        chain_back(m, e, n)->Ok_0[0] == e,
{
}

/// From any place of a chain on, the chain is the chain of the event at that
/// place, followed with the steps that are left.
pub proof fn lemma_chain_suffix(m: ModelView, e: EventView, n: nat, j: int)
    requires
        chain_back(m, e, n) is Ok,
        0 <= j < chain_back(m, e, n)->Ok_0.len(),
    ensures
        j <= n,
        chain_back(m, chain_back(m, e, n)->Ok_0[j], (n - j) as nat) == Ok::<Seq<EventView>, EventError>(
            chain_back(m, e, n)->Ok_0.skip(j),
        ),
    decreases j,
{
    let chain = chain_back(m, e, n)->Ok_0;
    if j == 0 {
        assert(chain.skip(0) =~= chain);
    } else {
        let p = predecessor(m, e)->0;
        let rest = chain_back(m, p, (n - 1) as nat)->Ok_0;
        lemma_chain_suffix(m, p, (n - 1) as nat, j - 1);
        assert(chain.skip(j) =~= rest.skip(j - 1));
    }
}

/// A derivation that ends gives the same chain however many more steps it
/// is allowed.
pub proof fn lemma_chain_fuel(m: ModelView, e: EventView, a: nat, b: nat)
    requires
        chain_back(m, e, a) is Ok,
        chain_back(m, e, b) is Ok,
    ensures
        chain_back(m, e, a) == chain_back(m, e, b),
    decreases a,
{
    match predecessor(m, e) {
        None => {},
        Some(p) => {
            lemma_chain_fuel(m, p, (a - 1) as nat, (b - 1) as nat);
        },
    }
}

/// A derivation that ends within some steps ends within more steps too.
pub proof fn lemma_chain_more_fuel(m: ModelView, e: EventView, a: nat, b: nat)
    requires
        chain_back(m, e, a) is Ok,
        a <= b,
    ensures
        chain_back(m, e, b) == chain_back(m, e, a),
    decreases a,
{
    match predecessor(m, e) {
        None => {},
        Some(p) => {
            lemma_chain_more_fuel(m, p, (a - 1) as nat, (b - 1) as nat);
        },
    }
}

/// Every event of a chain was derived for the time of the event that the
/// chain was derived from, and below a discovery stand discoveries only.
pub proof fn lemma_chain_times(m: ModelView, e: EventView, n: nat, j: int)
    requires
        chain_back(m, e, n) is Ok,
        0 <= j < chain_back(m, e, n)->Ok_0.len(),
    ensures
        chain_back(m, e, n)->Ok_0[j].time == e.time,
        e.typ == GameEventType::DiscoverLocation ==> chain_back(m, e, n)->Ok_0[j].typ
            == GameEventType::DiscoverLocation,
    decreases j,
{
    if j > 0 {
        let p = predecessor(m, e)->0;
        lemma_chain_times(m, p, (n - 1) as nat, j - 1);
    }
}

/// In the chain of a discovery no location comes twice: were the location
/// of the first event met again further down, the derivation would go round
/// and never end.
pub proof fn lemma_discovery_keys_distinct(m: ModelView, e: EventView, n: nat, j: int)
    requires
        e.typ == GameEventType::DiscoverLocation,
        chain_back(m, e, n) is Ok,
        1 <= j < chain_back(m, e, n)->Ok_0.len(),
    ensures
        lowercase(chain_back(m, e, n)->Ok_0[j].name) != lowercase(e.name),
{
    let chain = chain_back(m, e, n)->Ok_0;
    let again = chain[j];
    if lowercase(again.name) == lowercase(e.name) {
        lemma_chain_suffix(m, e, n, j);
        lemma_chain_times(m, e, n, j);
        let left = (n - j) as nat;
        // The two events consult the same location, so what follows them is
        // the same.
        assert(derivable(m, again));
        assert(derivable(m, e));
        assert(predecessor(m, again) == predecessor(m, e));
        assert(chain_back(m, again, left) is Ok);
        assert(chain_back(m, e, left) is Ok);
        assert(chain_back(m, e, left)->Ok_0.len() == chain_back(m, again, left)->Ok_0.len());
        lemma_chain_fuel(m, e, left, n);
        assert(chain.skip(j).len() == chain.len() - j);
        assert(false);
    }
}

/// Whether a chain holds an event about the location filed under `key`.
pub open spec fn chain_names(chain: Seq<EventView>, key: Seq<char>) -> bool {
    exists|i: int| 0 <= i < chain.len() && lowercase(#[trigger] chain[i].name) == key
}

/// The second model is the first with the locations that the chain names
/// discovered at the given time, and nothing else changed.
pub open spec fn discovered_since(m: ModelView, after: ModelView, chain: Seq<EventView>, time: usize) -> bool {
    &&& after == (ModelView { locations: after.locations, ..m })
    &&& after.locations.dom() == m.locations.dom()
    &&& forall|k: Seq<char>| #[trigger]
        m.locations.contains_key(k) ==> after.locations[k] == (if chain_names(chain, k) {
            Location { discovered_time: time, ..m.locations[k] }
        } else {
            m.locations[k]
        })
}

/// The chain of a discovery can be applied, and marks the locations it names
/// as discovered at the time of the event, and nothing else.
pub proof fn lemma_discover(m: ModelView, e: EventView, n: nat)
    requires
        m.names_match(),
        e.typ == GameEventType::DiscoverLocation,
        chain_back(m, e, n) is Ok,
        applicable(m, e),
    ensures
        chain_applicable(m, chain_back(m, e, n)->Ok_0.reverse()),
        discovered_since(m, applied_all(m, chain_back(m, e, n)->Ok_0.reverse()), chain_back(m, e, n)->Ok_0, e.time),
    decreases n,
{
    let chain = chain_back(m, e, n)->Ok_0;
    let key = lowercase(e.name);
    match predecessor(m, e) {
        None => {
            lemma_single(m, e);
            let after = applied_model(m, e);
            assert(chain[0] == e);
            assert(after.locations.dom() =~= m.locations.dom());
            assert forall|k: Seq<char>| #[trigger] m.locations.contains_key(k) implies after.locations[k] == (
            if chain_names(chain, k) {
                Location { discovered_time: e.time, ..m.locations[k] }
            } else {
                m.locations[k]
            }) by {
                if k == key {
                    assert(lowercase(chain[0].name) == k);
                }
            }
        },
        Some(p) => {
            let rest = chain_back(m, p, (n - 1) as nat)->Ok_0;
            let parent_key = lowercase(m.location(e.name).parent_location->0@);
            assert(m.locations.contains_key(parent_key));
            assert(lowercase(p.name) == parent_key);
            lemma_discover(m, p, (n - 1) as nat);
            let below = applied_all(m, rest.reverse());
            assert(!chain_names(rest, key)) by {
                if chain_names(rest, key) {
                    let i = choose|i: int| 0 <= i < rest.len() && lowercase(#[trigger] rest[i].name) == key;
                    assert(chain[i + 1] == rest[i]);
                    lemma_discovery_keys_distinct(m, e, n, i + 1);
                }
            }
            assert(m.locations.contains_key(key));
            assert(below.locations[key] == m.locations[key]);
            lemma_step(m, e, rest);
            let after = applied_model(below, e);
            assert(after.locations.dom() =~= m.locations.dom());
            assert forall|k: Seq<char>| #[trigger] m.locations.contains_key(k) implies after.locations[k] == (
            if chain_names(chain, k) {
                Location { discovered_time: e.time, ..m.locations[k] }
            } else {
                m.locations[k]
            }) by {
                if k == key {
                    assert(lowercase(chain[0].name) == k);
                } else if chain_names(rest, k) {
                    let i = choose|i: int| 0 <= i < rest.len() && lowercase(#[trigger] rest[i].name) == k;
                    assert(chain[i + 1] == rest[i]);
                } else if chain_names(chain, k) {
                    let i = choose|i: int| 0 <= i < chain.len() && lowercase(#[trigger] chain[i].name) == k;
                    assert(i > 0);
                    assert(rest[i - 1] == chain[i]);
                }
            }
        },
    }
}

/// The chain of a find or of a flame can be applied.
pub proof fn lemma_find_or_light(m: ModelView, e: EventView, n: nat)
    requires
        m.names_match(),
        e.typ == GameEventType::FindDogTreasure || e.typ == GameEventType::LightFlame,
        chain_back(m, e, n) is Ok,
        applicable(m, e),
    ensures
        chain_applicable(m, chain_back(m, e, n)->Ok_0.reverse()),
{
    match predecessor(m, e) {
        None => {
            lemma_single(m, e);
        },
        Some(p) => {
            let rest = chain_back(m, p, (n - 1) as nat)->Ok_0;
            lemma_discover(m, p, (n - 1) as nat);
            assert(m.locations.contains_key(lowercase(e.name)));
            lemma_step(m, e, rest);
        },
    }
}

/// Whatever an event presupposes, its chain can be applied in causal order
/// if the event itself can be applied to the model as it stands.
pub proof fn lemma_chain_applicable(m: ModelView, e: EventView, n: nat)
    requires
        m.names_match(),
        chain_back(m, e, n) is Ok,
        applicable(m, e),
    ensures
        chain_applicable(m, chain_back(m, e, n)->Ok_0.reverse()),
{
    match e.typ {
        GameEventType::CompleteQuest => lemma_complete_quest(m, e, n),
        GameEventType::CompleteShrine => lemma_complete_shrine(m, e, n),
        GameEventType::StartShrine => lemma_start_shrine(m, e, n),
        GameEventType::DiscoverLocation => lemma_discover(m, e, n),
        GameEventType::FindDogTreasure | GameEventType::LightFlame => lemma_find_or_light(m, e, n),
        _ => lemma_single(m, e),
    }
}

/// The events of a chain that can be applied hold, once applied, the numbers
/// that their wording needs.
pub proof fn lemma_applied_events_displayable(m: ModelView, chain: Seq<EventView>)
    requires
        chain_applicable(m, chain),
    ensures
        all_displayable(applied_events(m, chain)),
    decreases chain.len(),
{
    if chain.len() > 0 {
        lemma_applied_events_displayable(applied_model(m, chain[0]), chain.drop_first());
        let rest = applied_events(applied_model(m, chain[0]), chain.drop_first());
        let all = applied_events(m, chain);
        assert forall|i: int| 0 <= i < all.len() implies (#[trigger] all[i]).displayable() by {
            if i > 0 {
                assert(all[i] == rest[i - 1]);
            }
        }
    }
}

} // verus!
