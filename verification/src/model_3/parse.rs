//! Reading the reference model from the lines of its text files: characters
//! by race, locations by region and area, quests by kind.

use crate::model_3::model::{
    AddError, Character, Location, LocationType, Model, ModelView, Quest, QuestType, Race, NULL_TIME,
};
use crate::name_map::{reversed, NameMap};
use crate::text::{
    is_trimmed,
    lowercase, replace_text, replaced, same_text, split_text, splits, str_contains, str_ends_with, str_starts_with,
    text_contains, texts, trim, trimmed,
};
use vstd::prelude::*;
use vstd::string::*;

verus! {

pub const PREFIX_HEADER: &'static str = "#";

pub const PREFIX_SUBHEADER: &'static str = ">";

pub const PREFIX_COMMENT: &'static str = "//";

pub const SUFFIX_TOWN: &'static str = " (town)";

pub const SUFFIX_SHRINE: &'static str = " Shrine";

pub const SUFFIX_STABLE: &'static str = " Stable";

pub const SUFFIX_TOWER: &'static str = " Tower";

pub const SUFFIX_TECH_LAB: &'static str = " Tech Lab";

/// What is wrong with a line.
#[derive(Clone, Copy, Debug, PartialEq, Eq, Structural)]
pub enum LoadErrorKind {
    /// An area stands before any region.
    NoRegion,
    /// A place stands before any area.
    NoArea,
    /// A header names no race.
    UnknownRace,
    /// A character stands before any race.
    NoRace,
    /// A quest stands before any kind of quest.
    NoQuestType,
    /// A header names no kind of quest.
    UnknownQuestType,
    /// The key of an entity has white space at an end.
    NotTrimmed,
    /// An entity of the kind is filed under the key already.
    AlreadyPresent,
    /// The model knows no location of the name.
    UnknownLocation,
    /// The model knows no shrine of the name.
    UnknownShrine,
    /// A location names itself as its child.
    OwnChild,
}

/// An error with the place of the line it was found in.
#[derive(Clone, Copy, Debug, PartialEq, Eq, Structural)]
pub struct LoadError {
    pub line: usize,
    pub kind: LoadErrorKind,
}

/// Whether a trimmed line is kept: it is not empty and no comment.
pub open spec fn line_kept(line: Seq<char>) -> bool {
    line.len() > 0 && !PREFIX_COMMENT@.is_prefix_of(line)
}

/// The first `n` raw lines, each trimmed, without the empty ones and the
/// comments.
pub open spec fn cleaned(raw: Seq<Seq<char>>, n: nat) -> Seq<Seq<char>>
    decreases n,
{
    if n == 0 {
        Seq::empty()
    } else if line_kept(trimmed(raw[n - 1])) {
        cleaned(raw, (n - 1) as nat).push(trimmed(raw[n - 1]))
    } else {
        cleaned(raw, (n - 1) as nat)
    }
}

/// The lines of a file as the loaders take them: each trimmed, and the
/// empty ones and the comments left out.
pub fn clean_lines(raw: &Vec<String>) -> (r: Vec<String>)
    ensures
        texts(r@) == cleaned(texts(raw@), raw@.len() as nat),
{
    let mut lines: Vec<String> = Vec::new();
    let mut i: usize = 0;
    assert(texts(lines@) =~= cleaned(texts(raw@), 0));
    while i < raw.len()
        invariant
            i <= raw@.len(),
            texts(lines@) == cleaned(texts(raw@), i as nat),
        decreases raw@.len() - i,
    {
        let ghost before = texts(lines@);
        let line = trim(raw[i].as_str());
        assert(texts(raw@)[i as int] == raw@[i as int]@);
        if line.as_str().unicode_len() > 0 && !str_starts_with(line.as_str(), PREFIX_COMMENT) {
            lines.push(line);
            assert(texts(lines@) =~= before.push(trimmed(raw@[i as int]@)));
        } else {
            assert(texts(lines@) =~= before);
        }
        i += 1;
    }
    lines
}

/// Whether a line of the locations is the header of a region.
pub open spec fn is_region_line(line: Seq<char>) -> bool {
    PREFIX_HEADER@.is_prefix_of(line)
}

/// Whether a line of the locations is the header of an area.
pub open spec fn is_area_line(line: Seq<char>) -> bool {
    !is_region_line(line) && PREFIX_SUBHEADER@.is_prefix_of(line)
}

/// The name of the location that a line stands for: the line without the
/// marks of a header and without the note that it is a town.
pub open spec fn location_line_name(line: Seq<char>) -> Seq<char> {
    if is_region_line(line) {
        replaced(line, PREFIX_HEADER@, ""@)
    } else if is_area_line(line) {
        if SUFFIX_TOWN@.is_suffix_of(line) {
            replaced(replaced(line, SUFFIX_TOWN@, ""@), PREFIX_SUBHEADER@, ""@)
        } else {
            replaced(line, PREFIX_SUBHEADER@, ""@)
        }
    } else if SUFFIX_TOWN@.is_suffix_of(line) {
        replaced(line, SUFFIX_TOWN@, ""@)
    } else {
        line
    }
}

/// The type of the location that a line stands for: a region or an area by
/// its mark, else by how the line ends.
pub open spec fn location_line_type(line: Seq<char>) -> LocationType {
    if is_region_line(line) {
        LocationType::Region
    } else if is_area_line(line) {
        if SUFFIX_TOWN@.is_suffix_of(line) {
            LocationType::Town
        } else {
            LocationType::Area
        }
    } else if SUFFIX_TOWN@.is_suffix_of(line) {
        LocationType::Town
    } else if SUFFIX_SHRINE@.is_suffix_of(line) {
        LocationType::Shrine
    } else if SUFFIX_TOWER@.is_suffix_of(line) {
        LocationType::Tower
    } else if SUFFIX_TECH_LAB@.is_suffix_of(line) {
        LocationType::TechLab
    } else if SUFFIX_STABLE@.is_suffix_of(line) {
        LocationType::Stable
    } else {
        LocationType::Normal
    }
}

/// The name of the last region among the first `n` lines.
pub open spec fn region_before(lines: Seq<Seq<char>>, n: nat) -> Option<Seq<char>>
    decreases n,
{
    if n == 0 {
        None
    } else if is_region_line(lines[n - 1]) {
        Some(location_line_name(lines[n - 1]))
    } else {
        region_before(lines, (n - 1) as nat)
    }
}

/// The name of the last area among the first `n` lines.
pub open spec fn area_before(lines: Seq<Seq<char>>, n: nat) -> Option<Seq<char>>
    decreases n,
{
    if n == 0 {
        None
    } else if is_area_line(lines[n - 1]) {
        Some(location_line_name(lines[n - 1]))
    } else {
        area_before(lines, (n - 1) as nat)
    }
}

/// The parent of the location at line `i`: none for a region, the last
/// region for an area, the last area for a place.
pub open spec fn location_line_parent(lines: Seq<Seq<char>>, i: int) -> Option<Seq<char>> {
    if is_region_line(lines[i]) {
        None
    } else if is_area_line(lines[i]) {
        region_before(lines, i as nat)
    } else {
        area_before(lines, i as nat)
    }
}

/// What is wrong with line `i` of the locations, if anything is: an area
/// needs a region before it, a place an area.
pub open spec fn location_line_error(lines: Seq<Seq<char>>, i: int) -> Option<LoadErrorKind> {
    if is_region_line(lines[i]) {
        None
    } else if is_area_line(lines[i]) {
        if region_before(lines, i as nat) is None {
            Some(LoadErrorKind::NoRegion)
        } else {
            None
        }
    } else if area_before(lines, i as nat) is None {
        Some(LoadErrorKind::NoArea)
    } else {
        None
    }
}

/// The view of a name that may be missing.
pub open spec fn optional_text(name: Option<String>) -> Option<Seq<char>> {
    match name {
        Some(text) => Some(text@),
        None => None,
    }
}

/// Whether a location is new, of the given name, type and parent.
pub open spec fn is_new_location(l: Location, name: Seq<char>, typ: LocationType, parent: Option<Seq<char>>) -> bool {
    &&& l.name@ == name
    &&& l.typ == typ
    &&& optional_text(l.parent_location) == parent
    &&& l.dog_treasure is None
    &&& l.challenge is None
    &&& l.quest is None
    &&& l.discovered_time == NULL_TIME
    &&& l.dog_treasure_found_time == NULL_TIME
    &&& l.started_time == NULL_TIME
    &&& l.completed_time == NULL_TIME
    &&& l.flame_lit_time == NULL_TIME
    &&& l.child_locations@.len() == 0
}

/// A copy of a name that may be missing.
fn clone_optional(name: &Option<String>) -> (r: Option<String>)
    ensures
        optional_text(r) == optional_text(*name),
{
    match name {
        Some(text) => Some(text.clone()),
        None => None,
    }
}

/// The locations that the lines stand for, one for each line and in their
/// order: a region for each header, an area or town for each subheader
/// below its region, a place of the type its name shows below its area. The
/// first line that lacks its region or area is reported.
pub fn parse_locations(lines: &Vec<String>) -> (r: Result<Vec<Location>, LoadError>)
    ensures
        match r {
            Ok(locations) => {
                &&& locations@.len() == lines@.len()
                &&& forall|i: int| 0 <= i < lines@.len() ==> location_line_error(texts(lines@), i) is None
                &&& forall|i: int|
                    0 <= i < lines@.len() ==> is_new_location(
                        #[trigger] locations@[i],
                        location_line_name(lines@[i]@),
                        location_line_type(lines@[i]@),
                        location_line_parent(texts(lines@), i),
                    )
            },
            Err(error) => {
                &&& error.line < lines@.len()
                &&& location_line_error(texts(lines@), error.line as int) == Some(error.kind)
                &&& forall|i: int| 0 <= i < error.line ==> location_line_error(texts(lines@), i) is None
            },
        },
{
    let ghost all = texts(lines@);
    let mut locations: Vec<Location> = Vec::new();
    let mut region_name: Option<String> = None;
    let mut area_name: Option<String> = None;
    let mut i: usize = 0;
    while i < lines.len()
        invariant
            all == texts(lines@),
            i <= lines@.len(),
            locations@.len() == i,
            optional_text(region_name) == region_before(all, i as nat),
            optional_text(area_name) == area_before(all, i as nat),
            forall|k: int| 0 <= k < i ==> location_line_error(all, k) is None,
            forall|k: int|
                0 <= k < i ==> is_new_location(
                    #[trigger] locations@[k],
                    location_line_name(lines@[k]@),
                    location_line_type(lines@[k]@),
                    location_line_parent(all, k),
                ),
        decreases lines@.len() - i,
    {
        let line = lines[i].as_str();
        assert(all[i as int] == line@);
        let ghost before = locations@;
        if str_starts_with(line, PREFIX_HEADER) {
            let name = replace_text(line, PREFIX_HEADER, "");
            locations.push(Location::new(name.as_str(), LocationType::Region, None));
            region_name = Some(name);
        } else if str_starts_with(line, PREFIX_SUBHEADER) {
            let (name, location_type) = if str_ends_with(line, SUFFIX_TOWN) {
                (replace_text(line, SUFFIX_TOWN, ""), LocationType::Town)
            } else {
                (line.to_string(), LocationType::Area)
            };
            if region_name.is_none() {
                return Err(LoadError { line: i, kind: LoadErrorKind::NoRegion });
            }
            let name = replace_text(name.as_str(), PREFIX_SUBHEADER, "");
            locations.push(Location::new(name.as_str(), location_type, clone_optional(&region_name)));
            area_name = Some(name);
        } else {
            let (name, location_type) = if str_ends_with(line, SUFFIX_TOWN) {
                (replace_text(line, SUFFIX_TOWN, ""), LocationType::Town)
            } else if str_ends_with(line, SUFFIX_SHRINE) {
                (line.to_string(), LocationType::Shrine)
            } else if str_ends_with(line, SUFFIX_TOWER) {
                (line.to_string(), LocationType::Tower)
            } else if str_ends_with(line, SUFFIX_TECH_LAB) {
                (line.to_string(), LocationType::TechLab)
            } else if str_ends_with(line, SUFFIX_STABLE) {
                (line.to_string(), LocationType::Stable)
            } else {
                (line.to_string(), LocationType::Normal)
            };
            if area_name.is_none() {
                return Err(LoadError { line: i, kind: LoadErrorKind::NoArea });
            }
            locations.push(Location::new(name.as_str(), location_type, clone_optional(&area_name)));
        }
        proof {
            assert(is_new_location(
                locations@[i as int],
                location_line_name(line@),
                location_line_type(line@),
                location_line_parent(all, i as int),
            ));
            assert(location_line_error(all, i as int) is None);
            assert forall|k: int| 0 <= k < i implies #[trigger] locations@[k] == before[k] by {}
        }
        i += 1;
    }
    Ok(locations)
}

/// The model with the first `n` characters of the list filed, each under the
/// lower-case form of its name.
pub open spec fn with_characters(m: ModelView, items: Seq<Character>, n: nat) -> ModelView
    decreases n,
{
    if n == 0 {
        m
    } else {
        let before = with_characters(m, items, (n - 1) as nat);
        ModelView { characters: before.characters.insert(lowercase(items[n - 1].name@), items[n - 1]), ..before }
    }
}

/// What stands against filing the character at place `i` after those before it.
pub open spec fn character_add_error(m: ModelView, items: Seq<Character>, i: int) -> Option<LoadErrorKind> {
    if !is_trimmed(lowercase(items[i].name@)) {
        Some(LoadErrorKind::NotTrimmed)
    } else if with_characters(m, items, i as nat).has_character(items[i].name@) {
        Some(LoadErrorKind::AlreadyPresent)
    } else {
        None
    }
}

/// Files the characters in the model, in their order, as far as each has a
/// trimmed key that is not taken; the first that has not is reported, and
/// those before it stay filed.
pub fn add_characters(model: &mut Model, items: Vec<Character>) -> (r: Result<(), LoadError>)
    requires
        old(model).wf(),
    ensures
        final(model).wf(),
        match r {
            Ok(()) => {
                &&& forall|i: int| 0 <= i < items@.len() ==> character_add_error(old(model)@, items@, i) is None
                &&& final(model)@ == with_characters(old(model)@, items@, items@.len() as nat)
            },
            Err(error) => {
                &&& error.line < items@.len()
                &&& character_add_error(old(model)@, items@, error.line as int) == Some(error.kind)
                &&& forall|i: int| 0 <= i < error.line ==> character_add_error(old(model)@, items@, i) is None
                &&& final(model)@ == with_characters(old(model)@, items@, error.line as nat)
            },
        },
{
    let ghost m0 = model@;
    let ghost all = items@;
    let count = items.len();
    let mut rest = reversed(items);
    let mut i: usize = 0;
    while i < count
        invariant
            model.wf(),
            m0 == old(model)@,
            all == items@,
            count == all.len(),
            i <= count,
            rest@.len() == count - i,
            forall|k: int| 0 <= k < rest@.len() ==> rest@[k] == all[count - 1 - k],
            model@ == with_characters(m0, all, i as nat),
            forall|k: int| 0 <= k < i ==> character_add_error(m0, all, k) is None,
        decreases count - i,
    {
        let item = rest.pop().unwrap();
        assert(item == all[i as int]);
        match model.try_add_character(item) {
            Ok(()) => {},
            Err(AddError::NotTrimmed) => {
                return Err(LoadError { line: i, kind: LoadErrorKind::NotTrimmed });
            },
            Err(AddError::AlreadyPresent) => {
                return Err(LoadError { line: i, kind: LoadErrorKind::AlreadyPresent });
            },
        }
        i += 1;
    }
    Ok(())
}

/// The model with the first `n` locations of the list filed, each under the
/// lower-case form of its name.
pub open spec fn with_locations(m: ModelView, items: Seq<Location>, n: nat) -> ModelView
    decreases n,
{
    if n == 0 {
        m
    } else {
        let before = with_locations(m, items, (n - 1) as nat);
        ModelView { locations: before.locations.insert(lowercase(items[n - 1].name@), items[n - 1]), ..before }
    }
}

/// What stands against filing the location at place `i` after those before it.
pub open spec fn location_add_error(m: ModelView, items: Seq<Location>, i: int) -> Option<LoadErrorKind> {
    if !is_trimmed(lowercase(items[i].name@)) {
        Some(LoadErrorKind::NotTrimmed)
    } else if with_locations(m, items, i as nat).has_location(items[i].name@) {
        Some(LoadErrorKind::AlreadyPresent)
    } else {
        None
    }
}

/// Files the locations in the model, in their order, as far as each has a
/// trimmed key that is not taken; the first that has not is reported, and
/// those before it stay filed.
pub fn add_locations(model: &mut Model, items: Vec<Location>) -> (r: Result<(), LoadError>)
    requires
        old(model).wf(),
    ensures
        final(model).wf(),
        match r {
            Ok(()) => {
                &&& forall|i: int| 0 <= i < items@.len() ==> location_add_error(old(model)@, items@, i) is None
                &&& final(model)@ == with_locations(old(model)@, items@, items@.len() as nat)
            },
            Err(error) => {
                &&& error.line < items@.len()
                &&& location_add_error(old(model)@, items@, error.line as int) == Some(error.kind)
                &&& forall|i: int| 0 <= i < error.line ==> location_add_error(old(model)@, items@, i) is None
                &&& final(model)@ == with_locations(old(model)@, items@, error.line as nat)
            },
        },
{
    let ghost m0 = model@;
    let ghost all = items@;
    let count = items.len();
    let mut rest = reversed(items);
    let mut i: usize = 0;
    while i < count
        invariant
            model.wf(),
            m0 == old(model)@,
            all == items@,
            count == all.len(),
            i <= count,
            rest@.len() == count - i,
            forall|k: int| 0 <= k < rest@.len() ==> rest@[k] == all[count - 1 - k],
            model@ == with_locations(m0, all, i as nat),
            forall|k: int| 0 <= k < i ==> location_add_error(m0, all, k) is None,
        decreases count - i,
    {
        let item = rest.pop().unwrap();
        assert(item == all[i as int]);
        match model.try_add_location(item) {
            Ok(()) => {},
            Err(AddError::NotTrimmed) => {
                return Err(LoadError { line: i, kind: LoadErrorKind::NotTrimmed });
            },
            Err(AddError::AlreadyPresent) => {
                return Err(LoadError { line: i, kind: LoadErrorKind::AlreadyPresent });
            },
        }
        i += 1;
    }
    Ok(())
}

/// The model with the first `n` quests of the list filed, each under the
/// lower-case form of its name.
pub open spec fn with_quests(m: ModelView, items: Seq<Quest>, n: nat) -> ModelView
    decreases n,
{
    if n == 0 {
        m
    } else {
        let before = with_quests(m, items, (n - 1) as nat);
        ModelView { quests: before.quests.insert(lowercase(items[n - 1].name@), items[n - 1]), ..before }
    }
}

/// What stands against filing the quest at place `i` after those before it.
pub open spec fn quest_add_error(m: ModelView, items: Seq<Quest>, i: int) -> Option<LoadErrorKind> {
    if !is_trimmed(lowercase(items[i].name@)) {
        Some(LoadErrorKind::NotTrimmed)
    } else if with_quests(m, items, i as nat).has_quest(items[i].name@) {
        Some(LoadErrorKind::AlreadyPresent)
    } else {
        None
    }
}

/// Files the quests in the model, in their order, as far as each has a
/// trimmed key that is not taken; the first that has not is reported, and
/// those before it stay filed.
pub fn add_quests(model: &mut Model, items: Vec<Quest>) -> (r: Result<(), LoadError>)
    requires
        old(model).wf(),
    ensures
        final(model).wf(),
        match r {
            Ok(()) => {
                &&& forall|i: int| 0 <= i < items@.len() ==> quest_add_error(old(model)@, items@, i) is None
                &&& final(model)@ == with_quests(old(model)@, items@, items@.len() as nat)
            },
            Err(error) => {
                &&& error.line < items@.len()
                &&& quest_add_error(old(model)@, items@, error.line as int) == Some(error.kind)
                &&& forall|i: int| 0 <= i < error.line ==> quest_add_error(old(model)@, items@, i) is None
                &&& final(model)@ == with_quests(old(model)@, items@, error.line as nat)
            },
        },
{
    let ghost m0 = model@;
    let ghost all = items@;
    let count = items.len();
    let mut rest = reversed(items);
    let mut i: usize = 0;
    while i < count
        invariant
            model.wf(),
            m0 == old(model)@,
            all == items@,
            count == all.len(),
            i <= count,
            rest@.len() == count - i,
            forall|k: int| 0 <= k < rest@.len() ==> rest@[k] == all[count - 1 - k],
            model@ == with_quests(m0, all, i as nat),
            forall|k: int| 0 <= k < i ==> quest_add_error(m0, all, k) is None,
        decreases count - i,
    {
        let item = rest.pop().unwrap();
        assert(item == all[i as int]);
        match model.try_add_quest(item) {
            Ok(()) => {},
            Err(AddError::NotTrimmed) => {
                return Err(LoadError { line: i, kind: LoadErrorKind::NotTrimmed });
            },
            Err(AddError::AlreadyPresent) => {
                return Err(LoadError { line: i, kind: LoadErrorKind::AlreadyPresent });
            },
        }
        i += 1;
    }
    Ok(())
}

/// Among the first `n` locations of the model, in the order of their keys,
/// the name of the last that names `child` as a child.
pub open spec fn listing_parent(values: Seq<Location>, child: Seq<char>, n: nat) -> Option<Seq<char>>
    decreases n,
{
    if n == 0 {
        None
    } else if values[n - 1].child_names().contains(child) {
        Some(values[n - 1].name@)
    } else {
        listing_parent(values, child, (n - 1) as nat)
    }
}

/// Whether some location names itself as its child.
pub open spec fn has_own_child(values: Seq<Location>) -> bool {
    exists|i: int| 0 <= i < values.len() && (#[trigger] values[i]).child_names().contains(values[i].name@)
}

/// Whether a location is another but for its parent.
pub open spec fn same_but_parent(l: Location, other: Location) -> bool {
    &&& l.name == other.name
    &&& l.typ == other.typ
    &&& l.dog_treasure == other.dog_treasure
    &&& l.discovered_time == other.discovered_time
    &&& l.dog_treasure_found_time == other.dog_treasure_found_time
    &&& l.challenge == other.challenge
    &&& l.quest == other.quest
    &&& l.started_time == other.started_time
    &&& l.completed_time == other.completed_time
    &&& l.flame_lit_time == other.flame_lit_time
    &&& l.child_locations == other.child_locations
}

/// The parent that a location has once the lists of children have been
/// read: the last location that names it as a child, or the parent it had.
pub open spec fn referenced_parent(values: Seq<Location>, i: int) -> Option<Seq<char>> {
    match listing_parent(values, values[i].name@, values.len()) {
        Some(parent) => Some(parent),
        None => optional_text(values[i].parent_location),
    }
}

/// The name of the last location that names `child` as a child.
fn find_listing_parent(model: &Model, child: &str) -> (r: Option<String>)
    requires
        model.wf(),
    ensures
        optional_text(r) == listing_parent(model.locations.values(), child@, model.locations.values().len()),
{
    let mut found: Option<String> = None;
    let mut j: usize = 0;
    while j < model.locations.len()
        invariant
            model.wf(),
            j <= model.locations.keys().len(),
            optional_text(found) == listing_parent(model.locations.values(), child@, j as nat),
        decreases model.locations.keys().len() - j,
    {
        let parent = model.locations.value_at(j);
        if parent.has_child_location(child) {
            found = Some(parent.name.clone());
        }
        j += 1;
    }
    found
}

/// Gives each location that another names as its child that other as its
/// parent. Nothing is changed where a location names itself.
pub fn add_location_parent_references(model: &mut Model) -> (r: Result<(), LoadError>)
    requires
        old(model).wf(),
    ensures
        final(model).wf(),
        final(model).locations.keys() == old(model).locations.keys(),
        final(model)@ == (ModelView { locations: final(model)@.locations, ..old(model)@ }),
        match r {
            Ok(()) => {
                &&& !has_own_child(old(model).locations.values())
                &&& final(model).locations.values().len() == old(model).locations.values().len()
                &&& forall|i: int|
                    0 <= i < old(model).locations.values().len() ==> same_but_parent(
                        #[trigger] final(model).locations.values()[i],
                        old(model).locations.values()[i],
                    ) && optional_text(final(model).locations.values()[i].parent_location) == referenced_parent(
                        old(model).locations.values(),
                        i,
                    )
            },
            Err(error) => {
                &&& error.kind == LoadErrorKind::OwnChild
                &&& has_own_child(old(model).locations.values())
                &&& final(model).locations.values() == old(model).locations.values()
            },
        },
{
    let ghost before = model.locations.values();
    let count = model.locations.len();
    let mut i: usize = 0;
    while i < count
        invariant
            model.wf(),
            *model == *old(model),
            before == model.locations.values(),
            count == before.len(),
            i <= count,
            forall|k: int| 0 <= k < i ==> !(#[trigger] before[k]).child_names().contains(before[k].name@),
        decreases count - i,
    {
        let location = model.locations.value_at(i);
        if location.has_child_location(location.name.as_str()) {
            return Err(LoadError { line: i, kind: LoadErrorKind::OwnChild });
        }
        i += 1;
    }
    let mut i: usize = 0;
    while i < count
        invariant
            model.wf(),
            !has_own_child(before),
            before == old(model).locations.values(),
            model.locations.keys() == old(model).locations.keys(),
            model@ == (ModelView { locations: model@.locations, ..old(model)@ }),
            model.locations.values().len() == before.len(),
            count == before.len(),
            i <= count,
            forall|k: int|
                0 <= k < before.len() ==> same_but_parent(#[trigger] model.locations.values()[k], before[k]),
            forall|k: int|
                0 <= k < i ==> optional_text((#[trigger] model.locations.values()[k]).parent_location)
                    == referenced_parent(before, k),
            forall|k: int| i <= k < before.len() ==> (#[trigger] model.locations.values()[k]) == before[k],
        decreases count - i,
    {
        let ghost now = model.locations.values();
        let name = model.locations.value_at(i).name.clone();
        let found = find_listing_parent(model, name.as_str());
        proof {
            assert(now[i as int] == before[i as int]);
            lemma_listing_parent_same(now, before, name@, before.len());
        }
        match found {
            Some(parent_name) => {
                proof {
                    model.locations.lemma_entry_at(i as int);
                }
                let location = model.locations.value_at_mut(i);
                location.parent_location = Some(parent_name);
                proof {
                    assert forall|k: int| 0 <= k < before.len() && k != i implies (
                    #[trigger] model.locations.values()[k]) == now[k] by {}
                }
            },
            None => {},
        }
        i += 1;
    }
    Ok(())
}

/// Which location names a child depends on the names and the lists of
/// children alone.
pub proof fn lemma_listing_parent_same(a: Seq<Location>, b: Seq<Location>, child: Seq<char>, n: nat)
    requires
        a.len() == b.len(),
        n <= a.len(),
        forall|k: int| 0 <= k < a.len() ==> same_but_parent(#[trigger] a[k], b[k]),
    ensures
        listing_parent(a, child, n) == listing_parent(b, child, n),
    decreases n,
{
    if n > 0 {
        lemma_listing_parent_same(a, b, child, (n - 1) as nat);
        assert(same_but_parent(a[n - 1], b[n - 1]));
    }
}

/// The two parts of a line that was split at its separator.
#[derive(Debug)]
pub struct Pair {
    pub first: String,
    pub second: String,
}

/// The parts of the pairs as texts.
pub open spec fn pair_texts(pairs: Seq<Pair>) -> Seq<(Seq<char>, Seq<char>)> {
    Seq::new(pairs.len(), |i: int| (pairs[i].first@, pairs[i].second@))
}

/// The pairs with both parts trimmed.
pub open spec fn trimmed_pairs(pairs: Seq<(Seq<char>, Seq<char>)>) -> Seq<(Seq<char>, Seq<char>)> {
    Seq::new(pairs.len(), |i: int| (trimmed(pairs[i].0), trimmed(pairs[i].1)))
}

/// Among the first `n` pairs, the second part of the last whose first part
/// names the entity filed under `key`.
pub open spec fn last_value_for(pairs: Seq<(Seq<char>, Seq<char>)>, key: Seq<char>, n: nat) -> Option<Seq<char>>
    decreases n,
{
    if n == 0 {
        None
    } else if lowercase(pairs[n - 1].0) == key {
        Some(pairs[n - 1].1)
    } else {
        last_value_for(pairs, key, (n - 1) as nat)
    }
}

/// Whether a location is another but for its dog treasure.
pub open spec fn same_but_dog_treasure(l: Location, other: Location) -> bool {
    l == (Location { dog_treasure: l.dog_treasure, ..other })
}

/// Whether a location is another but for its challenge.
pub open spec fn same_but_challenge(l: Location, other: Location) -> bool {
    l == (Location { challenge: l.challenge, ..other })
}

/// Whether the second model is the first with the dog treasures that the
/// first `n` pairs name.
pub open spec fn dog_treasures_set(
    m: ModelView,
    after: ModelView,
    pairs: Seq<(Seq<char>, Seq<char>)>,
    n: nat,
) -> bool {
    &&& after == (ModelView { locations: after.locations, ..m })
    &&& after.locations.dom() == m.locations.dom()
    &&& forall|k: Seq<char>| #[trigger]
        m.locations.contains_key(k) ==> same_but_dog_treasure(after.locations[k], m.locations[k])
            && optional_text(after.locations[k].dog_treasure) == (match last_value_for(pairs, k, n) {
            Some(treasure) => Some(treasure),
            None => optional_text(m.locations[k].dog_treasure),
        })
}

/// Whether the second model is the first with the challenges that the first
/// `n` pairs name.
pub open spec fn challenges_set(m: ModelView, after: ModelView, pairs: Seq<(Seq<char>, Seq<char>)>, n: nat) -> bool {
    &&& after == (ModelView { locations: after.locations, ..m })
    &&& after.locations.dom() == m.locations.dom()
    &&& forall|k: Seq<char>| #[trigger]
        m.locations.contains_key(k) ==> same_but_challenge(after.locations[k], m.locations[k]) && optional_text(
            after.locations[k].challenge,
        ) == (match last_value_for(pairs, k, n) {
            Some(challenge) => Some(challenge),
            None => optional_text(m.locations[k].challenge),
        })
}

/// Notes for each pair the dog treasure, its second part, at the location
/// that its first part names. The first pair that names no location of the
/// model is reported, and the pairs before it stay noted.
pub fn load_dog_treasures(model: &mut Model, pairs: &Vec<Pair>) -> (r: Result<(), LoadError>)
    requires
        old(model).wf(),
    ensures
        final(model).wf(),
        match r {
            Ok(()) => {
                &&& forall|i: int| 0 <= i < pairs@.len() ==> old(model)@.has_location(#[trigger] pairs@[i].first@)
                &&& dog_treasures_set(old(model)@, final(model)@, pair_texts(pairs@), pairs@.len() as nat)
            },
            Err(error) => {
                &&& error.kind == LoadErrorKind::UnknownLocation
                &&& error.line < pairs@.len()
                &&& !old(model)@.has_location(pairs@[error.line as int].first@)
                &&& forall|i: int| 0 <= i < error.line ==> old(model)@.has_location(#[trigger] pairs@[i].first@)
                &&& dog_treasures_set(old(model)@, final(model)@, pair_texts(pairs@), error.line as nat)
            },
        },
{
    let ghost m0 = model@;
    let ghost all = pair_texts(pairs@);
    let mut i: usize = 0;
    while i < pairs.len()
        invariant
            model.wf(),
            m0 == old(model)@,
            all == pair_texts(pairs@),
            i <= pairs@.len(),
            forall|k: int| 0 <= k < i ==> m0.has_location(#[trigger] pairs@[k].first@),
            dog_treasures_set(m0, model@, all, i as nat),
        decreases pairs@.len() - i,
    {
        let pair = &pairs[i];
        let ghost now = model@;
        assert(all[i as int] == (pair.first@, pair.second@));
        if model.find_location(pair.first.as_str()).is_none() {
            return Err(LoadError { line: i, kind: LoadErrorKind::UnknownLocation });
        }
        model.get_location_mut(pair.first.as_str()).dog_treasure = Some(pair.second.clone());
        proof {
            let key = lowercase(pair.first@);
            assert(model@.locations.dom() =~= m0.locations.dom());
            assert forall|k: Seq<char>| #[trigger] m0.locations.contains_key(k) implies same_but_dog_treasure(
                model@.locations[k],
                m0.locations[k],
            ) && optional_text(model@.locations[k].dog_treasure) == (match last_value_for(
                all,
                k,
                (i + 1) as nat,
            ) {
                Some(treasure) => Some(treasure),
                None => optional_text(m0.locations[k].dog_treasure),
            }) by {
                if k != key {
                    assert(model@.locations[k] == now.locations[k]);
                }
            }
        }
        i += 1;
    }
    Ok(())
}

/// Notes for each pair the challenge, its second part trimmed, at the shrine
/// that its first part names when trimmed. The first pair that names no
/// shrine of the model is reported, and the pairs before it stay noted.
pub fn load_shrines(model: &mut Model, pairs: &Vec<Pair>) -> (r: Result<(), LoadError>)
    requires
        old(model).wf(),
    ensures
        final(model).wf(),
        match r {
            Ok(()) => {
                &&& forall|i: int|
                    0 <= i < pairs@.len() ==> old(model)@.has_shrine(trimmed(#[trigger] pairs@[i].first@))
                &&& challenges_set(
                    old(model)@,
                    final(model)@,
                    trimmed_pairs(pair_texts(pairs@)),
                    pairs@.len() as nat,
                )
            },
            Err(error) => {
                &&& error.kind == LoadErrorKind::UnknownShrine
                &&& error.line < pairs@.len()
                &&& !old(model)@.has_shrine(trimmed(pairs@[error.line as int].first@))
                &&& forall|i: int|
                    0 <= i < error.line ==> old(model)@.has_shrine(trimmed(#[trigger] pairs@[i].first@))
                &&& challenges_set(
                    old(model)@,
                    final(model)@,
                    trimmed_pairs(pair_texts(pairs@)),
                    error.line as nat,
                )
            },
        },
{
    let ghost m0 = model@;
    let ghost all = trimmed_pairs(pair_texts(pairs@));
    let mut i: usize = 0;
    while i < pairs.len()
        invariant
            model.wf(),
            m0 == old(model)@,
            all == trimmed_pairs(pair_texts(pairs@)),
            i <= pairs@.len(),
            forall|k: int| 0 <= k < i ==> m0.has_shrine(trimmed(#[trigger] pairs@[k].first@)),
            challenges_set(m0, model@, all, i as nat),
        decreases pairs@.len() - i,
    {
        let pair = &pairs[i];
        let ghost now = model@;
        let name = trim(pair.first.as_str());
        let challenge_value = trim(pair.second.as_str());
        assert(all[i as int] == (name@, challenge_value@));
        if model.find_shrine(name.as_str()).is_none() {
            proof {
                let key = lowercase(name@);
                if m0.locations.contains_key(key) {
                    assert(same_but_challenge(now.locations[key], m0.locations[key]));
                }
            }
            return Err(LoadError { line: i, kind: LoadErrorKind::UnknownShrine });
        }
        proof {
            let key = lowercase(name@);
            assert(m0.locations.contains_key(key));
            assert(same_but_challenge(now.locations[key], m0.locations[key]));
        }
        model.get_shrine_mut(name.as_str()).challenge = Some(challenge_value);
        proof {
            let key = lowercase(name@);
            assert(model@.locations.dom() =~= m0.locations.dom());
            assert forall|k: Seq<char>| #[trigger] m0.locations.contains_key(k) implies same_but_challenge(
                model@.locations[k],
                m0.locations[k],
            ) && optional_text(model@.locations[k].challenge) == (match last_value_for(all, k, (i + 1) as nat) {
                Some(challenge) => Some(challenge),
                None => optional_text(m0.locations[k].challenge),
            }) by {
                if k != key {
                    assert(model@.locations[k] == now.locations[k]);
                }
            }
        }
        i += 1;
    }
    Ok(())
}

/// Whether the locations are those that the lines stand for, one for each
/// line.
pub open spec fn locations_parsed(lines: Seq<Seq<char>>, locations: Seq<Location>) -> bool {
    &&& locations.len() == lines.len()
    &&& forall|i: int| 0 <= i < lines.len() ==> location_line_error(lines, i) is None
    &&& forall|i: int|
        0 <= i < lines.len() ==> is_new_location(
            #[trigger] locations[i],
            location_line_name(lines[i]),
            location_line_type(lines[i]),
            location_line_parent(lines, i),
        )
}

/// Whether the second model is the first with the parents that its lists of
/// children give.
pub open spec fn parents_referenced(before: Model, after: Model) -> bool {
    &&& after.locations.keys() == before.locations.keys()
    &&& after@ == (ModelView { locations: after@.locations, ..before@ })
    &&& !has_own_child(before.locations.values())
    &&& after.locations.values().len() == before.locations.values().len()
    &&& forall|i: int|
        0 <= i < before.locations.values().len() ==> same_but_parent(
            #[trigger] after.locations.values()[i],
            before.locations.values()[i],
        ) && optional_text(after.locations.values()[i].parent_location) == referenced_parent(
            before.locations.values(),
            i,
        )
}

/// Whether the model is the first with the locations of the lines filed.
pub open spec fn locations_filed(before: ModelView, lines: Seq<Seq<char>>, filed: Model) -> bool {
    exists|parsed: Seq<Location>|
        {
            &&& #[trigger] locations_parsed(lines, parsed)
            &&& forall|i: int| 0 <= i < parsed.len() ==> location_add_error(before, parsed, i) is None
            &&& filed@ == with_locations(before, parsed, parsed.len())
        }
}

/// Whether the model is the first with the locations of the lines filed and
/// their parents referenced.
pub open spec fn locations_linked(before: ModelView, lines: Seq<Seq<char>>, linked: Model) -> bool {
    exists|filed: Model| #[trigger] locations_filed(before, lines, filed) && parents_referenced(filed, linked)
}

/// Whether the model is the first with the locations of the lines filed,
/// their parents referenced and the dog treasures of the pairs noted.
pub open spec fn treasures_noted(
    before: ModelView,
    lines: Seq<Seq<char>>,
    dog_treasures: Seq<Pair>,
    noted: ModelView,
) -> bool {
    exists|linked: Model|
        {
            &&& #[trigger] locations_linked(before, lines, linked)
            &&& forall|i: int| 0 <= i < dog_treasures.len() ==> linked@.has_location(dog_treasures[i].first@)
            &&& dog_treasures_set(linked@, noted, pair_texts(dog_treasures), dog_treasures.len())
        }
}

/// Whether the second model is the first with the locations of the lines
/// filed, their parents referenced, and the dog treasures and challenges of
/// the pairs noted.
pub open spec fn locations_loaded(
    before: ModelView,
    after: ModelView,
    lines: Seq<Seq<char>>,
    dog_treasures: Seq<Pair>,
    shrines: Seq<Pair>,
) -> bool {
    exists|noted: ModelView|
        {
            &&& #[trigger] treasures_noted(before, lines, dog_treasures, noted)
            &&& forall|i: int| 0 <= i < shrines.len() ==> noted.has_shrine(trimmed(shrines[i].first@))
            &&& challenges_set(noted, after, trimmed_pairs(pair_texts(shrines)), shrines.len())
        }
}

/// Loads the locations: files one for each line of the locations that is
/// neither empty nor a comment, gives the children of each their parent,
/// and notes the dog treasures and the challenges of the shrines. The first
/// line or pair that cannot be taken is reported; what was loaded before it
/// stays.
pub fn load_locations(model: &mut Model, raw_lines: &Vec<String>, dog_treasures: &Vec<Pair>, shrines: &Vec<Pair>) -> (r:
    Result<(), LoadError>)
    requires
        old(model).wf(),
    ensures
        final(model).wf(),
        match r {
            Ok(()) => locations_loaded(
                old(model)@,
                final(model)@,
                cleaned(texts(raw_lines@), raw_lines@.len() as nat),
                dog_treasures@,
                shrines@,
            ),
            Err(error) => match error.kind {
                LoadErrorKind::NoRegion | LoadErrorKind::NoArea => {
                    &&& location_line_error(
                        cleaned(texts(raw_lines@), raw_lines@.len() as nat),
                        error.line as int,
                    ) == Some(error.kind)
                    &&& final(model)@ == old(model)@
                },
                LoadErrorKind::NotTrimmed | LoadErrorKind::AlreadyPresent => exists|parsed: Seq<Location>|
                    {
                        &&& #[trigger] locations_parsed(
                            cleaned(texts(raw_lines@), raw_lines@.len() as nat),
                            parsed,
                        )
                        &&& location_add_error(old(model)@, parsed, error.line as int) == Some(error.kind)
                        &&& final(model)@ == with_locations(old(model)@, parsed, error.line as nat)
                    },
                LoadErrorKind::OwnChild => exists|filed: Model|
                    {
                        &&& #[trigger] locations_filed(
                            old(model)@,
                            cleaned(texts(raw_lines@), raw_lines@.len() as nat),
                            filed,
                        )
                        &&& has_own_child(filed.locations.values())
                        &&& final(model)@ == filed@
                    },
                LoadErrorKind::UnknownLocation => exists|linked: Model|
                    {
                        &&& #[trigger] locations_linked(
                            old(model)@,
                            cleaned(texts(raw_lines@), raw_lines@.len() as nat),
                            linked,
                        )
                        &&& error.line < dog_treasures@.len()
                        &&& !linked@.has_location(dog_treasures@[error.line as int].first@)
                        &&& forall|i: int| 0 <= i < error.line ==> linked@.has_location(dog_treasures@[i].first@)
                        &&& dog_treasures_set(linked@, final(model)@, pair_texts(dog_treasures@), error.line as nat)
                    },
                LoadErrorKind::UnknownShrine => exists|noted: ModelView|
                    {
                        &&& #[trigger] treasures_noted(
                            old(model)@,
                            cleaned(texts(raw_lines@), raw_lines@.len() as nat),
                            dog_treasures@,
                            noted,
                        )
                        &&& error.line < shrines@.len()
                        &&& !noted.has_shrine(trimmed(shrines@[error.line as int].first@))
                        &&& forall|i: int| 0 <= i < error.line ==> noted.has_shrine(trimmed(shrines@[i].first@))
                        &&& challenges_set(
                            noted,
                            final(model)@,
                            trimmed_pairs(pair_texts(shrines@)),
                            error.line as nat,
                        )
                    },
                _ => false,
            },
        },
{
    let lines = clean_lines(raw_lines);
    let ghost m0 = model@;
    let ghost all = texts(lines@);
    let parsed = match parse_locations(&lines) {
        Ok(parsed) => parsed,
        Err(error) => {
            return Err(error);
        },
    };
    let ghost parsed_seq = parsed@;
    assert(locations_parsed(all, parsed_seq)) by {
        assert forall|i: int| 0 <= i < all.len() implies is_new_location(
            #[trigger] parsed_seq[i],
            location_line_name(all[i]),
            location_line_type(all[i]),
            location_line_parent(all, i),
        ) by {
            assert(all[i] == lines@[i]@);
        }
    }
    match add_locations(model, parsed) {
        Ok(()) => {},
        Err(error) => {
            return Err(error);
        },
    }
    let ghost filed = *model;
    assert(locations_filed(m0, all, filed));
    match add_location_parent_references(model) {
        Ok(()) => {},
        Err(error) => {
            assert(model@.locations =~= filed@.locations);
            return Err(error);
        },
    }
    let ghost linked = *model;
    assert(parents_referenced(filed, linked));
    assert(locations_linked(m0, all, linked));
    match load_dog_treasures(model, dog_treasures) {
        Ok(()) => {},
        Err(error) => {
            return Err(error);
        },
    }
    let ghost noted = model@;
    assert(treasures_noted(m0, all, dog_treasures@, noted));
    match load_shrines(model, shrines) {
        Ok(()) => {},
        Err(error) => {
            return Err(error);
        },
    }
    Ok(())
}

/// A line with the parts into which it falls at its separator: the first
/// part, and the second where the line has one.
#[derive(Debug)]
pub struct LineParts {
    pub line: String,
    pub first: String,
    pub second: Option<String>,
}

/// A line with its parts as texts.
pub struct LinePartsView {
    pub line: Seq<char>,
    pub first: Seq<char>,
    pub second: Option<Seq<char>>,
}

impl View for LineParts {
    type V = LinePartsView;

    open spec fn view(&self) -> LinePartsView {
        LinePartsView { line: self.line@, first: self.first@, second: optional_text(self.second) }
    }
}

/// The views of the lines of a list, in its order.
pub open spec fn line_parts(lines: Seq<LineParts>) -> Seq<LinePartsView> {
    Seq::new(lines.len(), |i: int| lines[i]@)
}

/// Whether a line is a header.
pub open spec fn is_header_line(line: Seq<char>) -> bool {
    PREFIX_HEADER@.is_prefix_of(line)
}

/// The race that a header names: the header without its mark and without
/// spaces must be the name of a race.
pub open spec fn header_race(line: Seq<char>) -> Option<Race> {
    Race::named(replaced(replaced(line, PREFIX_HEADER@, ""@), " "@, ""@))
}

/// The race of the last header among the first `n` lines.
pub open spec fn race_before(lines: Seq<LinePartsView>, n: nat) -> Option<Race>
    decreases n,
{
    if n == 0 {
        None
    } else if is_header_line(lines[n - 1].line) {
        header_race(lines[n - 1].line)
    } else {
        race_before(lines, (n - 1) as nat)
    }
}

/// What is wrong with line `i` of the characters, if anything is.
pub open spec fn character_line_error(lines: Seq<LinePartsView>, i: int) -> Option<LoadErrorKind> {
    if is_header_line(lines[i].line) {
        if header_race(lines[i].line) is None {
            Some(LoadErrorKind::UnknownRace)
        } else {
            None
        }
    } else if race_before(lines, i as nat) is None {
        Some(LoadErrorKind::NoRace)
    } else {
        None
    }
}

/// What a line says of a character: its name, and from its tags whether it
/// is a main character, a champion, a merchant, and alive.
pub struct CharacterFacts {
    pub name: Seq<char>,
    pub race: Race,
    pub main: bool,
    pub champion: bool,
    pub merchant: bool,
    pub alive: bool,
}

/// What line `i` says of its character.
pub open spec fn character_facts(lines: Seq<LinePartsView>, i: int) -> CharacterFacts {
    let race = race_before(lines, i as nat)->0;
    match lines[i].second {
        Some(tags) => CharacterFacts {
            name: lines[i].first,
            race,
            main: text_contains(tags, "main"@),
            champion: text_contains(tags, "champion"@),
            merchant: text_contains(tags, "merchant"@),
            alive: !text_contains(tags, "dead"@),
        },
        None => CharacterFacts {
            name: lines[i].first,
            race,
            main: false,
            champion: false,
            merchant: false,
            alive: true,
        },
    }
}

/// What the first `n` lines say of their characters, one entry for each line
/// that is no header.
pub open spec fn characters_upto(lines: Seq<LinePartsView>, n: nat) -> Seq<CharacterFacts>
    decreases n,
{
    if n == 0 {
        Seq::empty()
    } else if is_header_line(lines[n - 1].line) {
        characters_upto(lines, (n - 1) as nat)
    } else {
        characters_upto(lines, (n - 1) as nat).push(character_facts(lines, n - 1))
    }
}

/// Whether a character is new and as the facts say.
pub open spec fn is_new_character(c: Character, facts: CharacterFacts) -> bool {
    &&& c.name@ == facts.name
    &&& c.race == facts.race
    &&& c.main == facts.main
    &&& c.champion == facts.champion
    &&& c.merchant == facts.merchant
    &&& c.alive == facts.alive
    &&& c.mentioned_time == NULL_TIME
    &&& c.met_time == NULL_TIME
    &&& c.met_in_flashback_time == NULL_TIME
}

/// Whether the characters are those that the lines speak of.
pub open spec fn characters_parsed(lines: Seq<LinePartsView>, characters: Seq<Character>) -> bool {
    &&& forall|i: int| 0 <= i < lines.len() ==> character_line_error(lines, i) is None
    &&& characters.len() == characters_upto(lines, lines.len()).len()
    &&& forall|k: int|
        0 <= k < characters.len() ==> is_new_character(
            #[trigger] characters[k],
            characters_upto(lines, lines.len())[k],
        )
}

/// The characters that the lines speak of: each line that is no header is a
/// character of the race that the last header names, with the flags that
/// its tags give. The first line that is out of place is reported.
pub fn parse_characters(lines: &Vec<LineParts>) -> (r: Result<Vec<Character>, LoadError>)
    ensures
        match r {
            Ok(characters) => characters_parsed(line_parts(lines@), characters@),
            Err(error) => {
                &&& error.line < lines@.len()
                &&& character_line_error(line_parts(lines@), error.line as int) == Some(error.kind)
                &&& forall|i: int| 0 <= i < error.line ==> character_line_error(line_parts(lines@), i) is None
            },
        },
{
    let ghost all = line_parts(lines@);
    let mut characters: Vec<Character> = Vec::new();
    let mut race: Option<Race> = None;
    let mut i: usize = 0;
    while i < lines.len()
        invariant
            all == line_parts(lines@),
            i <= lines@.len(),
            race == race_before(all, i as nat),
            forall|k: int| 0 <= k < i ==> character_line_error(all, k) is None,
            characters@.len() == characters_upto(all, i as nat).len(),
            forall|k: int|
                0 <= k < characters@.len() ==> is_new_character(
                    #[trigger] characters@[k],
                    characters_upto(all, i as nat)[k],
                ),
        decreases lines@.len() - i,
    {
        let entry = &lines[i];
        let ghost before = characters@;
        assert(all[i as int] == entry@);
        if str_starts_with(entry.line.as_str(), PREFIX_HEADER) {
            let race_name = replace_text(entry.line.as_str(), PREFIX_HEADER, "");
            race = Race::from_str(replace_text(race_name.as_str(), " ", "").as_str());
            if race.is_none() {
                return Err(LoadError { line: i, kind: LoadErrorKind::UnknownRace });
            }
        } else {
            let (main, champion, merchant, alive) = match &entry.second {
                Some(tags) => (
                    str_contains(tags.as_str(), "main"),
                    str_contains(tags.as_str(), "champion"),
                    str_contains(tags.as_str(), "merchant"),
                    !str_contains(tags.as_str(), "dead"),
                ),
                None => (false, false, false, true),
            };
            match &race {
                Some(known) => {
                    characters.push(Character::new(entry.first.as_str(), known, main, champion, merchant, alive));
                },
                None => {
                    return Err(LoadError { line: i, kind: LoadErrorKind::NoRace });
                },
            }
            proof {
                assert forall|k: int| 0 <= k < before.len() implies #[trigger] characters@[k] == before[k] by {}
                assert(is_new_character(characters@[before.len() as int], character_facts(all, i as int)));
            }
        }
        i += 1;
    }
    Ok(characters)
}

/// Loads the characters: files one for each line that is no header. The
/// first line that cannot be taken is reported; what was filed before it
/// stays.
pub fn load_characters(model: &mut Model, lines: &Vec<LineParts>) -> (r: Result<(), LoadError>)
    requires
        old(model).wf(),
    ensures
        final(model).wf(),
        match r {
            Ok(()) => exists|parsed: Seq<Character>|
                {
                    &&& #[trigger] characters_parsed(line_parts(lines@), parsed)
                    &&& forall|i: int| 0 <= i < parsed.len() ==> character_add_error(old(model)@, parsed, i) is None
                    &&& final(model)@ == with_characters(old(model)@, parsed, parsed.len())
                },
            Err(error) => match error.kind {
                LoadErrorKind::UnknownRace | LoadErrorKind::NoRace => {
                    &&& character_line_error(line_parts(lines@), error.line as int) == Some(error.kind)
                    &&& final(model)@ == old(model)@
                },
                LoadErrorKind::NotTrimmed | LoadErrorKind::AlreadyPresent => exists|parsed: Seq<Character>|
                    {
                        &&& #[trigger] characters_parsed(line_parts(lines@), parsed)
                        &&& character_add_error(old(model)@, parsed, error.line as int) == Some(error.kind)
                        &&& final(model)@ == with_characters(old(model)@, parsed, error.line as nat)
                    },
                _ => false,
            },
        },
{
    let parsed = match parse_characters(lines) {
        Ok(parsed) => parsed,
        Err(error) => {
            return Err(error);
        },
    };
    let ghost parsed_seq = parsed@;
    match add_characters(model, parsed) {
        Ok(()) => {
            assert(characters_parsed(line_parts(lines@), parsed_seq));
            Ok(())
        },
        Err(error) => {
            assert(characters_parsed(line_parts(lines@), parsed_seq));
            Err(error)
        },
    }
}

/// The kind of quest that the text of a header names.
pub open spec fn named_quest_type(header: Seq<char>) -> Option<QuestType> {
    if header == "Main"@ {
        Some(QuestType::Main)
    } else if header == "Side"@ {
        Some(QuestType::Side)
    } else if header == "Shrine"@ {
        Some(QuestType::Shrine)
    } else {
        None
    }
}

/// The text of the last header among the first `n` lines, without its mark.
pub open spec fn quest_header_before(lines: Seq<LinePartsView>, n: nat) -> Option<Seq<char>>
    decreases n,
{
    if n == 0 {
        None
    } else if is_header_line(lines[n - 1].line) {
        Some(replaced(lines[n - 1].line, PREFIX_HEADER@, ""@))
    } else {
        quest_header_before(lines, (n - 1) as nat)
    }
}

/// What is wrong with line `i` of the quests, if anything is: a quest needs
/// a header before it that names a kind of quest, and a shrine's quest the
/// name of its shrine.
pub open spec fn quest_line_error(lines: Seq<LinePartsView>, i: int) -> Option<LoadErrorKind> {
    if is_header_line(lines[i].line) {
        None
    } else {
        match quest_header_before(lines, i as nat) {
            None => Some(LoadErrorKind::NoQuestType),
            Some(header) => match named_quest_type(header) {
                None => Some(LoadErrorKind::UnknownQuestType),
                Some(QuestType::Shrine) => if lines[i].second is None {
                    Some(LoadErrorKind::UnknownShrine)
                } else {
                    None
                },
                Some(_) => None,
            },
        }
    }
}

/// What a line says of a quest.
pub struct QuestFacts {
    pub name: Seq<char>,
    pub typ: QuestType,
    pub notes: Option<Seq<char>>,
    pub shrine: Option<Seq<char>>,
}

/// What line `i` says of its quest: a main quest is named by the whole line,
/// a side quest by its first part trimmed, with the second as its notes, a
/// shrine's quest by its first part, with the second as its shrine.
pub open spec fn quest_facts(lines: Seq<LinePartsView>, i: int) -> QuestFacts {
    match named_quest_type(quest_header_before(lines, i as nat)->0)->0 {
        QuestType::Main => QuestFacts { name: lines[i].line, typ: QuestType::Main, notes: None, shrine: None },
        QuestType::Side => QuestFacts {
            name: trimmed(lines[i].first),
            typ: QuestType::Side,
            notes: lines[i].second,
            shrine: None,
        },
        QuestType::Shrine => QuestFacts {
            name: lines[i].first,
            typ: QuestType::Shrine,
            notes: None,
            shrine: lines[i].second,
        },
    }
}

/// What the first `n` lines say of their quests, one entry for each line
/// that is no header.
pub open spec fn quests_upto(lines: Seq<LinePartsView>, n: nat) -> Seq<QuestFacts>
    decreases n,
{
    if n == 0 {
        Seq::empty()
    } else if is_header_line(lines[n - 1].line) {
        quests_upto(lines, (n - 1) as nat)
    } else {
        quests_upto(lines, (n - 1) as nat).push(quest_facts(lines, n - 1))
    }
}

/// The shrines with their quests that the first `n` lines name, each as the
/// name of the shrine and the name of the quest.
pub open spec fn shrine_quests_upto(lines: Seq<LinePartsView>, n: nat) -> Seq<(Seq<char>, Seq<char>)>
    decreases n,
{
    if n == 0 {
        Seq::empty()
    } else {
        let before = shrine_quests_upto(lines, (n - 1) as nat);
        if !is_header_line(lines[n - 1].line) && quest_facts(lines, n - 1).typ == QuestType::Shrine {
            before.push((lines[n - 1].second->0, lines[n - 1].first))
        } else {
            before
        }
    }
}

/// Whether a quest is new and as the facts say.
pub open spec fn is_new_quest(q: Quest, facts: QuestFacts) -> bool {
    &&& q.name@ == facts.name
    &&& q.typ == facts.typ
    &&& optional_text(q.notes) == facts.notes
    &&& optional_text(q.shrine) == facts.shrine
    &&& q.started_time == NULL_TIME
    &&& q.completed_time == NULL_TIME
}

/// Whether the quests and the pairs of shrine and quest are those that the
/// lines speak of.
pub open spec fn quests_parsed(lines: Seq<LinePartsView>, quests: Seq<Quest>, shrines: Seq<Pair>) -> bool {
    &&& forall|i: int| 0 <= i < lines.len() ==> quest_line_error(lines, i) is None
    &&& quests.len() == quests_upto(lines, lines.len()).len()
    &&& forall|k: int|
        0 <= k < quests.len() ==> is_new_quest(#[trigger] quests[k], quests_upto(lines, lines.len())[k])
    &&& pair_texts(shrines) == shrine_quests_upto(lines, lines.len())
}

/// The quests that the lines speak of, and for the quests of shrines the
/// pairs of shrine and quest. The first line that is out of place is
/// reported.
pub fn parse_quests(lines: &Vec<LineParts>) -> (r: Result<(Vec<Quest>, Vec<Pair>), LoadError>)
    ensures
        match r {
            Ok((quests, shrines)) => quests_parsed(line_parts(lines@), quests@, shrines@),
            Err(error) => {
                &&& error.line < lines@.len()
                &&& quest_line_error(line_parts(lines@), error.line as int) == Some(error.kind)
                &&& forall|i: int| 0 <= i < error.line ==> quest_line_error(line_parts(lines@), i) is None
            },
        },
{
    let ghost all = line_parts(lines@);
    let mut quests: Vec<Quest> = Vec::new();
    let mut shrines: Vec<Pair> = Vec::new();
    let mut quest_type_name: Option<String> = None;
    let mut i: usize = 0;
    assert(pair_texts(shrines@) =~= shrine_quests_upto(all, 0));
    while i < lines.len()
        invariant
            all == line_parts(lines@),
            i <= lines@.len(),
            optional_text(quest_type_name) == quest_header_before(all, i as nat),
            forall|k: int| 0 <= k < i ==> quest_line_error(all, k) is None,
            quests@.len() == quests_upto(all, i as nat).len(),
            forall|k: int|
                0 <= k < quests@.len() ==> is_new_quest(#[trigger] quests@[k], quests_upto(all, i as nat)[k]),
            pair_texts(shrines@) == shrine_quests_upto(all, i as nat),
        decreases lines@.len() - i,
    {
        let entry = &lines[i];
        let ghost before = quests@;
        let ghost pairs_before = pair_texts(shrines@);
        assert(all[i as int] == entry@);
        if str_starts_with(entry.line.as_str(), PREFIX_HEADER) {
            quest_type_name = Some(replace_text(entry.line.as_str(), PREFIX_HEADER, ""));
        } else {
            match &quest_type_name {
                None => {
                    return Err(LoadError { line: i, kind: LoadErrorKind::NoQuestType });
                },
                Some(kind_name) => {
                    if same_text(kind_name.as_str(), "Main") {
                        quests.push(Quest::new_main(entry.line.as_str()));
                        assert(pair_texts(shrines@) =~= pairs_before);
                    } else if same_text(kind_name.as_str(), "Side") {
                        let name = trim(entry.first.as_str());
                        quests.push(Quest::new_side(name.as_str(), clone_optional(&entry.second)));
                        assert(pair_texts(shrines@) =~= pairs_before);
                    } else if same_text(kind_name.as_str(), "Shrine") {
                        match &entry.second {
                            Some(shrine_name) => {
                                shrines.push(Pair { first: shrine_name.clone(), second: entry.first.clone() });
                                quests.push(Quest::new_shrine(entry.first.as_str(), shrine_name.as_str()));
                                assert(pair_texts(shrines@) =~= pairs_before.push((shrine_name@, entry.first@)));
                            },
                            None => {
                                return Err(LoadError { line: i, kind: LoadErrorKind::UnknownShrine });
                            },
                        }
                    } else {
                        return Err(LoadError { line: i, kind: LoadErrorKind::UnknownQuestType });
                    }
                },
            }
            proof {
                assert forall|k: int| 0 <= k < before.len() implies #[trigger] quests@[k] == before[k] by {}
                assert(is_new_quest(quests@[before.len() as int], quest_facts(all, i as int)));
            }
        }
        i += 1;
    }
    Ok((quests, shrines))
}

/// Whether a location is another but for its quest.
pub open spec fn same_but_quest(l: Location, other: Location) -> bool {
    l == (Location { quest: l.quest, ..other })
}

/// Whether the second model is the first with the quests noted at the
/// shrines that the first `n` pairs name.
pub open spec fn shrine_quests_set(m: ModelView, after: ModelView, pairs: Seq<(Seq<char>, Seq<char>)>, n: nat) -> bool {
    &&& after == (ModelView { locations: after.locations, ..m })
    &&& after.locations.dom() == m.locations.dom()
    &&& forall|k: Seq<char>| #[trigger]
        m.locations.contains_key(k) ==> same_but_quest(after.locations[k], m.locations[k]) && optional_text(
            after.locations[k].quest,
        ) == (match last_value_for(pairs, k, n) {
            Some(quest) => Some(quest),
            None => optional_text(m.locations[k].quest),
        })
}

/// Notes for each pair the quest, its second part, at the shrine that its
/// first part names. The first pair that names no shrine of the model is
/// reported, and the pairs before it stay noted.
pub fn note_shrine_quests(model: &mut Model, pairs: &Vec<Pair>) -> (r: Result<(), LoadError>)
    requires
        old(model).wf(),
    ensures
        final(model).wf(),
        match r {
            Ok(()) => {
                &&& forall|i: int| 0 <= i < pairs@.len() ==> old(model)@.has_shrine(#[trigger] pairs@[i].first@)
                &&& shrine_quests_set(old(model)@, final(model)@, pair_texts(pairs@), pairs@.len() as nat)
            },
            Err(error) => {
                &&& error.kind == LoadErrorKind::UnknownShrine
                &&& error.line < pairs@.len()
                &&& !old(model)@.has_shrine(pairs@[error.line as int].first@)
                &&& forall|i: int| 0 <= i < error.line ==> old(model)@.has_shrine(#[trigger] pairs@[i].first@)
                &&& shrine_quests_set(old(model)@, final(model)@, pair_texts(pairs@), error.line as nat)
            },
        },
{
    let ghost m0 = model@;
    let ghost all = pair_texts(pairs@);
    let mut i: usize = 0;
    while i < pairs.len()
        invariant
            model.wf(),
            m0 == old(model)@,
            all == pair_texts(pairs@),
            i <= pairs@.len(),
            forall|k: int| 0 <= k < i ==> m0.has_shrine(#[trigger] pairs@[k].first@),
            shrine_quests_set(m0, model@, all, i as nat),
        decreases pairs@.len() - i,
    {
        let pair = &pairs[i];
        let ghost now = model@;
        let ghost key = lowercase(pair.first@);
        assert(all[i as int] == (pair.first@, pair.second@));
        proof {
            if m0.locations.contains_key(key) {
                assert(same_but_quest(now.locations[key], m0.locations[key]));
            }
        }
        if model.find_shrine(pair.first.as_str()).is_none() {
            return Err(LoadError { line: i, kind: LoadErrorKind::UnknownShrine });
        }
        model.get_shrine_mut(pair.first.as_str()).quest = Some(pair.second.clone());
        proof {
            assert(model@.locations.dom() =~= m0.locations.dom());
            assert forall|k: Seq<char>| #[trigger] m0.locations.contains_key(k) implies same_but_quest(
                model@.locations[k],
                m0.locations[k],
            ) && optional_text(model@.locations[k].quest) == (match last_value_for(all, k, (i + 1) as nat) {
                Some(quest) => Some(quest),
                None => optional_text(m0.locations[k].quest),
            }) by {
                if k != key {
                    assert(model@.locations[k] == now.locations[k]);
                }
            }
        }
        i += 1;
    }
    Ok(())
}

/// Whether the model is the first with the quests of the shrines that the
/// lines name noted at their shrines, and these are the quests that the
/// lines speak of.
pub open spec fn quests_noted(before: ModelView, lines: Seq<LinePartsView>, noted: ModelView, parsed: Seq<Quest>) -> bool {
    exists|shrines: Seq<Pair>|
        {
            &&& #[trigger] quests_parsed(lines, parsed, shrines)
            &&& forall|i: int| 0 <= i < shrines.len() ==> before.has_shrine(shrines[i].first@)
            &&& shrine_quests_set(before, noted, pair_texts(shrines), shrines.len())
        }
}

/// Whether the second model is the first with the quests of the lines
/// filed and noted at their shrines.
pub open spec fn quests_loaded(before: ModelView, after: ModelView, lines: Seq<LinePartsView>) -> bool {
    exists|parsed: Seq<Quest>, noted: ModelView|
        {
            &&& #[trigger] quests_noted(before, lines, noted, parsed)
            &&& forall|i: int| 0 <= i < parsed.len() ==> quest_add_error(noted, parsed, i) is None
            &&& after == with_quests(noted, parsed, parsed.len())
        }
}

/// Whether the quest at a place of the shrines that the lines name has no
/// shrine in the model, while those before it have, and the second model is
/// the first with the quests noted up to there.
pub open spec fn shrine_quest_missing(before: ModelView, after: ModelView, lines: Seq<LinePartsView>, place: int) -> bool {
    exists|parsed: Seq<Quest>, shrines: Seq<Pair>|
        {
            &&& #[trigger] quests_parsed(lines, parsed, shrines)
            &&& 0 <= place < shrines.len()
            &&& !before.has_shrine(shrines[place].first@)
            &&& forall|i: int| 0 <= i < place ==> before.has_shrine(shrines[i].first@)
            &&& shrine_quests_set(before, after, pair_texts(shrines), place as nat)
        }
}

/// Loads the quests: notes each shrine's quest at its shrine, and files one
/// quest for each line that is no header, of the kind that the last header
/// names. The first line that cannot be taken is reported; for a shrine
/// that the model does not know, the place counts the quests of shrines.
pub fn load_quests(model: &mut Model, lines: &Vec<LineParts>) -> (r: Result<(), LoadError>)
    requires
        old(model).wf(),
    ensures
        final(model).wf(),
        match r {
            Ok(()) => quests_loaded(old(model)@, final(model)@, line_parts(lines@)),
            Err(error) => match error.kind {
                LoadErrorKind::NoQuestType | LoadErrorKind::UnknownQuestType => {
                    &&& quest_line_error(line_parts(lines@), error.line as int) == Some(error.kind)
                    &&& final(model)@ == old(model)@
                },
                LoadErrorKind::UnknownShrine => {
                    &&& final(model)@ == old(model)@ && quest_line_error(line_parts(lines@), error.line as int)
                        == Some(error.kind) || shrine_quest_missing(
                        old(model)@,
                        final(model)@,
                        line_parts(lines@),
                        error.line as int,
                    )
                },
                LoadErrorKind::NotTrimmed | LoadErrorKind::AlreadyPresent => exists|
                    parsed: Seq<Quest>,
                    noted: ModelView,
                |
                    {
                        &&& #[trigger] quests_noted(old(model)@, line_parts(lines@), noted, parsed)
                        &&& quest_add_error(noted, parsed, error.line as int) == Some(error.kind)
                        &&& final(model)@ == with_quests(noted, parsed, error.line as nat)
                    },
                _ => false,
            },
        },
{
    let (parsed, shrines) = match parse_quests(lines) {
        Ok(both) => both,
        Err(error) => {
            return Err(error);
        },
    };
    let ghost parsed_seq = parsed@;
    let ghost m0 = model@;
    assert(quests_parsed(line_parts(lines@), parsed_seq, shrines@));
    match note_shrine_quests(model, &shrines) {
        Ok(()) => {},
        Err(error) => {
            assert(shrine_quest_missing(m0, model@, line_parts(lines@), error.line as int));
            return Err(error);
        },
    }
    let ghost noted = model@;
    assert(quests_noted(m0, line_parts(lines@), noted, parsed_seq));
    match add_quests(model, parsed) {
        Ok(()) => Ok(()),
        Err(error) => Err(error),
    }
}

/// The lines of a section as the loaders take them: the lines of the text,
/// each trimmed, without the empty ones, the comments and those that speak
/// of an amiibo, and without the notes that something is downloadable.
pub open spec fn section_lines(parts: Seq<Seq<char>>, n: nat) -> Seq<Seq<char>>
    decreases n,
{
    if n == 0 {
        Seq::empty()
    } else {
        let line = trimmed(parts[n - 1]);
        if line_kept(line) && !text_contains(line, "Amiibo"@) {
            section_lines(parts, (n - 1) as nat).push(
                replaced(replaced(line, " (DLC)"@, ""@), " (Free DLC)"@, ""@),
            )
        } else {
            section_lines(parts, (n - 1) as nat)
        }
    }
}

/// The lines of a section as the loaders take them.
pub fn section_to_lines(content: String) -> (r: Vec<String>)
    ensures
        texts(r@) == section_lines(splits(content@, "\n"@), splits(content@, "\n"@).len()),
{
    let parts = split_text(content.as_str(), "\n");
    let ghost all = splits(content@, "\n"@);
    let mut lines: Vec<String> = Vec::new();
    assert(texts(lines@) =~= section_lines(all, 0));
    let mut i: usize = 0;
    while i < parts.len()
        invariant
            all == splits(content@, "\n"@),
            parts@.len() == all.len(),
            forall|k: int| 0 <= k < parts@.len() ==> (#[trigger] parts@[k])@ == all[k],
            i <= parts@.len(),
            texts(lines@) == section_lines(all, i as nat),
        decreases parts@.len() - i,
    {
        let ghost before = texts(lines@);
        let line = trim(parts[i].as_str());
        if line.as_str().unicode_len() > 0 && !str_starts_with(line.as_str(), PREFIX_COMMENT) && !str_contains(
            line.as_str(),
            "Amiibo",
        ) {
            let shown = replace_text(replace_text(line.as_str(), " (DLC)", "").as_str(), " (Free DLC)", "");
            lines.push(shown);
            assert(texts(lines@) =~= before.push(replaced(replaced(line@, " (DLC)"@, ""@), " (Free DLC)"@, ""@)));
        } else {
            assert(texts(lines@) =~= before);
        }
        i += 1;
    }
    lines
}

/// The map that files the second part of each of the first `n` pairs under
/// its first part; of two pairs with the same first part the later stays.
pub open spec fn sections_of(pairs: Seq<Pair>, n: nat) -> Map<Seq<char>, String>
    decreases n,
{
    if n == 0 {
        Map::empty()
    } else {
        sections_of(pairs, (n - 1) as nat).insert(pairs[n - 1].first@, pairs[n - 1].second)
    }
}

/// The sections of a text by their headers: each pair is the header of a
/// section and what stands below it.
pub fn break_into_sections(sections: Vec<Pair>) -> (r: NameMap<String>)
    ensures
        r.wf(),
        r@ == sections_of(sections@, sections@.len() as nat),
{
    let ghost all = sections@;
    let count = sections.len();
    let mut rest = reversed(sections);
    let mut map: NameMap<String> = NameMap::new();
    let mut i: usize = 0;
    while i < count
        invariant
            map.wf(),
            count == all.len(),
            i <= count,
            rest@.len() == count - i,
            forall|k: int| 0 <= k < rest@.len() ==> rest@[k] == all[count - 1 - k],
            map@ == sections_of(all, i as nat),
        decreases count - i,
    {
        let pair = rest.pop().unwrap();
        assert(pair == all[i as int]);
        map.put(pair.first, pair.second);
        i += 1;
    }
    map
}

} // verus!
